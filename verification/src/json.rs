//! JSON documents as the node reads, compares, and amends them.
use vstd::prelude::*;

use crate::table::{
    distinct, dropped, law_lookup_after_store, lemma_lookup_push, lemma_lookup_row, lookup, row_from,
    stored, Rows,
};
use crate::text::same;

verus! {

/// A JSON value.
///
/// A number that 64 bits hold is `Whole`. Any other number is `Real`, with the integer it
/// truncates to and the text it is written as.
pub enum Json {
    Null,
    Bool(bool),
    Whole(i64),
    Real { near: i64, text: String },
    Text(String),
    Array(Vec<Json>),
    Object(Vec<(String, Json)>),
}

/// A JSON value as a mathematical tree.
pub enum Tree {
    Null,
    Bool(bool),
    Whole(i64),
    Real { near: i64, text: Seq<char> },
    Text(Seq<char>),
    Array(Seq<Tree>),
    Object(Seq<(Seq<char>, Tree)>),
}

/// The tree of a document.
pub open spec fn tree_of(json: Json) -> Tree
    decreases json,
{
    match json {
        Json::Null => Tree::Null,
        Json::Bool(b) => Tree::Bool(b),
        Json::Whole(n) => Tree::Whole(n),
        Json::Real { near, text } => Tree::Real { near, text: text@ },
        Json::Text(text) => Tree::Text(text@),
        Json::Array(items) => Tree::Array(
            Seq::new(
                items@.len(),
                |i: int|
                    if 0 <= i < items@.len() {
                        tree_of(items@[i])
                    } else {
                        Tree::Null
                    },
            ),
        ),
        Json::Object(fields) => Tree::Object(
            Seq::new(
                fields@.len(),
                |i: int|
                    if 0 <= i < fields@.len() {
                        (fields@[i].0@, tree_of(fields@[i].1))
                    } else {
                        (Seq::empty(), Tree::Null)
                    },
            ),
        ),
    }
}

impl View for Json {
    type V = Tree;

    open spec fn view(&self) -> Tree {
        tree_of(*self)
    }
}

impl Tree {
    /// The fields of an object; none of any other value.
    pub open spec fn fields(self) -> Rows<Tree> {
        match self {
            Tree::Object(fields) => fields,
            _ => Seq::empty(),
        }
    }

    /// The value of a field.
    pub open spec fn field(self, key: Seq<char>) -> Option<Tree> {
        lookup(self.fields(), key)
    }

    /// The text of a field that holds one.
    pub open spec fn text(self, key: Seq<char>) -> Option<Seq<char>> {
        match self.field(key) {
            Some(Tree::Text(text)) => Some(text),
            _ => None,
        }
    }

    /// The text of a field, or the empty text.
    pub open spec fn text_or_empty(self, key: Seq<char>) -> Seq<char> {
        match self.text(key) {
            Some(text) => text,
            None => Seq::empty(),
        }
    }

    /// The integer of a field that holds one.
    pub open spec fn whole(self, key: Seq<char>) -> Option<i64> {
        match self.field(key) {
            Some(Tree::Whole(n)) => Some(n),
            _ => None,
        }
    }

    /// The number of a field, truncated where it is no integer.
    pub open spec fn number(self, key: Seq<char>) -> Option<i64> {
        match self.field(key) {
            Some(Tree::Whole(n)) => Some(n),
            Some(Tree::Real { near, .. }) => Some(near),
            _ => None,
        }
    }

    /// Whether a field holds `true`.
    pub open spec fn flag(self, key: Seq<char>) -> bool {
        self.field(key) == Some(Tree::Bool(true))
    }

    /// The elements of a field that holds an array.
    pub open spec fn items(self, key: Seq<char>) -> Option<Seq<Tree>> {
        match self.field(key) {
            Some(Tree::Array(items)) => Some(items),
            _ => None,
        }
    }

    /// The object with one more field, or with another value in it.
    pub open spec fn with(self, key: Seq<char>, value: Tree) -> Tree {
        Tree::Object(stored(self.fields(), key, value))
    }

    /// The object without a field.
    pub open spec fn without(self, key: Seq<char>) -> Tree {
        Tree::Object(dropped(self.fields(), key))
    }

    /// Whether the two values are the same; the order of an object's fields is no part of
    /// it.
    pub open spec fn equals(self, other: Tree) -> bool
        decreases self,
    {
        match (self, other) {
            (Tree::Null, Tree::Null) => true,
            (Tree::Bool(a), Tree::Bool(b)) => a == b,
            (Tree::Whole(a), Tree::Whole(b)) => a == b,
            (Tree::Real { text: a, .. }, Tree::Real { text: b, .. }) => a == b,
            (Tree::Text(a), Tree::Text(b)) => a == b,
            (Tree::Array(a), Tree::Array(b)) => {
                &&& a.len() == b.len()
                &&& forall|i: int| 0 <= i < a.len() ==> (#[trigger] a[i]).equals(b[i])
            },
            (Tree::Object(a), Tree::Object(b)) => {
                &&& forall|i: int|
                    0 <= i < a.len() ==> match lookup(b, (#[trigger] a[i]).0) {
                        Some(value) => a[i].1.equals(value),
                        None => false,
                    }
                &&& forall|j: int| 0 <= j < b.len() ==> lookup(a, (#[trigger] b[j]).0) is Some
            },
            _ => false,
        }
    }
}

/// Whether two optional values are the same.
pub open spec fn same_value(a: Option<Tree>, b: Option<Tree>) -> bool {
    match (a, b) {
        (Some(x), Some(y)) => x.equals(y),
        (None, None) => true,
        _ => false,
    }
}

/// The fields of an object.
pub open spec fn fields_of(fields: Seq<(String, Json)>) -> Rows<Tree> {
    Seq::new(fields.len(), |i: int| (fields[i].0@, tree_of(fields[i].1)))
}

/// The elements of an array.
pub open spec fn items_of(items: Seq<Json>) -> Seq<Tree> {
    Seq::new(items.len(), |i: int| tree_of(items[i]))
}

/// The tree of an object has the trees of its fields.
pub proof fn lemma_object(fields: Vec<(String, Json)>)
    ensures
        tree_of(Json::Object(fields)) == Tree::Object(fields_of(fields@)),
{
    assert(tree_of(Json::Object(fields))->Object_0 =~= fields_of(fields@));
}

/// The tree of an array has the trees of its elements.
pub proof fn lemma_array(items: Vec<Json>)
    ensures
        tree_of(Json::Array(items)) == Tree::Array(items_of(items@)),
{
    assert(tree_of(Json::Array(items))->Array_0 =~= items_of(items@));
}

/// What reading a document came to, as a tree or a text.
pub open spec fn read_as(read: Result<Json, String>) -> Result<Tree, Seq<char>> {
    match read {
        Ok(document) => Ok(document@),
        Err(e) => Err(e@),
    }
}

/// The object that was read, where it is one.
pub open spec fn object_in(read: Result<Tree, Seq<char>>) -> Option<Tree> {
    match read {
        Ok(document) => if document is Object {
            Some(document)
        } else {
            None
        },
        Err(_) => None,
    }
}

/// The object that was read, where it is one.
pub fn object_of(read: Result<Json, String>) -> (r: Option<Json>)
    ensures
        match r {
            Some(document) => object_in(read_as(read)) == Some(document@),
            None => object_in(read_as(read)) is None,
        },
{
    match read {
        Ok(document) => if document.is_object() {
            Some(document)
        } else {
            None
        },
        Err(_) => None,
    }
}

fn find_field(fields: &Vec<(String, Json)>, key: &str) -> (r: Option<usize>)
    ensures
        match r {
            Some(i) => i < fields@.len() && row_from(fields_of(fields@), key@, 0) == Some(i as int),
            None => row_from(fields_of(fields@), key@, 0) is None,
        },
{
    let mut i: usize = 0;
    while i < fields.len()
        invariant
            i <= fields@.len(),
            row_from(fields_of(fields@), key@, 0) == row_from(fields_of(fields@), key@, i as int),
        decreases fields.len() - i,
    {
        if same(fields[i].0.as_str(), key) {
            return Some(i);
        }
        i = i + 1;
    }
    None
}

/// An object without fields.
pub open spec fn no_fields() -> Tree {
    Tree::Object(Seq::empty())
}

/// An object without fields.
pub fn object() -> (r: Json)
    ensures
        r@ == no_fields(),
{
    let none: Vec<(String, Json)> = Vec::new();
    proof {
        lemma_object(none);
        assert(fields_of(none@) =~= Seq::empty());
    }
    Json::Object(none)
}

impl Json {
    /// The value of a field.
    pub fn field(&self, key: &str) -> (r: Option<&Json>)
        ensures
            match r {
                Some(value) => self@.field(key@) == Some(value@),
                None => self@.field(key@) is None,
            },
    {
        match self {
            Json::Object(fields) => {
                proof {
                    lemma_object(*fields);
                }
                match find_field(fields, key) {
                    Some(i) => Some(&fields[i].1),
                    None => None,
                }
            },
            _ => None,
        }
    }

    /// The text of a field that holds one.
    pub fn text(&self, key: &str) -> (r: Option<&str>)
        ensures
            match r {
                Some(text) => self@.text(key@) == Some(text@),
                None => self@.text(key@) is None,
            },
    {
        match self.field(key) {
            Some(Json::Text(text)) => Some(text.as_str()),
            _ => None,
        }
    }

    /// The text of a field, or the empty text.
    pub fn text_or_empty(&self, key: &str) -> (r: &str)
        ensures
            r@ == self@.text_or_empty(key@),
    {
        match self.text(key) {
            Some(text) => text,
            None => {
                let empty = "";
                proof {
                    reveal_strlit("");
                    assert(empty@ =~= Seq::<char>::empty());
                }
                empty
            },
        }
    }

    /// Whether a field holds exactly the text `wanted`.
    pub fn has_text(&self, key: &str, wanted: &str) -> (r: bool)
        ensures
            r == (self@.text(key@) == Some(wanted@)),
    {
        match self.text(key) {
            Some(text) => same(text, wanted),
            None => false,
        }
    }

    /// The integer of a field that holds one.
    pub fn whole(&self, key: &str) -> (r: Option<i64>)
        ensures
            r == self@.whole(key@),
    {
        match self.field(key) {
            Some(Json::Whole(n)) => Some(*n),
            _ => None,
        }
    }

    /// The number of a field, truncated where it is no integer.
    pub fn number(&self, key: &str) -> (r: Option<i64>)
        ensures
            r == self@.number(key@),
    {
        match self.field(key) {
            Some(Json::Whole(n)) => Some(*n),
            Some(Json::Real { near, .. }) => Some(*near),
            _ => None,
        }
    }

    /// Whether a field holds `true`.
    pub fn flag(&self, key: &str) -> (r: bool)
        ensures
            r == self@.flag(key@),
    {
        match self.field(key) {
            Some(Json::Bool(b)) => *b,
            _ => false,
        }
    }

    /// The elements of a field that holds an array.
    pub fn items(&self, key: &str) -> (r: Option<&Vec<Json>>)
        ensures
            match r {
                Some(items) => self@.items(key@) == Some(items_of(items@)),
                None => self@.items(key@) is None,
            },
    {
        match self.field(key) {
            Some(Json::Array(items)) => {
                proof {
                    lemma_array(*items);
                }
                Some(items)
            },
            _ => None,
        }
    }

    /// The fields of an object; none of any other value.
    pub fn fields(&self) -> (r: Option<&Vec<(String, Json)>>)
        ensures
            match r {
                Some(fields) => self@ == Tree::Object(fields_of(fields@)),
                None => !(self@ is Object),
            },
    {
        match self {
            Json::Object(fields) => {
                proof {
                    lemma_object(*fields);
                }
                Some(fields)
            },
            _ => None,
        }
    }

    /// Whether this is an object.
    pub fn is_object(&self) -> (r: bool)
        ensures
            r == (self@ is Object),
    {
        self.fields().is_some()
    }

    /// A copy of the value.
    pub fn copy(&self) -> (r: Json)
        ensures
            r@ == self@,
        decreases self,
    {
        match self {
            Json::Null => Json::Null,
            Json::Bool(b) => Json::Bool(*b),
            Json::Whole(n) => Json::Whole(*n),
            Json::Real { near, text } => Json::Real { near: *near, text: text.clone() },
            Json::Text(text) => Json::Text(text.clone()),
            Json::Array(items) => {
                let mut out: Vec<Json> = Vec::new();
                let mut i: usize = 0;
                while i < items.len()
                    invariant
                        i <= items@.len(),
                        out@.len() == i,
                        *self == Json::Array(*items),
                        forall|j: int| 0 <= j < i ==> tree_of(out@[j]) == tree_of(items@[j]),
                    decreases items.len() - i,
                {
                    assert(decreases_to!(*self => self->Array_0));
                    assert(decreases_to!(items@ => items@[i as int]));
                    out.push(items[i].copy());
                    i = i + 1;
                }
                proof {
                    lemma_array(*items);
                    lemma_array(out);
                    assert(items_of(out@) =~= items_of(items@));
                }
                Json::Array(out)
            },
            Json::Object(fields) => {
                let mut out: Vec<(String, Json)> = Vec::new();
                let mut i: usize = 0;
                while i < fields.len()
                    invariant
                        i <= fields@.len(),
                        out@.len() == i,
                        *self == Json::Object(*fields),
                        forall|j: int|
                            0 <= j < i ==> out@[j].0@ == fields@[j].0@ && tree_of(out@[j].1)
                                == tree_of(fields@[j].1),
                    decreases fields.len() - i,
                {
                    assert(decreases_to!(*self => self->Object_0));
                    assert(decreases_to!(fields@ => fields@[i as int]));
                    assert(decreases_to!(fields@[i as int] => fields@[i as int].1));
                    out.push((fields[i].0.clone(), fields[i].1.copy()));
                    i = i + 1;
                }
                proof {
                    lemma_object(*fields);
                    lemma_object(out);
                    assert(fields_of(out@) =~= fields_of(fields@));
                }
                Json::Object(out)
            },
        }
    }

    /// The object with `value` in the field `key`.
    pub fn with(self, key: &str, value: Json) -> (r: Json)
        ensures
            r@ == self@.with(key@, value@),
    {
        let ghost whole = self@;
        let mut fields: Vec<(String, Json)> = match self {
            Json::Object(fields) => {
                proof {
                    lemma_object(fields);
                }
                fields
            },
            _ => {
                let none: Vec<(String, Json)> = Vec::new();
                assert(fields_of(none@) =~= Seq::empty());
                none
            },
        };
        assert(fields_of(fields@) =~= whole.fields());
        let ghost before = fields@;
        let owned = key.to_owned();
        match find_field(&fields, key) {
            Some(i) => {
                fields.set(i, (owned, value));
                assert(fields_of(fields@) =~= fields_of(before).update(i as int, (key@, value@)));
            },
            None => {
                fields.push((owned, value));
                assert(fields_of(fields@) =~= fields_of(before).push((key@, value@)));
            },
        }
        proof {
            lemma_object(fields);
        }
        Json::Object(fields)
    }

    /// The object without the field `key`.
    pub fn without(&self, key: &str) -> (r: Json)
        ensures
            r@ == self@.without(key@),
    {
        let mut out: Vec<(String, Json)> = Vec::new();
        assert(fields_of(out@) =~= Seq::empty());
        match self {
            Json::Object(fields) => {
                proof {
                    lemma_object(*fields);
                }
                let ghost rows = fields_of(fields@);
                assert(rows.subrange(0, 0) =~= Seq::empty());
                let mut i: usize = 0;
                while i < fields.len()
                    invariant
                        i <= fields@.len(),
                        rows == fields_of(fields@),
                        fields_of(out@) == dropped(rows.subrange(0, i as int), key@),
                    decreases fields.len() - i,
                {
                    let ghost upto = rows.subrange(0, i + 1);
                    assert(upto.drop_last() =~= rows.subrange(0, i as int));
                    assert(upto.last() == rows[i as int]);
                    if !same(fields[i].0.as_str(), key) {
                        let ghost before = out@;
                        out.push((fields[i].0.clone(), fields[i].1.copy()));
                        assert(fields_of(out@) =~= fields_of(before).push(rows[i as int]));
                    }
                    i = i + 1;
                }
                assert(rows.subrange(0, rows.len() as int) =~= rows);
            },
            _ => {},
        }
        proof {
            lemma_object(out);
        }
        Json::Object(out)
    }

    /// Whether the two values are the same.
    pub fn equals(&self, other: &Json) -> (r: bool)
        ensures
            r == self@.equals(other@),
        decreases self,
    {
        match (self, other) {
            (Json::Null, Json::Null) => true,
            (Json::Bool(a), Json::Bool(b)) => *a == *b,
            (Json::Whole(a), Json::Whole(b)) => *a == *b,
            (Json::Real { text: a, .. }, Json::Real { text: b, .. }) => same(
                a.as_str(),
                b.as_str(),
            ),
            (Json::Text(a), Json::Text(b)) => same(a.as_str(), b.as_str()),
            (Json::Array(a), Json::Array(b)) => {
                proof {
                    lemma_array(*a);
                    lemma_array(*b);
                }
                if a.len() != b.len() {
                    return false;
                }
                let ghost x = items_of(a@);
                let ghost y = items_of(b@);
                let mut i: usize = 0;
                while i < a.len()
                    invariant
                        i <= a@.len() == b@.len(),
                        *self == Json::Array(*a),
                        *other == Json::Array(*b),
                        self@ == Tree::Array(x),
                        other@ == Tree::Array(y),
                        x == items_of(a@),
                        y == items_of(b@),
                        forall|j: int| 0 <= j < i ==> (#[trigger] x[j]).equals(y[j]),
                    decreases a.len() - i,
                {
                    assert(decreases_to!(*self => self->Array_0));
                    assert(decreases_to!(a@ => a@[i as int]));
                    if !a[i].equals(&b[i]) {
                        assert(!x[i as int].equals(y[i as int]));
                        return false;
                    }
                    i = i + 1;
                }
                true
            },
            (Json::Object(a), Json::Object(b)) => {
                proof {
                    lemma_object(*a);
                    lemma_object(*b);
                }
                let ghost x = fields_of(a@);
                let ghost y = fields_of(b@);
                let mut i: usize = 0;
                while i < a.len()
                    invariant
                        i <= a@.len(),
                        *self == Json::Object(*a),
                        self@ == Tree::Object(x),
                        other@ == Tree::Object(y),
                        x == fields_of(a@),
                        y == fields_of(b@),
                        forall|j: int|
                            0 <= j < i ==> match lookup(y, (#[trigger] x[j]).0) {
                                Some(value) => x[j].1.equals(value),
                                None => false,
                            },
                    decreases a.len() - i,
                {
                    assert(decreases_to!(*self => self->Object_0));
                    assert(decreases_to!(a@ => a@[i as int]));
                    assert(decreases_to!(a@[i as int] => a@[i as int].1));
                    match find_field(b, a[i].0.as_str()) {
                        Some(at) => {
                            if !a[i].1.equals(&b[at].1) {
                                assert(lookup(y, x[i as int].0) == Some(y[at as int].1));
                                return false;
                            }
                        },
                        None => {
                            assert(lookup(y, x[i as int].0) is None);
                            return false;
                        },
                    }
                    i = i + 1;
                }
                let mut k: usize = 0;
                while k < b.len()
                    invariant
                        k <= b@.len(),
                        self@ == Tree::Object(x),
                        other@ == Tree::Object(y),
                        x == fields_of(a@),
                        y == fields_of(b@),
                        forall|j: int| 0 <= j < k ==> lookup(x, (#[trigger] y[j]).0) is Some,
                    decreases b.len() - k,
                {
                    if find_field(a, b[k].0.as_str()).is_none() {
                        assert(lookup(x, y[k as int].0) is None);
                        return false;
                    }
                    k = k + 1;
                }
                true
            },
            _ => false,
        }
    }
}

/// Whether two optional values are the same.
pub fn same_values(a: Option<&Json>, b: Option<&Json>) -> (r: bool)
    ensures
        r == same_value(
            match a {
                Some(x) => Some(x@),
                None => None,
            },
            match b {
                Some(y) => Some(y@),
                None => None,
            },
        ),
{
    match (a, b) {
        (Some(x), Some(y)) => x.equals(y),
        (None, None) => true,
        _ => false,
    }
}

// ---------------------------------------------------------------- merging

/// A document laid over another: objects field by field, anything else in place of what
/// was there.
pub open spec fn merged(under: Tree, over: Tree) -> Tree
    decreases over,
{
    match over {
        Tree::Object(fields) => if under is Object {
            merged_fields(under, fields)
        } else {
            over
        },
        _ => over,
    }
}

/// Fields laid over an object, in order.
pub open spec fn merged_fields(under: Tree, fields: Rows<Tree>) -> Tree
    decreases fields,
{
    if fields.len() == 0 {
        under
    } else {
        let last = fields[fields.len() - 1];
        let before = merged_fields(under, fields.subrange(0, fields.len() - 1));
        before.with(
            last.0,
            match before.field(last.0) {
                Some(value) => merged(value, last.1),
                None => last.1,
            },
        )
    }
}

impl Json {
    /// The document with another one laid over it.
    pub fn merge(&self, over: &Json) -> (r: Json)
        ensures
            r@ == merged(self@, over@),
        decreases over,
    {
        let fields = match over {
            Json::Object(fields) => fields,
            _ => {
                return over.copy();
            },
        };
        if !self.is_object() {
            return over.copy();
        }
        let mut out = self.copy();
        let ghost rows = fields_of(fields@);
        proof {
            lemma_object(*fields);
            assert(rows.subrange(0, 0) =~= Seq::empty());
        }
        let mut i: usize = 0;
        while i < fields.len()
            invariant
                i <= fields@.len(),
                *over == Json::Object(*fields),
                rows == fields_of(fields@),
                out@ == merged_fields(self@, rows.subrange(0, i as int)),
            decreases fields.len() - i,
        {
            let ghost upto = rows.subrange(0, i + 1);
            assert(upto.subrange(0, upto.len() - 1) =~= rows.subrange(0, i as int));
            assert(upto[upto.len() - 1] == rows[i as int]);
            assert(decreases_to!(*over => over->Object_0));
            assert(decreases_to!(fields@ => fields@[i as int]));
            assert(decreases_to!(fields@[i as int] => fields@[i as int].1));
            let key = fields[i].0.as_str();
            let value: Json = match out.field(key) {
                Some(value) => value.merge(&fields[i].1),
                None => fields[i].1.copy(),
            };
            out = out.with(key, value);
            i = i + 1;
        }
        assert(rows.subrange(0, rows.len() as int) =~= rows);
        out
    }
}

proof fn lemma_merged_apart(under: Tree, fields: Rows<Tree>, key: Seq<char>)
    requires
        lookup(fields, key) is None,
    ensures
        merged_fields(under, fields).field(key) == under.field(key),
    decreases fields.len(),
{
    if fields.len() > 0 {
        let front = fields.subrange(0, fields.len() - 1);
        let last = fields[fields.len() - 1];
        assert(fields =~= front.push(last));
        lemma_lookup_push(front, last, key);
        lemma_merged_apart(under, front, key);
        let before = merged_fields(under, front);
        law_lookup_after_store(
            before.fields(),
            last.0,
            match before.field(last.0) {
                Some(value) => merged(value, last.1),
                None => last.1,
            },
            key,
        );
    }
}

/// A document that is laid over another leaves the fields that it does not have.
pub proof fn law_merging_keeps_other_fields(under: Tree, over: Tree, key: Seq<char>)
    requires
        under is Object,
        over is Object,
        over.field(key) is None,
    ensures
        merged(under, over).field(key) == under.field(key),
{
    lemma_merged_apart(under, over.fields(), key);
}

proof fn lemma_merged_text(under: Tree, fields: Rows<Tree>, key: Seq<char>)
    requires
        distinct(fields),
        lookup(fields, key) is Some,
        lookup(fields, key)->0 is Text,
    ensures
        merged_fields(under, fields).field(key) == lookup(fields, key),
    decreases fields.len(),
{
    if fields.len() > 0 {
        let front = fields.subrange(0, fields.len() - 1);
        let last = fields[fields.len() - 1];
        assert(fields =~= front.push(last));
        assert(distinct(front)) by {
            assert forall|a: int, b: int| 0 <= a < b < front.len() implies (#[trigger] front[a]).0
                != (#[trigger] front[b]).0 by {
                assert(fields[a].0 != fields[b].0);
            }
        }
        lemma_lookup_push(front, last, key);
        let before = merged_fields(under, front);
        law_lookup_after_store(
            before.fields(),
            last.0,
            match before.field(last.0) {
                Some(value) => merged(value, last.1),
                None => last.1,
            },
            key,
        );
        if last.0 == key {
            lemma_lookup_row(fields, fields.len() - 1);
        } else {
            lemma_merged_text(under, front, key);
        }
    }
}

/// The texts of a document that is laid over another are those of the result.
pub proof fn law_merged_texts_are_the_upper_ones(under: Tree, over: Tree, key: Seq<char>)
    requires
        over is Object,
        distinct(over.fields()),
        over.text(key) is Some,
    ensures
        merged(under, over).text(key) == over.text(key),
{
    if under is Object {
        lemma_merged_text(under, over.fields(), key);
    }
}

} // verus!
