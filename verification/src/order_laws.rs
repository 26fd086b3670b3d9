//! That written times sort by time, and what laying documents over each other gives.
use vstd::prelude::*;

use crate::decimal::{
    all_digits, digit_value, digits, is_digit, lemma_digits, padded, value_of, zeros,
};
use crate::json::{merged, merged_fields, Tree};
use crate::order::text_le;
use crate::table::{
    distinct, law_lookup_after_store, lemma_lookup_push, lemma_row_from, lookup, row_from, Rows,
};

verus! {

broadcast use law_lookup_after_store;

// ---------------------------------------------------------------- numbers of one length

proof fn lemma_push_keeps_order(a: Seq<char>, b: Seq<char>, x: char, y: char)
    requires
        a.len() == b.len(),
        text_le(a, b),
        a != b || x <= y,
    ensures
        text_le(a.push(x), b.push(y)),
    decreases a.len(),
{
    let p = a.push(x);
    let q = b.push(y);
    reveal_with_fuel(text_le, 2);
    if a.len() == 0 {
        assert(a =~= b);
        assert(p[0] == x && q[0] == y);
        assert(p.subrange(1, p.len() as int) =~= Seq::empty());
    } else {
        assert(p[0] == a[0] && q[0] == b[0]);
        if a[0] == b[0] {
            let s = a.subrange(1, a.len() as int);
            let t = b.subrange(1, b.len() as int);
            if s == t {
                assert(a =~= seq![a[0]] + s);
                assert(b =~= seq![b[0]] + t);
            }
            lemma_push_keeps_order(s, t, x, y);
            assert(p.subrange(1, p.len() as int) =~= s.push(x));
            assert(q.subrange(1, q.len() as int) =~= t.push(y));
        }
    }
}

proof fn lemma_front_digits(a: Seq<char>)
    requires
        a.len() > 0,
        all_digits(a),
    ensures
        all_digits(a.drop_last()),
{
    assert forall|i: int| 0 <= i < a.len() - 1 implies is_digit(#[trigger] a.drop_last()[i]) by {
        assert(is_digit(a[i]));
    }
}

proof fn lemma_last_digit(a: Seq<char>)
    requires
        a.len() > 0,
        all_digits(a),
    ensures
        0 <= digit_value(a.last()) < 10,
        value_of(a) == value_of(a.drop_last()) * 10 + digit_value(a.last()),
        is_digit(a.last()),
{
    assert(is_digit(a[a.len() - 1]));
}

proof fn lemma_order_by_value(a: Seq<char>, b: Seq<char>)
    requires
        a.len() == b.len(),
        all_digits(a),
        all_digits(b),
        value_of(a) <= value_of(b),
    ensures
        text_le(a, b),
    decreases a.len(),
{
    if a.len() > 0 {
        let (x, y) = (a.last(), b.last());
        let (s, t) = (a.drop_last(), b.drop_last());
        lemma_last_digit(a);
        lemma_last_digit(b);
        lemma_front_digits(a);
        lemma_front_digits(b);
        lemma_order_by_value(s, t);
        if s == t {
            assert(x <= y);
        }
        lemma_push_keeps_order(s, t, x, y);
        assert(a =~= s.push(x));
        assert(b =~= t.push(y));
    }
}

/// Ten times itself as often as said.
pub open spec fn power_of_ten(k: nat) -> nat
    decreases k,
{
    if k == 0 {
        1
    } else {
        10 * power_of_ten((k - 1) as nat)
    }
}

proof fn lemma_length(n: nat, k: nat)
    requires
        n < power_of_ten(k),
        k > 0,
    ensures
        digits(n).len() <= k,
    decreases k,
{
    if n >= 10 {
        if k == 1 {
            assert(power_of_ten(1) == 10 * power_of_ten(0));
        } else {
            assert(n / 10 < power_of_ten((k - 1) as nat));
            lemma_length(n / 10, (k - 1) as nat);
        }
    }
}

proof fn lemma_zeros(count: int, body: Seq<char>)
    requires
        all_digits(body),
    ensures
        value_of(zeros(count) + body) == value_of(body),
        all_digits(zeros(count) + body),
    decreases
            body.len(),
            if count > 0 {
                count
            } else {
                0
            },
{
    let whole = zeros(count) + body;
    assert forall|i: int| 0 <= i < whole.len() implies is_digit(#[trigger] whole[i]) by {
        if i < zeros(count).len() {
            assert(whole[i] == '0');
        } else {
            assert(whole[i] == body[i - zeros(count).len()]);
        }
    }
    if body.len() > 0 {
        lemma_front_digits(body);
        lemma_zeros(count, body.drop_last());
        assert(whole.drop_last() =~= zeros(count) + body.drop_last());
        assert(whole.last() == body.last());
    } else if count > 0 {
        assert(zeros(count) + body =~= zeros(count));
        assert(whole.drop_last() =~= zeros(count - 1) + body);
        assert(whole.last() == '0');
        lemma_zeros(count - 1, body);
    } else {
        assert(whole =~= body);
    }
}

proof fn lemma_padded(n: i64)
    requires
        n >= 0,
    ensures
        padded(n as int).len() == 20,
        all_digits(padded(n as int)),
        value_of(padded(n as int)) == n,
{
    reveal_with_fuel(power_of_ten, 20);
    assert(power_of_ten(19) == 10_000_000_000_000_000_000);
    lemma_length(n as nat, 19);
    lemma_digits(n as nat);
    lemma_zeros(20 - digits(n as nat).len(), digits(n as nat));
}

/// Padded times have one length and sort as they follow each other, so that an index by them is
/// one by time.
pub proof fn law_padded_times_sort_by_time(m: i64, n: i64)
    requires
        0 <= m <= n,
    ensures
        padded(m as int).len() == 20,
        padded(n as int).len() == 20,
        text_le(padded(m as int), padded(n as int)),
        m < n ==> padded(m as int) != padded(n as int),
{
    lemma_padded(m);
    lemma_padded(n);
    lemma_order_by_value(padded(m as int), padded(n as int));
}

// ---------------------------------------------------------------- documents

/// Laying a document over another takes each field from the one that has it, and lays the fields
/// that both have over each other; what is no object replaces what was there.
pub proof fn law_documents_are_laid_over_field_by_field(under: Tree, over: Tree, key: Seq<char>)
    requires
        over is Object ==> distinct(over.fields()),
    ensures
        !(over is Object) || !(under is Object) ==> merged(under, over) == over,
        over is Object && under is Object ==> merged(under, over).field(key) == (match (
            under.field(key),
            over.field(key),
        ) {
            (Some(a), Some(b)) => Some(merged(a, b)),
            (None, Some(b)) => Some(b),
            (a, None) => a,
        }),
{
    if over is Object && under is Object {
        lemma_merged_field(under, over.fields(), key);
    }
}

proof fn lemma_merged_field(under: Tree, fields: Rows<Tree>, key: Seq<char>)
    requires
        distinct(fields),
    ensures
        merged_fields(under, fields).field(key) == (match (under.field(key), lookup(fields, key)) {
            (Some(a), Some(b)) => Some(merged(a, b)),
            (None, Some(b)) => Some(b),
            (a, None) => a,
        }),
    decreases fields.len(),
{
    if fields.len() > 0 {
        let front = fields.subrange(0, fields.len() - 1);
        let last = fields[fields.len() - 1];
        assert forall|i: int, j: int| 0 <= i < j < front.len() implies #[trigger] front[i].0
            != #[trigger] front[j].0 by {
            assert(fields[i].0 != fields[j].0);
        }
        assert(fields =~= front.push(last));
        lemma_lookup_push(front, last, key);
        lemma_merged_field(under, front, key);
        lemma_row_from(front, last.0, 0);
        match row_from(front, last.0, 0) {
            Some(i) => {
                assert(fields[i].0 != fields[fields.len() - 1].0);
            },
            None => {},
        }
    }
}

/// Documents are the same where they are the same value, have the same elements in order, or have
/// the same fields in any order.
pub proof fn law_documents_are_compared_part_by_part(
    a: Tree,
    b: Tree,
    i: int,
)
    requires
        a.equals(b),
    ensures
        a is Null == b is Null,
        a is Bool ==> a == b,
        a is Whole ==> a == b,
        a is Text ==> a == b,
        a is Array ==> b is Array && a->Array_0.len() == b->Array_0.len() && (0 <= i
            < a->Array_0.len() ==> a->Array_0[i].equals(b->Array_0[i])),
        a is Object ==> b is Object && (0 <= i < a->Object_0.len() ==> (lookup(
            b->Object_0,
            a->Object_0[i].0,
        ) matches Some(value) && a->Object_0[i].1.equals(value))),
{
    reveal_with_fuel(Tree::equals, 2);
    if a is Array && 0 <= i < a->Array_0.len() {
        assert(a->Array_0[i].equals(b->Array_0[i]));
    }
    if a is Object && 0 <= i < a->Object_0.len() {
        let row = a->Object_0[i];
        assert(row.1.equals(lookup(b->Object_0, row.0)->0));
    }
}

} // verus!
