//! Texts in order: sorting, and sorting without repeats.
use vstd::prelude::*;

use crate::text::{chars_of, texts};

verus! {

broadcast use vstd::string::group_string_axioms;

/// Whether `a` stands before `b` or is the same text. Texts are compared character by
/// character, and a text stands before its own continuations.
pub open spec fn text_le(a: Seq<char>, b: Seq<char>) -> bool
    decreases a.len(),
{
    if a.len() == 0 {
        true
    } else if b.len() == 0 {
        false
    } else if a[0] != b[0] {
        a[0] < b[0]
    } else {
        text_le(a.subrange(1, a.len() as int), b.subrange(1, b.len() as int))
    }
}

/// `text_le` from position `i` on.
proof fn lemma_le_from(a: Seq<char>, b: Seq<char>, i: int)
    requires
        0 <= i <= a.len(),
        i <= b.len(),
        forall|j: int| 0 <= j < i ==> a[j] == b[j],
    ensures
        text_le(a, b) == text_le(a.subrange(i, a.len() as int), b.subrange(i, b.len() as int)),
    decreases i,
{
    if i == 0 {
        assert(a.subrange(0, a.len() as int) =~= a);
        assert(b.subrange(0, b.len() as int) =~= b);
    } else {
        let x = a.subrange(1, a.len() as int);
        let y = b.subrange(1, b.len() as int);
        assert(forall|j: int| 0 <= j < i - 1 ==> x[j] == a[j + 1] && y[j] == b[j + 1]);
        lemma_le_from(x, y, i - 1);
        assert(x.subrange(i - 1, x.len() as int) =~= a.subrange(i, a.len() as int));
        assert(y.subrange(i - 1, y.len() as int) =~= b.subrange(i, b.len() as int));
    }
}

/// Whether `a` stands before `b` or is the same text.
pub fn at_most(a: &str, b: &str) -> (r: bool)
    ensures
        r == text_le(a@, b@),
{
    let x = chars_of(a);
    let y = chars_of(b);
    let mut i: usize = 0;
    while i < x.len() && i < y.len() && x[i] == y[i]
        invariant
            i <= x@.len(),
            i <= y@.len(),
            x@ == a@,
            y@ == b@,
            forall|j: int| 0 <= j < i ==> x@[j] == y@[j],
        decreases x@.len() - i,
    {
        i = i + 1;
    }
    proof {
        lemma_le_from(a@, b@, i as int);
    }
    if i == x.len() {
        true
    } else if i == y.len() {
        false
    } else {
        x[i] < y[i]
    }
}

/// Of two texts one stands before the other.
pub proof fn lemma_le_total(a: Seq<char>, b: Seq<char>)
    ensures
        text_le(a, b) || text_le(b, a),
    decreases a.len(),
{
    if a.len() > 0 && b.len() > 0 && a[0] == b[0] {
        lemma_le_total(a.subrange(1, a.len() as int), b.subrange(1, b.len() as int));
    }
}

/// The order of texts is transitive.
pub proof fn lemma_le_transitive(a: Seq<char>, b: Seq<char>, c: Seq<char>)
    requires
        text_le(a, b),
        text_le(b, c),
    ensures
        text_le(a, c),
    decreases a.len(),
{
    if a.len() > 0 && b.len() > 0 && c.len() > 0 && a[0] == b[0] && b[0] == c[0] {
        lemma_le_transitive(
            a.subrange(1, a.len() as int),
            b.subrange(1, b.len() as int),
            c.subrange(1, c.len() as int),
        );
    }
}

/// Two texts that stand before each other are the same.
pub proof fn lemma_le_antisymmetric(a: Seq<char>, b: Seq<char>)
    requires
        text_le(a, b),
        text_le(b, a),
    ensures
        a == b,
    decreases a.len(),
{
    if a.len() > 0 && b.len() > 0 {
        lemma_le_antisymmetric(a.subrange(1, a.len() as int), b.subrange(1, b.len() as int));
        let x = a.subrange(1, a.len() as int);
        let y = b.subrange(1, b.len() as int);
        assert(a =~= seq![a[0]] + x);
        assert(b =~= seq![b[0]] + y);
    } else {
        assert(a =~= b);
    }
}

/// Whether each text stands before those that follow it.
pub open spec fn is_ascending(list: Seq<Seq<char>>) -> bool {
    forall|i: int, j: int|
        0 <= i < j < list.len() ==> #[trigger] text_le(list[i], list[j])
}

/// Where a text belongs in a list: after everything that stands before it.
pub open spec fn place(list: Seq<Seq<char>>, text: Seq<char>) -> int
    decreases list.len(),
{
    if list.len() == 0 {
        0
    } else if text_le(list.last(), text) {
        list.len() as int
    } else {
        place(list.drop_last(), text)
    }
}

/// The texts of a list in ascending order.
pub open spec fn ascending(list: Seq<Seq<char>>) -> Seq<Seq<char>>
    decreases list.len(),
{
    if list.len() == 0 {
        list
    } else {
        let front = ascending(list.drop_last());
        front.insert(place(front, list.last()), list.last())
    }
}

proof fn lemma_place(list: Seq<Seq<char>>, text: Seq<char>)
    requires
        is_ascending(list),
    ensures
        0 <= place(list, text) <= list.len(),
        forall|i: int| 0 <= i < place(list, text) ==> text_le(#[trigger] list[i], text),
        forall|i: int| place(list, text) <= i < list.len() ==> text_le(text, #[trigger] list[i]),
    decreases list.len(),
{
    if list.len() > 0 {
        let last = list.last();
        if text_le(last, text) {
            assert forall|i: int| 0 <= i < list.len() implies text_le(#[trigger] list[i], text) by {
                if i < list.len() - 1 {
                    assert(text_le(list[i], list[list.len() - 1]));
                    lemma_le_transitive(list[i], last, text);
                }
            }
        } else {
            let front = list.drop_last();
            assert forall|i: int, j: int| 0 <= i < j < front.len() implies #[trigger] text_le(
                front[i],
                front[j],
            ) by {
                assert(text_le(list[i], list[j]));
            }
            lemma_place(front, text);
            lemma_le_total(last, text);
            assert forall|i: int| place(list, text) <= i < list.len() implies text_le(
                text,
                #[trigger] list[i],
            ) by {
                if i < front.len() {
                    assert(front[i] == list[i]);
                }
            }
            assert forall|i: int| 0 <= i < place(list, text) implies text_le(
                #[trigger] list[i],
                text,
            ) by {
                assert(front[i] == list[i]);
            }
        }
    }
}

/// A sorted list is in ascending order and holds the same texts as before, each as often.
pub proof fn law_sorting_orders_and_keeps(list: Seq<Seq<char>>)
    ensures
        is_ascending(ascending(list)),
        ascending(list).to_multiset() == list.to_multiset(),
        ascending(list).len() == list.len(),
    decreases list.len(),
{
    if list.len() > 0 {
        let before = list.drop_last();
        let front = ascending(before);
        let text = list.last();
        law_sorting_orders_and_keeps(before);
        lemma_place(front, text);
        let at = place(front, text);
        let after = front.insert(at, text);
        assert forall|i: int, j: int| 0 <= i < j < after.len() implies #[trigger] text_le(
            after[i],
            after[j],
        ) by {
            let x = if i < at {
                i
            } else {
                i - 1
            };
            let y = if j < at {
                j
            } else {
                j - 1
            };
            if i != at && j != at {
                assert(text_le(front[x], front[y]));
            } else if i == at {
                assert(text_le(text, front[y]));
            } else {
                assert(text_le(front[x], text));
            }
        }
        vstd::seq_lib::to_multiset_insert(front, at, text);
        vstd::seq_lib::to_multiset_build(before, text);
        assert(list =~= before.push(text));
    }
}

/// The texts of a list in ascending order.
pub fn sort_texts(list: &Vec<String>) -> (r: Vec<String>)
    ensures
        texts(r@) == ascending(texts(list@)),
{
    let ghost all = texts(list@);
    let mut out: Vec<String> = Vec::new();
    let mut i: usize = 0;
    assert(all.subrange(0, 0) =~= Seq::empty());
    assert(texts(out@) =~= ascending(all.subrange(0, 0)));
    while i < list.len()
        invariant
            i <= list@.len(),
            all == texts(list@),
            texts(out@) == ascending(all.subrange(0, i as int)),
            out@.len() == i,
        decreases list@.len() - i,
    {
        let ghost upto = all.subrange(0, i + 1);
        let ghost front = texts(out@);
        assert(upto.drop_last() =~= all.subrange(0, i as int));
        assert(upto.last() == list@[i as int]@);
        let mut at: usize = out.len();
        assert(front.subrange(0, front.len() as int) =~= front);
        while at > 0 && !at_most(out[at - 1].as_str(), list[i].as_str())
            invariant
                at <= out@.len(),
                i < list@.len(),
                front == texts(out@),
                place(front, list@[i as int]@) == place(
                    front.subrange(0, at as int),
                    list@[i as int]@,
                ),
            decreases at,
        {
            assert(front.subrange(0, at as int).last() == out@[at - 1]@);
            assert(front.subrange(0, at as int).drop_last() =~= front.subrange(0, at - 1));
            at = at - 1;
        }
        assert(place(front, list@[i as int]@) == at) by {
            if at > 0 {
                assert(front.subrange(0, at as int).last() == out@[at - 1]@);
            }
        }
        let ghost before = out@;
        out.insert(at, list[i].clone());
        assert(texts(out@) =~= front.insert(at as int, list@[i as int]@));
        i = i + 1;
    }
    assert(all.subrange(0, all.len() as int) =~= all);
    out
}

/// A list without the texts that stand right after the same text.
pub open spec fn collapsed(list: Seq<Seq<char>>) -> Seq<Seq<char>>
    decreases list.len(),
{
    if list.len() == 0 {
        list
    } else {
        let front = collapsed(list.drop_last());
        if front.len() > 0 && front.last() == list.last() {
            front
        } else {
            front.push(list.last())
        }
    }
}

/// The texts of a list in ascending order, each once.
pub open spec fn ascending_once(list: Seq<Seq<char>>) -> Seq<Seq<char>> {
    collapsed(ascending(list))
}

/// The texts of a list in ascending order, each once.
pub fn sort_once(list: &Vec<String>) -> (r: Vec<String>)
    ensures
        texts(r@) == ascending_once(texts(list@)),
{
    let sorted = sort_texts(list);
    let ghost all = texts(sorted@);
    let mut out: Vec<String> = Vec::new();
    let mut i: usize = 0;
    assert(all.subrange(0, 0) =~= Seq::empty());
    assert(texts(out@) =~= collapsed(all.subrange(0, 0)));
    while i < sorted.len()
        invariant
            i <= sorted@.len(),
            all == texts(sorted@),
            texts(out@) == collapsed(all.subrange(0, i as int)),
        decreases sorted@.len() - i,
    {
        let ghost upto = all.subrange(0, i + 1);
        let ghost front = texts(out@);
        assert(upto.drop_last() =~= all.subrange(0, i as int));
        assert(upto.last() == sorted@[i as int]@);
        let n: usize = out.len();
        let repeat = n > 0 && crate::text::same(out[n - 1].as_str(), sorted[i].as_str());
        assert(n > 0 ==> front.last() == out@[n - 1]@);
        if !repeat {
            out.push(sorted[i].clone());
            assert(texts(out@) =~= front.push(sorted@[i as int]@));
        }
        i = i + 1;
    }
    assert(all.subrange(0, all.len() as int) =~= all);
    out
}

/// The last `limit` texts in ascending order, the greatest first.
pub open spec fn greatest(list: Seq<Seq<char>>, limit: int) -> Seq<Seq<char>> {
    let sorted = ascending(list).reverse();
    if limit < sorted.len() {
        sorted.subrange(0, limit)
    } else {
        sorted
    }
}

/// The last `limit` texts in ascending order, the greatest first.
pub fn take_greatest(list: &Vec<String>, limit: usize) -> (r: Vec<String>)
    ensures
        texts(r@) == greatest(texts(list@), limit as int),
{
    let sorted = sort_texts(list);
    let n: usize = sorted.len();
    let mut out: Vec<String> = Vec::new();
    let count: usize = if limit < n {
        limit
    } else {
        n
    };
    let mut i: usize = 0;
    while i < count
        invariant
            i <= count <= n == sorted@.len(),
            out@.len() == i,
            forall|j: int| 0 <= j < i ==> (#[trigger] out@[j])@ == sorted@[n - 1 - j]@,
        decreases count - i,
    {
        out.push(sorted[n - 1 - i].clone());
        i = i + 1;
    }
    assert(texts(out@) =~= greatest(texts(list@), limit as int));
    out
}

} // verus!
