//! What cutting, splitting, joining and trimming do to texts.
use vstd::prelude::*;

use crate::text::{
    cut, first_from, has_prefix, has_suffix, holds_text, is_space, joined, lemma_first_from,
    nonempty, occurs_at, pieces, trim_end_of, trim_start_of, trimmed, words_of, words_so_far,
};

verus! {

// ---------------------------------------------------------------- prefixes and suffixes

/// A text begins with a prefix exactly where it is the prefix and a rest, and ends with a suffix
/// exactly where it is a rest and the suffix.
pub proof fn law_prefixes_and_suffixes_stand_at_the_ends(s: Seq<char>, part: Seq<char>)
    ensures
        has_prefix(s, part) == (part.len() <= s.len() && s == part + s.subrange(
            part.len() as int,
            s.len() as int,
        )),
        has_suffix(s, part) == (part.len() <= s.len() && s == s.subrange(
            0,
            s.len() - part.len(),
        ) + part),
{
    if has_prefix(s, part) {
        assert(s =~= part + s.subrange(part.len() as int, s.len() as int));
    }
    if part.len() <= s.len() && s == part + s.subrange(part.len() as int, s.len() as int) {
        let rest = s.subrange(part.len() as int, s.len() as int);
        assert((part + rest).subrange(0, part.len() as int) =~= part);
    }
    if has_suffix(s, part) {
        assert(s =~= s.subrange(0, s.len() - part.len()) + part);
    }
    if part.len() <= s.len() && s == s.subrange(0, s.len() - part.len()) + part {
        let head = s.subrange(0, s.len() - part.len());
        assert((head + part).subrange(head.len() as int, s.len() as int) =~= part);
    }
}

// ---------------------------------------------------------------- cutting and splitting

/// Cutting a text at a separator gives what stands before its first occurrence and what stands
/// behind it; a text without the separator is not cut.
pub proof fn law_cutting_takes_the_first_separator(s: Seq<char>, separator: Seq<char>)
    ensures
        match cut(s, separator) {
            Some((before, behind)) => s == before + separator + behind && forall|i: int|
                0 <= i < before.len() ==> !(#[trigger] occurs_at(s, separator, i)),
            None => forall|i: int| !(#[trigger] occurs_at(s, separator, i)),
        },
        (cut(s, separator) is Some) == holds_text(s, separator),
{
    lemma_first_from(s, separator, 0);
    match first_from(s, separator, 0) {
        Some(i) => {
            let behind = s.subrange(i + separator.len(), s.len() as int);
            assert(s =~= s.subrange(0, i) + separator + behind);
        },
        None => {},
    }
}

proof fn lemma_joined_head(head: Seq<char>, rest: Seq<Seq<char>>, separator: Seq<char>)
    requires
        rest.len() > 0,
    ensures
        joined(seq![head] + rest, separator) == head + separator + joined(rest, separator),
    decreases rest.len(),
{
    let all = seq![head] + rest;
    assert(all.drop_last() =~= seq![head] + rest.drop_last());
    assert(all.last() == rest.last());
    if rest.len() == 1 {
        assert(rest.drop_last() =~= Seq::empty());
        assert(seq![head] + rest.drop_last() =~= seq![head]);
        assert(joined(seq![head], separator) == head);
        assert(joined(rest, separator) == rest[0]);
    } else {
        lemma_joined_head(head, rest.drop_last(), separator);
        assert(joined(all, separator) =~= head + separator + joined(rest, separator));
    }
}

/// Joining the pieces of a text with the separator that split it gives the text back.
pub proof fn law_joining_undoes_splitting(s: Seq<char>, separator: Seq<char>)
    ensures
        joined(pieces(s, separator), separator) == s,
        pieces(s, separator).len() > 0,
    decreases s.len(),
{
    if separator.len() > 0 {
        lemma_first_from(s, separator, 0);
        match first_from(s, separator, 0) {
            Some(i) => {
                let rest = s.subrange(i + separator.len(), s.len() as int);
                law_joining_undoes_splitting(rest, separator);
                lemma_joined_head(s.subrange(0, i), pieces(rest, separator), separator);
                assert(s =~= s.subrange(0, i) + separator + rest);
            },
            None => {},
        }
    }
}

/// No piece of a split text holds the separator.
pub proof fn law_no_piece_holds_the_separator(s: Seq<char>, separator: Seq<char>, k: int)
    requires
        separator.len() > 0,
        0 <= k < pieces(s, separator).len(),
    ensures
        !holds_text(pieces(s, separator)[k], separator),
    decreases s.len(),
{
    lemma_first_from(s, separator, 0);
    match first_from(s, separator, 0) {
        Some(i) => {
            let head = s.subrange(0, i);
            let rest = s.subrange(i + separator.len(), s.len() as int);
            if k == 0 {
                lemma_first_from(head, separator, 0);
                if let Some(j) = first_from(head, separator, 0) {
                    assert(head.subrange(j, j + separator.len()) =~= s.subrange(
                        j,
                        j + separator.len(),
                    ));
                    assert(occurs_at(s, separator, j));
                }
            } else {
                law_no_piece_holds_the_separator(rest, separator, k - 1);
                assert(pieces(s, separator)[k] == pieces(rest, separator)[k - 1]);
            }
        },
        None => {},
    }
}

/// Dropping the empty texts of a list keeps exactly the others.
pub proof fn law_the_empty_texts_are_dropped(list: Seq<Seq<char>>, text: Seq<char>)
    ensures
        nonempty(list).contains(text) == (list.contains(text) && text.len() > 0),
        nonempty(list).len() <= list.len(),
    decreases list.len(),
{
    if list.len() > 0 {
        let front = list.drop_last();
        law_the_empty_texts_are_dropped(front, text);
        assert(list =~= front.push(list.last()));
        if front.contains(text) {
            let i = choose|i: int| 0 <= i < front.len() && front[i] == text;
            assert(list[i] == text);
        }
        if list.contains(text) && list.last() != text {
            let i = choose|i: int| 0 <= i < list.len() && list[i] == text;
            assert(front[i] == text);
        }
        if list.last() == text {
            assert(list[list.len() - 1] == text);
        }
        let kept = nonempty(front);
        let all = nonempty(list);
        if list.last().len() > 0 {
            assert(all[kept.len() as int] == list.last());
            if kept.contains(text) {
                let i = choose|i: int| 0 <= i < kept.len() && kept[i] == text;
                assert(all[i] == text);
            }
            if all.contains(text) && text != list.last() {
                let i = choose|i: int| 0 <= i < all.len() && all[i] == text;
                assert(kept[i] == text);
            }
        }
    }
}

// ---------------------------------------------------------------- white space

proof fn lemma_trim_start(s: Seq<char>)
    ensures
        ({
            let r = trim_start_of(s);
            let n = s.len() - r.len();
            &&& 0 <= n
            &&& r == s.subrange(n, s.len() as int)
            &&& forall|i: int| 0 <= i < n ==> is_space(#[trigger] s[i])
            &&& r.len() > 0 ==> !is_space(r[0])
        }),
    decreases s.len(),
{
    if s.len() > 0 && is_space(s[0]) {
        let rest = s.subrange(1, s.len() as int);
        lemma_trim_start(rest);
        let r = trim_start_of(s);
        let n = s.len() - r.len();
        assert(r =~= s.subrange(n, s.len() as int));
        assert forall|i: int| 0 <= i < n implies is_space(#[trigger] s[i]) by {
            if i > 0 {
                assert(rest[i - 1] == s[i]);
            }
        }
    } else {
        assert(s.subrange(0, s.len() as int) =~= s);
    }
}

proof fn lemma_trim_end(s: Seq<char>)
    ensures
        ({
            let r = trim_end_of(s);
            &&& r.len() <= s.len()
            &&& r == s.subrange(0, r.len() as int)
            &&& forall|i: int| r.len() <= i < s.len() ==> is_space(#[trigger] s[i])
            &&& r.len() > 0 ==> !is_space(r.last())
        }),
    decreases s.len(),
{
    if s.len() > 0 && is_space(s.last()) {
        let front = s.drop_last();
        lemma_trim_end(front);
        let r = trim_end_of(s);
        assert(r =~= s.subrange(0, r.len() as int));
        assert forall|i: int| r.len() <= i < s.len() implies is_space(#[trigger] s[i]) by {
            if i < front.len() {
                assert(front[i] == s[i]);
            }
        }
    } else {
        assert(s.subrange(0, s.len() as int) =~= s);
    }
}

/// A trimmed text is the part of a text from its first to its last character that is no white
/// space.
pub proof fn law_trimming_takes_the_white_space_at_the_ends(s: Seq<char>)
    ensures
        exists|a: int, b: int|
            0 <= a <= b <= s.len() && trimmed(s) == #[trigger] s.subrange(a, b) && (forall|i: int|
                0 <= i < a ==> is_space(#[trigger] s[i])) && forall|i: int|
                b <= i < s.len() ==> is_space(#[trigger] s[i]),
        trimmed(s).len() > 0 ==> !is_space(trimmed(s)[0]) && !is_space(trimmed(s).last()),
{
    let r = trim_start_of(s);
    lemma_trim_start(s);
    lemma_trim_end(r);
    let t = trimmed(s);
    let a = s.len() - r.len();
    let b = a + t.len();
    assert(t =~= s.subrange(a, b));
    assert forall|i: int| b <= i < s.len() implies is_space(#[trigger] s[i]) by {
        assert(r[i - a] == s[i]);
    }
}

/// Whether a text holds no white space.
pub open spec fn is_solid(s: Seq<char>) -> bool {
    forall|j: int| 0 <= j < s.len() ==> !is_space(#[trigger] s[j])
}

proof fn lemma_words(s: Seq<char>)
    ensures
        ({
            let (done, word) = words_so_far(s);
            &&& forall|i: int| 0 <= i < done.len() ==> (#[trigger] done[i]).len() > 0 && is_solid(
                done[i],
            )
            &&& is_solid(word)
        }),
    decreases s.len(),
{
    if s.len() > 0 {
        lemma_words(s.drop_last());
        let (before, start) = words_so_far(s.drop_last());
        let (done, word) = words_so_far(s);
        assert forall|i: int| 0 <= i < done.len() implies (#[trigger] done[i]).len() > 0
            && is_solid(done[i]) by {
            if i < before.len() {
                assert(done[i] == before[i]);
            } else {
                assert(done[i] == start);
            }
        }
    }
}

/// No word of a text is empty or holds white space.
pub proof fn law_words_hold_no_white_space(s: Seq<char>, i: int)
    requires
        0 <= i < words_of(s).len(),
    ensures
        words_of(s)[i].len() > 0,
        is_solid(words_of(s)[i]),
{
    lemma_words(s);
    let (done, word) = words_so_far(s);
    if i < done.len() {
        assert(words_of(s)[i] == done[i]);
    } else {
        assert(words_of(s)[i] == word);
    }
}

} // verus!
