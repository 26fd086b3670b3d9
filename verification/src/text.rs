//! Text primitives: comparison, trimming, searching, splitting, and decimal numerals.
use vstd::prelude::*;
use vstd::string::StrSliceExecFns;
use vstd::string::StringExecFns;

verus! {

broadcast use vstd::string::group_string_axioms;

// ---------------------------------------------------------------- characters

/// Whether `c` has the Unicode `White_Space` property.
pub open spec fn is_space(c: char) -> bool {
    let u = c as u32;
    ||| 0x9 <= u <= 0xd
    ||| u == 0x20
    ||| u == 0x85
    ||| u == 0xa0
    ||| u == 0x1680
    ||| 0x2000 <= u <= 0x200a
    ||| u == 0x2028
    ||| u == 0x2029
    ||| u == 0x202f
    ||| u == 0x205f
    ||| u == 0x3000
}

/// Whether `c` is in the Unicode general category `Cc`.
pub open spec fn is_control(c: char) -> bool {
    let u = c as u32;
    u <= 0x1f || 0x7f <= u <= 0x9f
}

fn space(c: char) -> (r: bool)
    ensures
        r == is_space(c),
{
    let u: u32 = c as u32;
    (0x9 <= u && u <= 0xd) || u == 0x20 || u == 0x85 || u == 0xa0 || u == 0x1680 || (0x2000 <= u && u
        <= 0x200a) || u == 0x2028 || u == 0x2029 || u == 0x202f || u == 0x205f || u == 0x3000
}

// ---------------------------------------------------------------- comparison

/// Compare two texts.
pub fn same(a: &str, b: &str) -> (r: bool)
    ensures
        r == (a@ == b@),
{
    let x = a.as_bytes();
    let y = b.as_bytes();
    if x.len() != y.len() {
        return false;
    }
    let mut i: usize = 0;
    while i < x.len()
        invariant
            i <= x.len(),
            x@.len() == y@.len(),
            x@ == vstd::utf8::encode_utf8(a@),
            y@ == vstd::utf8::encode_utf8(b@),
            forall|j: int| 0 <= j < i ==> x@[j] == y@[j],
        decreases x.len() - i,
    {
        if x[i] != y[i] {
            return false;
        }
        i = i + 1;
    }
    proof {
        assert(x@ =~= y@);
        vstd::utf8::encode_utf8_decode_utf8(a@);
        vstd::utf8::encode_utf8_decode_utf8(b@);
    }
    true
}

/// Whether some text of `list` is `wanted`.
pub open spec fn listed(list: Seq<Seq<char>>, wanted: Seq<char>) -> bool {
    exists|i: int| 0 <= i < list.len() && #[trigger] list[i] == wanted
}

/// The texts of a list of strings.
pub open spec fn texts(list: Seq<String>) -> Seq<Seq<char>> {
    list.map_values(|s: String| s@)
}

/// Whether `list` holds `wanted`.
pub fn contains_text(list: &Vec<String>, wanted: &str) -> (r: bool)
    ensures
        r == listed(texts(list@), wanted@),
{
    let mut i: usize = 0;
    while i < list.len()
        invariant
            i <= list.len(),
            forall|j: int| 0 <= j < i ==> #[trigger] texts(list@)[j] != wanted@,
        decreases list.len() - i,
    {
        assert(texts(list@)[i as int] == list@[i as int]@);
        if same(list[i].as_str(), wanted) {
            return true;
        }
        i = i + 1;
    }
    false
}

/// A copy of a list of strings.
pub fn copy_texts(list: &Vec<String>) -> (r: Vec<String>)
    ensures
        texts(r@) == texts(list@),
        r@.len() == list@.len(),
{
    let mut out: Vec<String> = Vec::new();
    let mut i: usize = 0;
    while i < list.len()
        invariant
            i <= list.len(),
            out@.len() == i,
            forall|j: int| 0 <= j < i ==> out@[j] == list@[j],
        decreases list.len() - i,
    {
        out.push(list[i].clone());
        i = i + 1;
    }
    assert(texts(out@) =~= texts(list@));
    out
}

// ---------------------------------------------------------------- building

/// The characters of `s`.
pub fn chars_of(s: &str) -> (r: Vec<char>)
    ensures
        r@ == s@,
{
    let mut out: Vec<char> = Vec::new();
    for c in it: s.chars()
        invariant
            out@.len() == it.index(),
            it.seq() == s@,
            forall|j: int| 0 <= j < out@.len() ==> out@[j] == s@[j],
    {
        out.push(c);
    }
    out
}

/// `a` followed by `b`.
pub fn join2(a: &str, b: &str) -> (r: String)
    ensures
        r@ == a@ + b@,
{
    let mut out = a.to_owned();
    out.append(b);
    out
}

/// `a`, `b` and `c` one after another.
pub fn join3(a: &str, b: &str, c: &str) -> (r: String)
    ensures
        r@ == a@ + b@ + c@,
{
    let mut out = a.to_owned();
    out.append(b);
    out.append(c);
    out
}

/// `a`, `b`, `c` and `d` one after another.
pub fn join4(a: &str, b: &str, c: &str, d: &str) -> (r: String)
    ensures
        r@ == a@ + b@ + c@ + d@,
{
    let mut out = a.to_owned();
    out.append(b);
    out.append(c);
    out.append(d);
    out
}

/// The parts with `separator` between each two neighbours.
pub open spec fn joined(parts: Seq<Seq<char>>, separator: Seq<char>) -> Seq<char>
    decreases parts.len(),
{
    if parts.len() == 0 {
        Seq::empty()
    } else if parts.len() == 1 {
        parts[0]
    } else {
        joined(parts.drop_last(), separator) + separator + parts.last()
    }
}

/// Join `parts[from..to]` with `separator`.
pub fn join_range(parts: &Vec<String>, from: usize, to: usize, separator: &str) -> (r: String)
    requires
        from <= to <= parts.len(),
    ensures
        r@ == joined(texts(parts@).subrange(from as int, to as int), separator@),
{
    let mut out = String::new();
    let mut i: usize = from;
    while i < to
        invariant
            from <= i <= to <= parts.len(),
            out@ == joined(texts(parts@).subrange(from as int, i as int), separator@),
        decreases to - i,
    {
        let ghost before = texts(parts@).subrange(from as int, i as int);
        let ghost after = texts(parts@).subrange(from as int, i + 1);
        assert(after.drop_last() =~= before);
        assert(after.last() == parts@[i as int]@);
        if i > from {
            out.append(separator);
        } else {
            assert(Seq::<char>::empty() + after.last() =~= after[0]);
        }
        out.append(parts[i].as_str());
        i = i + 1;
    }
    out
}

// ---------------------------------------------------------------- trimming

/// The text without its leading white space.
pub open spec fn trim_start_of(s: Seq<char>) -> Seq<char>
    decreases s.len(),
{
    if s.len() > 0 && is_space(s[0]) {
        trim_start_of(s.subrange(1, s.len() as int))
    } else {
        s
    }
}

/// The text without its trailing white space.
pub open spec fn trim_end_of(s: Seq<char>) -> Seq<char>
    decreases s.len(),
{
    if s.len() > 0 && is_space(s.last()) {
        trim_end_of(s.drop_last())
    } else {
        s
    }
}

/// The text without leading and trailing white space.
pub open spec fn trimmed(s: Seq<char>) -> Seq<char> {
    trim_end_of(trim_start_of(s))
}

proof fn lemma_trim_empty_start(s: Seq<char>)
    requires
        forall|i: int| 0 <= i < s.len() ==> is_space(s[i]),
    ensures
        trim_start_of(s).len() == 0,
    decreases s.len(),
{
    if s.len() > 0 {
        lemma_trim_empty_start(s.subrange(1, s.len() as int));
    }
}

proof fn lemma_trim_end(s: Seq<char>)
    ensures
        trim_end_of(s).len() <= s.len(),
        trim_end_of(s) == s.subrange(0, trim_end_of(s).len() as int),
        trim_end_of(s).len() > 0 ==> !is_space(trim_end_of(s).last()),
        s.len() > 0 && !is_space(s[0]) ==> trim_end_of(s).len() > 0,
    decreases s.len(),
{
    if s.len() > 0 && is_space(s.last()) {
        lemma_trim_end(s.drop_last());
        assert(s.drop_last().subrange(0, trim_end_of(s).len() as int) =~= s.subrange(
            0,
            trim_end_of(s).len() as int,
        ));
        if !is_space(s[0]) {
            assert(s.len() > 1);
            assert(s.drop_last()[0] == s[0]);
        }
    } else {
        assert(s.subrange(0, s.len() as int) =~= s);
    }
}

proof fn lemma_trim_start(s: Seq<char>)
    ensures
        trim_start_of(s).len() > 0 ==> !is_space(trim_start_of(s)[0]),
    decreases s.len(),
{
    if s.len() > 0 && is_space(s[0]) {
        lemma_trim_start(s.subrange(1, s.len() as int));
    }
}

/// A trimmed text has nothing left to trim.
pub proof fn law_trimming_twice_is_trimming_once(s: Seq<char>)
    ensures
        trimmed(trimmed(s)) == trimmed(s),
{
    let head = trim_start_of(s);
    lemma_trim_start(s);
    lemma_trim_end(head);
    let whole = trimmed(s);
    if whole.len() > 0 {
        assert(whole[0] == head[0]);
        assert(trim_start_of(whole) == whole);
        assert(trim_end_of(whole) == whole);
    }
}

/// `s` without leading and trailing white space.
pub fn trim(s: &str) -> (r: &str)
    ensures
        r@ == trimmed(s@),
{
    let cs = chars_of(s);
    let n: usize = cs.len();
    let mut i: usize = 0;
    assert(s@.subrange(0, n as int) =~= s@);
    while i < n && space(cs[i])
        invariant
            i <= n == cs@.len(),
            cs@ == s@,
            trim_start_of(s@) == trim_start_of(s@.subrange(i as int, n as int)),
        decreases n - i,
    {
        assert(s@.subrange(i as int, n as int).subrange(1, n - i) =~= s@.subrange(i + 1, n as int));
        i = i + 1;
    }
    let ghost head = s@.subrange(i as int, n as int);
    assert(trim_start_of(s@) == head);
    let mut j: usize = n;
    while j > i && space(cs[j - 1])
        invariant
            i <= j <= n == cs@.len(),
            cs@ == s@,
            head == s@.subrange(i as int, n as int),
            trim_end_of(head) == trim_end_of(s@.subrange(i as int, j as int)),
        decreases j,
    {
        assert(s@.subrange(i as int, j as int).drop_last() =~= s@.subrange(i as int, j - 1));
        j = j - 1;
    }
    s.substring_char(i, j)
}

/// Whether `s` is empty once trimmed.
pub fn blank(s: &str) -> (r: bool)
    ensures
        r == (trimmed(s@).len() == 0),
{
    trim(s).is_empty()
}

/// Whether some character of `s` is a control character.
pub fn has_control(s: &str) -> (r: bool)
    ensures
        r == (exists|i: int| 0 <= i < s@.len() && is_control(#[trigger] s@[i])),
{
    let cs = chars_of(s);
    let mut i: usize = 0;
    while i < cs.len()
        invariant
            i <= cs.len(),
            cs@ == s@,
            forall|j: int| 0 <= j < i ==> !is_control(#[trigger] s@[j]),
        decreases cs.len() - i,
    {
        let u: u32 = cs[i] as u32;
        if u <= 0x1f || (0x7f <= u && u <= 0x9f) {
            assert(is_control(s@[i as int]));
            return true;
        }
        i = i + 1;
    }
    false
}

// ---------------------------------------------------------------- searching

/// Whether `needle` stands in `s` at position `i`.
pub open spec fn occurs_at(s: Seq<char>, needle: Seq<char>, i: int) -> bool {
    0 <= i && i + needle.len() <= s.len() && s.subrange(i, i + needle.len()) == needle
}

/// Whether `s` starts with `prefix`.
pub open spec fn has_prefix(s: Seq<char>, prefix: Seq<char>) -> bool {
    occurs_at(s, prefix, 0)
}

/// Whether `s` ends with `suffix`.
pub open spec fn has_suffix(s: Seq<char>, suffix: Seq<char>) -> bool {
    occurs_at(s, suffix, s.len() - suffix.len())
}

/// The first position from `from` on at which `needle` stands in `s`.
pub open spec fn first_from(s: Seq<char>, needle: Seq<char>, from: int) -> Option<int>
    decreases s.len() - from + 1,
{
    if from < 0 || from + needle.len() > s.len() {
        None
    } else if occurs_at(s, needle, from) {
        Some(from)
    } else {
        first_from(s, needle, from + 1)
    }
}

/// `s` cut at the first `separator`: what stands before it and what stands after it.
pub open spec fn cut(s: Seq<char>, separator: Seq<char>) -> Option<(Seq<char>, Seq<char>)> {
    match first_from(s, separator, 0) {
        Some(i) => Some((s.subrange(0, i), s.subrange(i + separator.len(), s.len() as int))),
        None => None,
    }
}

fn stands_at(s: &Vec<char>, needle: &Vec<char>, at: usize) -> (r: bool)
    requires
        at + needle@.len() <= s@.len(),
    ensures
        r == occurs_at(s@, needle@, at as int),
{
    let n: usize = s.len();
    let mut k: usize = 0;
    while k < needle.len()
        invariant
            k <= needle@.len(),
            at + needle@.len() <= s@.len() == n,
            forall|j: int| 0 <= j < k ==> s@[at + j] == needle@[j],
        decreases needle.len() - k,
    {
        if s[at + k] != needle[k] {
            assert(s@.subrange(at as int, at + needle@.len())[k as int] == s@[at + k]);
            return false;
        }
        k = k + 1;
    }
    assert(s@.subrange(at as int, at + needle@.len()) =~= needle@);
    true
}

fn find(s: &Vec<char>, needle: &Vec<char>, from: usize) -> (r: Option<usize>)
    ensures
        match r {
            Some(i) => first_from(s@, needle@, from as int) == Some(i as int),
            None => first_from(s@, needle@, from as int) is None,
        },
{
    let mut i: usize = from;
    while i <= s.len() && needle.len() <= s.len() - i
        invariant
            from <= i <= usize::MAX,
            i <= s@.len() + 1 || i == from,
            first_from(s@, needle@, from as int) == first_from(s@, needle@, i as int),
        decreases s@.len() + 1 - i,
    {
        if stands_at(s, needle, i) {
            return Some(i);
        }
        if i == s.len() {
            assert(first_from(s@, needle@, i + 1) is None);
            return None;
        }
        i = i + 1;
    }
    None
}

/// `s` cut at the first `separator`.
pub fn split_once<'a>(s: &'a str, separator: &str) -> (r: Option<(&'a str, &'a str)>)
    ensures
        match r {
            Some(p) => cut(s@, separator@) == Some((p.0@, p.1@)),
            None => cut(s@, separator@) is None,
        },
{
    let cs = chars_of(s);
    let sep = chars_of(separator);
    match find(&cs, &sep, 0) {
        Some(i) => {
            proof {
                lemma_first_from(s@, separator@, 0);
            }
            let n: usize = cs.len();
            let head = s.substring_char(0, i);
            let tail = s.substring_char(i + sep.len(), n);
            Some((head, tail))
        },
        None => None,
    }
}

/// A position that [`first_from`] gives is one at which the text stands.
pub proof fn lemma_first_from(s: Seq<char>, needle: Seq<char>, from: int)
    ensures
        first_from(s, needle, from) matches Some(i) ==> {
            &&& from <= i
            &&& occurs_at(s, needle, i)
            &&& forall|j: int| from <= j < i ==> !occurs_at(s, needle, j)
        },
        first_from(s, needle, from) is None ==> forall|j: int|
            0 <= from <= j ==> !occurs_at(s, needle, j),
    decreases s.len() - from + 1,
{
    if from < 0 || from + needle.len() > s.len() {
    } else if occurs_at(s, needle, from) {
    } else {
        lemma_first_from(s, needle, from + 1);
    }
}

/// Whether `needle` stands anywhere in `s`.
pub open spec fn holds_text(s: Seq<char>, needle: Seq<char>) -> bool {
    first_from(s, needle, 0) is Some
}

/// Whether `needle` stands anywhere in `s`.
pub fn contains(s: &str, needle: &str) -> (r: bool)
    ensures
        r == holds_text(s@, needle@),
{
    let cs = chars_of(s);
    let n = chars_of(needle);
    find(&cs, &n, 0).is_some()
}

/// `s` without the leading `prefix`.
pub fn strip_prefix<'a>(s: &'a str, prefix: &str) -> (r: Option<&'a str>)
    ensures
        match r {
            Some(rest) => has_prefix(s@, prefix@) && rest@ == s@.subrange(
                prefix@.len() as int,
                s@.len() as int,
            ),
            None => !has_prefix(s@, prefix@),
        },
{
    let cs = chars_of(s);
    let p = chars_of(prefix);
    if p.len() <= cs.len() && stands_at(&cs, &p, 0) {
        Some(s.substring_char(p.len(), cs.len()))
    } else {
        None
    }
}

/// Whether `s` starts with `prefix`.
pub fn starts_with(s: &str, prefix: &str) -> (r: bool)
    ensures
        r == has_prefix(s@, prefix@),
{
    strip_prefix(s, prefix).is_some()
}

/// `s` without the trailing `suffix`.
pub fn strip_suffix<'a>(s: &'a str, suffix: &str) -> (r: Option<&'a str>)
    ensures
        match r {
            Some(rest) => has_suffix(s@, suffix@) && rest@ == s@.subrange(
                0,
                s@.len() - suffix@.len(),
            ),
            None => !has_suffix(s@, suffix@),
        },
{
    let cs = chars_of(s);
    let p = chars_of(suffix);
    if p.len() <= cs.len() && stands_at(&cs, &p, cs.len() - p.len()) {
        Some(s.substring_char(0, cs.len() - p.len()))
    } else {
        None
    }
}

// ---------------------------------------------------------------- splitting

/// The pieces of `s` between the occurrences of a non-empty `separator`.
pub open spec fn pieces(s: Seq<char>, separator: Seq<char>) -> Seq<Seq<char>>
    decreases s.len(),
{
    if separator.len() == 0 {
        seq![s]
    } else {
        match first_from(s, separator, 0) {
            Some(i) if 0 <= i && i + separator.len() <= s.len() => seq![s.subrange(0, i)] + pieces(
                s.subrange(i + separator.len(), s.len() as int),
                separator,
            ),
            _ => seq![s],
        }
    }
}

/// The pieces of `s` between the occurrences of `separator`.
pub fn split(s: &str, separator: &str) -> (r: Vec<String>)
    requires
        separator@.len() > 0,
    ensures
        texts(r@) == pieces(s@, separator@),
{
    let mut out: Vec<String> = Vec::new();
    let mut rest: &str = s;
    assert(texts(out@) + pieces(s@, separator@) =~= pieces(s@, separator@));
    loop
        invariant
            separator@.len() > 0,
            texts(out@) + pieces(rest@, separator@) == pieces(s@, separator@),
        decreases rest@.len(),
    {
        match split_once(rest, separator) {
            Some((head, tail)) => {
                proof {
                    lemma_first_from(rest@, separator@, 0);
                    let before = texts(out@);
                    assert(pieces(rest@, separator@) == seq![head@] + pieces(tail@, separator@));
                    assert((before + seq![head@]) + pieces(tail@, separator@) =~= before + (
                    seq![head@] + pieces(tail@, separator@)));
                }
                let ghost before = out@;
                out.push(head.to_owned());
                assert(texts(out@) =~= texts(before) + seq![head@]);
                rest = tail;
            },
            None => {
                let ghost before = out@;
                out.push(rest.to_owned());
                assert(texts(out@) =~= texts(before) + seq![rest@]);
                return out;
            },
        }
    }
}

/// The non-empty texts of a list, in order.
pub open spec fn nonempty(list: Seq<Seq<char>>) -> Seq<Seq<char>>
    decreases list.len(),
{
    if list.len() == 0 {
        list
    } else if list.last().len() == 0 {
        nonempty(list.drop_last())
    } else {
        nonempty(list.drop_last()).push(list.last())
    }
}

/// The non-empty pieces of `s` between the occurrences of `separator`.
pub fn segments(s: &str, separator: &str) -> (r: Vec<String>)
    requires
        separator@.len() > 0,
    ensures
        texts(r@) == nonempty(pieces(s@, separator@)),
{
    let all = split(s, separator);
    let mut out: Vec<String> = Vec::new();
    let mut i: usize = 0;
    assert(texts(all@).subrange(0, 0) =~= Seq::<Seq<char>>::empty());
    while i < all.len()
        invariant
            i <= all.len(),
            texts(out@) == nonempty(texts(all@).subrange(0, i as int)),
        decreases all.len() - i,
    {
        let ghost upto = texts(all@).subrange(0, i + 1);
        assert(upto.drop_last() =~= texts(all@).subrange(0, i as int));
        assert(upto.last() == all@[i as int]@);
        if !all[i].as_str().is_empty() {
            let ghost before = out@;
            out.push(all[i].clone());
            assert(texts(out@) =~= texts(before).push(all@[i as int]@));
        }
        i = i + 1;
    }
    assert(texts(all@).subrange(0, all@.len() as int) =~= texts(all@));
    out
}

/// The words of a text so far, and the one that it ends in.
pub open spec fn words_so_far(s: Seq<char>) -> (Seq<Seq<char>>, Seq<char>)
    decreases s.len(),
{
    if s.len() == 0 {
        (Seq::empty(), Seq::empty())
    } else {
        let (done, word) = words_so_far(s.drop_last());
        if !is_space(s.last()) {
            (done, word.push(s.last()))
        } else if word.len() > 0 {
            (done.push(word), Seq::empty())
        } else {
            (done, word)
        }
    }
}

/// The words of a text: what stands between white space.
pub open spec fn words_of(s: Seq<char>) -> Seq<Seq<char>> {
    let (done, word) = words_so_far(s);
    if word.len() > 0 {
        done.push(word)
    } else {
        done
    }
}

/// The words of `s`.
pub fn words(s: &str) -> (r: Vec<String>)
    ensures
        texts(r@) == words_of(s@),
{
    let cs = chars_of(s);
    let n: usize = cs.len();
    let mut out: Vec<String> = Vec::new();
    let mut start: usize = 0;
    let mut i: usize = 0;
    assert(s@.subrange(0, 0) =~= Seq::<char>::empty());
    assert(texts(out@) =~= Seq::empty());
    while i < n
        invariant
            start <= i <= n,
            n == s@.len(),
            cs@ == s@,
            words_so_far(s@.subrange(0, i as int)) == (
                texts(out@),
                s@.subrange(start as int, i as int),
            ),
        decreases n - i,
    {
        let ghost upto = s@.subrange(0, i + 1);
        assert(upto.drop_last() =~= s@.subrange(0, i as int));
        assert(upto.last() == s@[i as int]);
        if space(cs[i]) {
            if start < i {
                let ghost before = texts(out@);
                out.push(s.substring_char(start, i).to_owned());
                assert(texts(out@) =~= before.push(s@.subrange(start as int, i as int)));
            }
            start = i + 1;
            assert(s@.subrange(start as int, i + 1) =~= Seq::<char>::empty());
        } else {
            assert(s@.subrange(start as int, i + 1) =~= s@.subrange(start as int, i as int).push(
                s@[i as int],
            ));
        }
        i = i + 1;
    }
    assert(s@.subrange(0, n as int) =~= s@);
    if start < n {
        let ghost before = texts(out@);
        out.push(s.substring_char(start, n).to_owned());
        assert(texts(out@) =~= before.push(s@.subrange(start as int, n as int)));
    }
    out
}

/// The text without the line ends that it ends in.
pub open spec fn unterminated(s: Seq<char>) -> Seq<char>
    decreases s.len(),
{
    if s.len() > 0 && (s.last() == '\r' || s.last() == '\n') {
        unterminated(s.drop_last())
    } else {
        s
    }
}

/// `s` without the line ends that it ends in.
pub fn trim_line_end(s: &str) -> (r: &str)
    ensures
        r@ == unterminated(s@),
{
    let cs = chars_of(s);
    let n: usize = cs.len();
    let mut j: usize = n;
    assert(s@.subrange(0, n as int) =~= s@);
    while j > 0 && (cs[j - 1] == '\r' || cs[j - 1] == '\n')
        invariant
            j <= n == cs@.len(),
            cs@ == s@,
            unterminated(s@) == unterminated(s@.subrange(0, j as int)),
        decreases j,
    {
        assert(s@.subrange(0, j as int).drop_last() =~= s@.subrange(0, j - 1));
        j = j - 1;
    }
    s.substring_char(0, j)
}

/// A text begins with a character exactly where that is its first one.
pub proof fn lemma_prefix_of_one(s: Seq<char>, c: char)
    ensures
        has_prefix(s, seq![c]) == (s.len() > 0 && s[0] == c),
{
    if s.len() > 0 {
        assert(s.subrange(0, 1) =~= seq![s[0]]);
        assert(seq![s[0]][0] == s[0]);
        assert(seq![c][0] == c);
    }
}

/// The named texts of a list.
pub open spec fn pairs(list: Seq<(String, String)>) -> Seq<(Seq<char>, Seq<char>)> {
    list.map_values(|p: (String, String)| (p.0@, p.1@))
}

/// A copy of a list of named texts.
pub fn copy_pairs(list: &Vec<(String, String)>) -> (r: Vec<(String, String)>)
    ensures
        pairs(r@) == pairs(list@),
{
    let mut out: Vec<(String, String)> = Vec::new();
    let mut i: usize = 0;
    while i < list.len()
        invariant
            i <= list@.len(),
            pairs(out@) == pairs(list@).subrange(0, i as int),
        decreases list.len() - i,
    {
        let ghost before = out@;
        out.push((list[i].0.clone(), list[i].1.clone()));
        assert(pairs(out@) =~= pairs(before).push((list@[i as int].0@, list@[i as int].1@)));
        assert(pairs(out@) =~= pairs(list@).subrange(0, i + 1));
        i = i + 1;
    }
    assert(pairs(list@).subrange(0, list@.len() as int) =~= pairs(list@));
    out
}

} // verus!
