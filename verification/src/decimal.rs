//! Decimal numerals: how amounts and times are written and read back.
use vstd::prelude::*;
use vstd::string::StringExecFns;

use crate::text::chars_of;

verus! {

broadcast use vstd::string::group_string_axioms;

/// The character of a decimal digit.
pub open spec fn digit_char(d: int) -> char {
    (0x30 + d) as char
}

/// Whether `c` is a decimal digit.
pub open spec fn is_digit(c: char) -> bool {
    '0' <= c <= '9'
}

/// The value of a decimal digit.
pub open spec fn digit_value(c: char) -> int {
    c as int - 0x30
}

/// The shortest decimal numeral of a natural number.
pub open spec fn digits(n: nat) -> Seq<char>
    decreases n,
{
    if n < 10 {
        seq![digit_char(n as int)]
    } else {
        digits(n / 10).push(digit_char((n % 10) as int))
    }
}

/// The shortest decimal numeral of an integer, with a leading minus sign below zero.
pub open spec fn decimal(n: int) -> Seq<char> {
    if n < 0 {
        seq!['-'] + digits((-n) as nat)
    } else {
        digits(n as nat)
    }
}

/// The number that a run of digits stands for.
pub open spec fn value_of(s: Seq<char>) -> nat
    decreases s.len(),
{
    if s.len() == 0 {
        0
    } else {
        (value_of(s.drop_last()) * 10 + digit_value(s.last())) as nat
    }
}

/// Whether every character is a digit.
pub open spec fn all_digits(s: Seq<char>) -> bool {
    forall|i: int| 0 <= i < s.len() ==> is_digit(#[trigger] s[i])
}

/// The digits of a numeral, without its sign.
pub open spec fn unsigned_part(s: Seq<char>) -> Seq<char> {
    if s.len() > 0 && (s[0] == '-' || s[0] == '+') {
        s.subrange(1, s.len() as int)
    } else {
        s
    }
}

/// The integer that a text spells: an optional sign and at least one digit.
pub open spec fn spelled(s: Seq<char>) -> Option<int> {
    let body = unsigned_part(s);
    if body.len() == 0 || !all_digits(body) {
        None
    } else if s[0] == '-' {
        Some(-(value_of(body) as int))
    } else {
        Some(value_of(body) as int)
    }
}

/// What a text reads as in 64 bits: nothing where it is no numeral or out of range.
pub open spec fn read_i64(s: Seq<char>) -> Option<i64> {
    match spelled(s) {
        Some(v) => if i64::MIN <= v <= i64::MAX {
            Some(v as i64)
        } else {
            None
        },
        None => None,
    }
}

/// Digits spell their number.
pub proof fn lemma_digits(n: nat)
    ensures
        digits(n).len() > 0,
        all_digits(digits(n)),
        value_of(digits(n)) == n,
    decreases n,
{
    if n < 10 {
        reveal_with_fuel(value_of, 2);
        assert(digits(n).drop_last() =~= Seq::<char>::empty());
    } else {
        lemma_digits(n / 10);
        assert(digits(n).drop_last() =~= digits(n / 10));
    }
}

/// Reading back a written number gives that number.
pub proof fn law_written_numbers_read_back(n: i64)
    ensures
        read_i64(decimal(n as int)) == Some(n),
{
    if n < 0 {
        lemma_digits((-n) as nat);
        assert(unsigned_part(decimal(n as int)) =~= digits((-n) as nat));
    } else {
        lemma_digits(n as nat);
        assert(is_digit(digits(n as nat)[0]));
        assert(unsigned_part(decimal(n as int)) =~= digits(n as nat));
    }
}

/// A written number has no white space around it.
pub proof fn lemma_written_numbers_are_trimmed(n: i64)
    ensures
        crate::text::trimmed(decimal(n as int)) == decimal(n as int),
{
    let body = if n < 0 {
        digits((-n) as nat)
    } else {
        digits(n as nat)
    };
    if n < 0 {
        lemma_digits((-n) as nat);
    } else {
        lemma_digits(n as nat);
    }
    let text = decimal(n as int);
    assert(is_digit(body[body.len() - 1]));
    assert(text.last() == body.last());
    assert(is_digit(body[0]));
    assert(text[0] == '-' || text[0] == body[0]);
}

/// The empty text is no number.
pub proof fn lemma_nothing_is_no_number()
    ensures
        read_i64(crate::text::trimmed(Seq::empty())) is None,
{
}

/// Distinct numbers are written differently.
pub proof fn law_written_numbers_are_distinct(m: i64, n: i64)
    requires
        decimal(m as int) == decimal(n as int),
    ensures
        m == n,
{
    law_written_numbers_read_back(m);
    law_written_numbers_read_back(n);
}

fn push_digit(out: &mut String, d: u64)
    requires
        d < 10,
    ensures
        final(out)@ == old(out)@.push(digit_char(d as int)),
{
    proof {
        reveal_strlit("0");
        reveal_strlit("1");
        reveal_strlit("2");
        reveal_strlit("3");
        reveal_strlit("4");
        reveal_strlit("5");
        reveal_strlit("6");
        reveal_strlit("7");
        reveal_strlit("8");
        reveal_strlit("9");
    }
    let piece: &str = if d == 0 {
        "0"
    } else if d == 1 {
        "1"
    } else if d == 2 {
        "2"
    } else if d == 3 {
        "3"
    } else if d == 4 {
        "4"
    } else if d == 5 {
        "5"
    } else if d == 6 {
        "6"
    } else if d == 7 {
        "7"
    } else if d == 8 {
        "8"
    } else {
        "9"
    };
    assert(piece@ =~= seq![digit_char(d as int)]);
    out.append(piece);
    assert(out@ =~= old(out)@.push(digit_char(d as int)));
}

fn push_digits(out: &mut String, n: u64)
    ensures
        final(out)@ == old(out)@ + digits(n as nat),
    decreases n,
{
    if n >= 10 {
        push_digits(out, n / 10);
    }
    push_digit(out, n % 10);
    assert(out@ =~= old(out)@ + digits(n as nat));
}

/// The size of an integer, sign aside.
fn magnitude(n: i64) -> (r: u64)
    ensures
        r == if n < 0 {
            -(n as int)
        } else {
            n as int
        },
{
    if n == i64::MIN {
        0x8000_0000_0000_0000
    } else if n < 0 {
        (-n) as u64
    } else {
        n as u64
    }
}

/// Write `n` in decimal.
pub fn write_i64(n: i64) -> (r: String)
    ensures
        r@ == decimal(n as int),
{
    let mut out = String::new();
    if n < 0 {
        proof {
            reveal_strlit("-");
        }
        out.append("-");
        assert(out@ =~= seq!['-']);
    }
    push_digits(&mut out, magnitude(n));
    assert(out@ =~= decimal(n as int));
    out
}

/// Write `n` in decimal.
pub fn write_u64(n: u64) -> (r: String)
    ensures
        r@ == digits(n as nat),
{
    let mut out = String::new();
    push_digits(&mut out, n);
    assert(out@ =~= digits(n as nat));
    out
}

/// `count` zeros.
pub open spec fn zeros(count: int) -> Seq<char> {
    Seq::new(
        if count < 0 {
            0
        } else {
            count as nat
        },
        |i: int| '0',
    )
}

/// A numeral filled with zeros, between its sign and its digits, to twenty characters.
pub open spec fn padded(n: int) -> Seq<char> {
    if n < 0 {
        let body = digits((-n) as nat);
        seq!['-'] + zeros(19 - body.len()) + body
    } else {
        let body = digits(n as nat);
        zeros(20 - body.len()) + body
    }
}

/// Write `n` in decimal, filled with zeros to twenty characters.
pub fn write_padded(n: i64) -> (r: String)
    ensures
        r@ == padded(n as int),
{
    let body = write_u64(magnitude(n));
    let cs = chars_of(body.as_str());
    let mut out = String::new();
    let width: usize = if n < 0 {
        19
    } else {
        20
    };
    if n < 0 {
        proof {
            reveal_strlit("-");
        }
        out.append("-");
    }
    let ghost sign: Seq<char> = if n < 0 {
        seq!['-']
    } else {
        Seq::empty()
    };
    assert(out@ =~= sign + zeros(0));
    let mut used: usize = cs.len();
    let ghost len = used as int;
    while used < width
        invariant
            used <= width || used == len,
            used >= len,
            out@ == sign + zeros(used - len),
        decreases width - used,
    {
        push_digit(&mut out, 0);
        assert(out@ =~= sign + zeros(used + 1 - len));
        used = used + 1;
    }
    out.append(body.as_str());
    assert(out@ =~= padded(n as int));
    out
}

/// Read a decimal numeral.
pub fn parse_i64(s: &str) -> (r: Option<i64>)
    ensures
        r == read_i64(s@),
{
    let cs = chars_of(s);
    let n: usize = cs.len();
    if n == 0 {
        return None;
    }
    let negative = cs[0] == '-';
    let start: usize = if negative || cs[0] == '+' {
        1
    } else {
        0
    };
    let ghost body = unsigned_part(s@);
    assert(body =~= s@.subrange(start as int, n as int));
    if start == n {
        return None;
    }
    let mut i: usize = start;
    let mut acc: u64 = 0;
    let mut over = false;
    assert(body.subrange(0, 0) =~= Seq::<char>::empty());
    while i < n
        invariant
            start <= i <= n,
            n == s@.len(),
            cs@ == s@,
            body == s@.subrange(start as int, n as int),
            body == unsigned_part(s@),
            forall|j: int| 0 <= j < i - start ==> is_digit(#[trigger] body[j]),
            !over ==> acc == value_of(body.subrange(0, i - start)) && acc <= 0x8000_0000_0000_0000,
            over ==> value_of(body.subrange(0, i - start)) > 0x8000_0000_0000_0000,
        decreases n - i,
    {
        let c = cs[i];
        let ghost k = i - start;
        assert(body[k] == c);
        if !('0' <= c && c <= '9') {
            assert(!is_digit(body[k]));
            return None;
        }
        assert(body.subrange(0, k + 1).drop_last() =~= body.subrange(0, k));
        let d: u64 = (c as u32 - 0x30) as u64;
        if !over {
            let next: u128 = acc as u128 * 10 + d as u128;
            if next > 0x8000_0000_0000_0000 {
                over = true;
            } else {
                acc = next as u64;
            }
        }
        i = i + 1;
    }
    assert(body.subrange(0, body.len() as int) =~= body);
    if over {
        None
    } else if negative {
        if acc == 0x8000_0000_0000_0000 {
            Some(i64::MIN)
        } else {
            Some(-(acc as i64))
        }
    } else if acc > 0x7fff_ffff_ffff_ffff {
        None
    } else {
        Some(acc as i64)
    }
}

/// What a text reads as where it counts something: nothing where it is no numeral, has a
/// minus sign, or is out of range.
pub open spec fn read_count(s: Seq<char>) -> Option<usize> {
    match spelled(s) {
        Some(v) => if 0 <= v <= usize::MAX && s[0] != '-' {
            Some(v as usize)
        } else {
            None
        },
        None => None,
    }
}

/// Read a decimal numeral that counts something.
pub fn parse_count(s: &str) -> (r: Option<usize>)
    ensures
        r == read_count(s@),
{
    let cs = chars_of(s);
    let n: usize = cs.len();
    if n == 0 || cs[0] == '-' {
        return None;
    }
    let start: usize = if cs[0] == '+' {
        1
    } else {
        0
    };
    let ghost body = unsigned_part(s@);
    assert(body =~= s@.subrange(start as int, n as int));
    if start == n {
        return None;
    }
    let mut i: usize = start;
    let mut acc: usize = 0;
    let mut over = false;
    assert(body.subrange(0, 0) =~= Seq::<char>::empty());
    while i < n
        invariant
            start <= i <= n,
            n == s@.len(),
            cs@ == s@,
            body == s@.subrange(start as int, n as int),
            body == unsigned_part(s@),
            forall|j: int| 0 <= j < i - start ==> is_digit(#[trigger] body[j]),
            !over ==> acc == value_of(body.subrange(0, i - start)),
            over ==> value_of(body.subrange(0, i - start)) > usize::MAX,
        decreases n - i,
    {
        let c = cs[i];
        let ghost k = i - start;
        assert(body[k] == c);
        if !('0' <= c && c <= '9') {
            assert(!is_digit(body[k]));
            return None;
        }
        assert(body.subrange(0, k + 1).drop_last() =~= body.subrange(0, k));
        let d: u128 = (c as u32 - 0x30) as u128;
        if !over {
            let next: u128 = acc as u128 * 10 + d;
            if next > usize::MAX as u128 {
                over = true;
            } else {
                acc = next as usize;
            }
        }
        i = i + 1;
    }
    assert(body.subrange(0, body.len() as int) =~= body);
    if over {
        None
    } else {
        Some(acc)
    }
}

} // verus!
