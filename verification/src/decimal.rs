//! Decimal numerals: what a run of digits denotes, how a number is written,
//! and the two executable routines that read and write them.

use vstd::prelude::*;
use vstd::string::*;
use vstd::utf8::is_ascii_chars;

verus! {

/// Whether `c` is one of the ten decimal digits.
pub open spec fn is_digit(c: char) -> bool {
    '0' <= c && c <= '9'
}

/// The number a digit stands for.
pub open spec fn digit_value(c: char) -> nat {
    (c as u8 - 48) as nat
}

/// The digit that stands for `d`, for `d < 10`.
pub open spec fn digit_char(d: nat) -> char {
    ((d + 48) as u8) as char
}

/// Every character of `s` is a digit.
pub open spec fn all_digits(s: Seq<char>) -> bool {
    forall|i: int| 0 <= i < s.len() ==> is_digit(#[trigger] s[i])
}

/// A numeral is a non-empty run of digits; leading zeros are allowed.
pub open spec fn is_numeral(s: Seq<char>) -> bool {
    s.len() > 0 && all_digits(s)
}

/// The number that the digits of `s` denote, most significant digit first.
pub open spec fn value_of(s: Seq<char>) -> nat
    decreases s.len(),
{
    if s.len() == 0 {
        0
    } else {
        value_of(s.drop_last()) * 10 + digit_value(s.last())
    }
}

/// `s` is a numeral that denotes `n`.
pub open spec fn spells(s: Seq<char>, n: nat) -> bool {
    is_numeral(s) && value_of(s) == n
}

/// The canonical way to write `n`: no leading zero, except for zero itself.
pub open spec fn decimal(n: nat) -> Seq<char>
    decreases n,
{
    if n < 10 {
        seq![digit_char(n)]
    } else {
        decimal(n / 10).push(digit_char(n % 10))
    }
}

/// `s` without its leading zeros, keeping at least one character.
pub open spec fn strip_zeros(s: Seq<char>) -> Seq<char>
    decreases s.len(),
{
    if s.len() > 1 && s[0] == '0' {
        strip_zeros(s.drop_first())
    } else {
        s
    }
}

/// A numeral is canonical when it has no leading zero to strip.
pub open spec fn is_canonical(s: Seq<char>) -> bool {
    is_numeral(s) && (s.len() == 1 || s[0] != '0')
}

/// Bytes read as characters, one for one.
pub open spec fn latin(bytes: Seq<u8>) -> Seq<char> {
    Seq::new(bytes.len(), |i: int| bytes[i] as char)
}

/// Where the longest run of digits of `s` that starts at `from` ends.
pub open spec fn run_end(s: Seq<char>, from: int) -> int
    decreases s.len() - from,
{
    if 0 <= from < s.len() && is_digit(s[from]) {
        run_end(s, from + 1)
    } else {
        from
    }
}

/// The run from `from` to `run_end` holds digits only, and stops at the end
/// of `s` or in front of a character that is no digit.
pub proof fn lemma_run_end(s: Seq<char>, from: int)
    requires
        0 <= from <= s.len(),
    ensures
        from <= run_end(s, from) <= s.len(),
        all_digits(s.subrange(from, run_end(s, from))),
        run_end(s, from) < s.len() ==> !is_digit(s[run_end(s, from)]),
    decreases s.len() - from,
{
    if from < s.len() && is_digit(s[from]) {
        lemma_run_end(s, from + 1);
        let run = s.subrange(from, run_end(s, from));
        let rest = s.subrange(from + 1, run_end(s, from));
        assert forall|i: int| 0 <= i < run.len() implies is_digit(#[trigger] run[i]) by {
            if i > 0 {
                assert(run[i] == rest[i - 1]);
            }
        }
    }
}

/// A run of digits that cannot be extended is the longest one.
pub proof fn lemma_run_end_unique(s: Seq<char>, from: int, to: int)
    requires
        0 <= from <= to <= s.len(),
        all_digits(s.subrange(from, to)),
        to < s.len() ==> !is_digit(s[to]),
    ensures
        run_end(s, from) == to,
    decreases to - from,
{
    if from < to {
        assert(s.subrange(from, to)[0] == s[from]);
        let rest = s.subrange(from + 1, to);
        assert forall|i: int| 0 <= i < rest.len() implies is_digit(#[trigger] rest[i]) by {
            assert(rest[i] == s.subrange(from, to)[i + 1]);
        }
        lemma_run_end_unique(s, from + 1, to);
    }
}

/// A digit and its value determine each other.
pub proof fn lemma_digit_round_trip(d: nat)
    requires
        d < 10,
    ensures
        is_digit(digit_char(d)),
        digit_value(digit_char(d)) == d,
{
    let b = (d + 48) as u8;
    assert(b as char as u8 == b);
}

/// Writing a number gives a canonical numeral that denotes it.
pub proof fn lemma_decimal_spells(n: nat)
    ensures
        spells(decimal(n), n),
        is_canonical(decimal(n)),
    decreases n,
{
    let s = decimal(n);
    if n < 10 {
        lemma_digit_round_trip(n);
        assert(s.drop_last() =~= Seq::<char>::empty());
        assert(value_of(s.drop_last()) == 0);
        assert(s.last() == digit_char(n));
        assert(n == 0 <==> s[0] == '0');
    } else {
        lemma_decimal_spells(n / 10);
        lemma_digit_round_trip(n % 10);
        let head = decimal(n / 10);
        assert(s.drop_last() =~= head);
        assert(s.last() == digit_char(n % 10));
        assert(s[0] == head[0]);
        if head.len() == 1 {
            assert(head.drop_last() =~= Seq::<char>::empty());
            assert(value_of(head.drop_last()) == 0);
            assert(head.last() == head[0]);
            assert(value_of(head) == digit_value(head[0]));
        }
    }
}

/// A digit's value is below ten, and the digit is found again from it.
pub proof fn lemma_digit_value(c: char)
    requires
        is_digit(c),
    ensures
        digit_value(c) < 10,
        digit_char(digit_value(c)) == c,
{
    let b = c as u8;
    assert(b as char == c);
}

/// A zero in front of a run of digits does not change what it denotes.
pub proof fn lemma_leading_zero(s: Seq<char>)
    requires
        s.len() > 0,
        s[0] == '0',
    ensures
        value_of(s) == value_of(s.drop_first()),
    decreases s.len(),
{
    if s.len() == 1 {
        assert(s.drop_last() =~= Seq::<char>::empty());
        assert(s.drop_first() =~= Seq::<char>::empty());
    } else {
        lemma_leading_zero(s.drop_last());
        assert(s.drop_last().drop_first() =~= s.drop_first().drop_last());
    }
}

/// Stripping leading zeros leaves a canonical numeral of the same value.
pub proof fn lemma_strip_zeros(s: Seq<char>)
    requires
        is_numeral(s),
    ensures
        is_canonical(strip_zeros(s)),
        value_of(strip_zeros(s)) == value_of(s),
        is_canonical(s) ==> strip_zeros(s) == s,
    decreases s.len(),
{
    if s.len() > 1 && s[0] == '0' {
        let rest = s.drop_first();
        assert forall|i: int| 0 <= i < rest.len() implies is_digit(#[trigger] rest[i]) by {
            assert(rest[i] == s[i + 1]);
        }
        lemma_strip_zeros(rest);
        lemma_leading_zero(s);
    }
}

/// A canonical numeral is the canonical writing of its own value.
pub proof fn lemma_canonical_is_decimal(s: Seq<char>)
    requires
        is_canonical(s),
    ensures
        decimal(value_of(s)) == s,
        s[0] != '0' ==> value_of(s) >= 1,
        s.len() > 1 ==> value_of(s) >= 10,
    decreases s.len(),
{
    let head = s.drop_last();
    lemma_digit_value(s.last());
    if s.len() == 1 {
        assert(head =~= Seq::<char>::empty());
        assert(value_of(head) == 0);
        assert(decimal(value_of(s)) =~= s);
    } else {
        assert(head[0] == s[0]);
        assert forall|i: int| 0 <= i < head.len() implies is_digit(#[trigger] head[i]) by {
            assert(head[i] == s[i]);
        }
        lemma_canonical_is_decimal(head);
        let n = value_of(s);
        assert(n == value_of(head) * 10 + digit_value(s.last()));
        assert(n / 10 == value_of(head));
        assert(n % 10 == digit_value(s.last()));
        assert(decimal(n) =~= head.push(s.last()));
        assert(head.push(s.last()) =~= s);
    }
}

/// Reading a numeral and writing its value back strips the leading zeros and
/// changes nothing else.
pub proof fn lemma_decimal_of_value(s: Seq<char>)
    requires
        is_numeral(s),
    ensures
        decimal(value_of(s)) == strip_zeros(s),
{
    lemma_strip_zeros(s);
    lemma_canonical_is_decimal(strip_zeros(s));
}

/// The bytes of `text`, when every character of it takes one byte.
pub(crate) fn ascii_bytes(text: &str) -> (r: Option<&[u8]>)
    ensures
        r is Some <==> is_ascii_chars(text@),
        r is Some ==> latin(r.unwrap()@) == text@,
{
    if text.is_ascii() {
        let bytes = text.as_bytes();
        proof {
            is_ascii_spec_bytes(text);
            assert forall|i: int| 0 <= i < text@.len() implies latin(bytes@)[i] == text@[i] by {
                let c = text@[i];
                assert('\0' <= c <= '\u{7f}');
                assert(bytes@[i] == c as u8);
                assert((c as u8) as char == c);
            }
            assert(latin(bytes@) =~= text@);
        }
        Some(bytes)
    } else {
        None
    }
}

/// Reads the longest run of digits of `bytes` that starts at `start`.
///
/// Returns where the run ends and, when the run denotes a number no greater
/// than `max`, that number. An empty run denotes zero.
pub fn scan_number(bytes: &[u8], start: usize, max: u64) -> (r: (usize, Option<u64>))
    requires
        start <= bytes@.len(),
    ensures
        start <= r.0 <= bytes@.len(),
        all_digits(latin(bytes@).subrange(start as int, r.0 as int)),
        r.0 == run_end(latin(bytes@), start as int),
        r.1 is Some <==> value_of(latin(bytes@).subrange(start as int, r.0 as int)) <= max,
        r.1 is Some ==> r.1.unwrap() == value_of(
            latin(bytes@).subrange(start as int, r.0 as int),
        ),
{
    let ghost text = latin(bytes@);
    let mut end: usize = start;
    let mut total: u64 = 0;
    let mut fits: bool = true;
    assert(text.subrange(start as int, start as int) =~= Seq::<char>::empty());
    while end < bytes.len() && 48 <= bytes[end] && bytes[end] <= 57
        invariant
            text == latin(bytes@),
            start <= end <= bytes@.len(),
            all_digits(text.subrange(start as int, end as int)),
            fits ==> total == value_of(text.subrange(start as int, end as int)),
            fits ==> total <= max,
            !fits ==> value_of(text.subrange(start as int, end as int)) > max,
        decreases bytes@.len() - end,
    {
        let digit: u64 = (bytes[end] - 48) as u64;
        let ghost before = text.subrange(start as int, end as int);
        let ghost after = text.subrange(start as int, end + 1);
        proof {
            assert(after.drop_last() =~= before);
            assert(after.last() == bytes@[end as int] as char);
            assert(digit == digit_value(after.last()));
            assert forall|i: int| 0 <= i < after.len() implies is_digit(#[trigger] after[i]) by {
                if i < before.len() {
                    assert(after[i] == before[i]);
                }
            }
        }
        if fits {
            if digit <= max && total <= (max - digit) / 10 {
                total = total * 10 + digit;
            } else {
                fits = false;
            }
        }
        end = end + 1;
    }
    proof {
        lemma_run_end_unique(text, start as int, end as int);
    }
    (end, if fits { Some(total) } else { None })
}

/// The one-character text of the digit that stands for `d`.
fn digit_text(d: u8) -> (t: &'static str)
    requires
        d < 10,
    ensures
        t@ == seq![digit_char(d as nat)],
{
    proof {
        reveal_strlit("0");
        reveal_strlit("1");
        reveal_strlit("2");
        reveal_strlit("3");
        reveal_strlit("4");
        reveal_strlit("5");
        reveal_strlit("6");
        reveal_strlit("7");
        reveal_strlit("8");
        reveal_strlit("9");
    }
    let t = match d {
        0 => "0",
        1 => "1",
        2 => "2",
        3 => "3",
        4 => "4",
        5 => "5",
        6 => "6",
        7 => "7",
        8 => "8",
        _ => "9",
    };
    assert(t@ =~= seq![digit_char(d as nat)]);
    t
}

/// Appends the canonical writing of `n` to `out`.
pub fn push_decimal(out: &mut String, n: u64)
    ensures
        final(out)@ == old(out)@ + decimal(n as nat),
    decreases n,
{
    if n >= 10 {
        push_decimal(out, n / 10);
    }
    let d: u8 = (n % 10) as u8;
    out.append(digit_text(d));
    proof {
        if n >= 10 {
            let head = decimal((n / 10) as nat);
            assert(final(out)@ =~= old(out)@ + head.push(digit_char((n % 10) as nat)));
        } else {
            assert(final(out)@ =~= old(out)@ + seq![digit_char(n as nat)]);
        }
    }
}

} // verus!
