//! Conversions between strings and the character vectors that the parsers
//! and formatters of this crate work on.

use vstd::prelude::*;

verus! {

broadcast use vstd::string::group_string_axioms;

/// The characters of a string, in order.
pub(crate) fn chars_of(s: &str) -> (v: Vec<char>)
    ensures
        v@ == s@,
{
    let mut v: Vec<char> = Vec::new();
    for c in it: s.chars()
        invariant
            it.seq() == s@,
            v@ == s@.take(it.index() as int),
    {
        v.push(c);
        assert(v@ =~= s@.take(it.index() + 1));
    }
    assert(s@.take(s@.len() as int) =~= s@);
    v
}

/// The string made of the given characters, in order.
///
/// Calls `String::from_iter` on the characters: the result holds exactly
/// these characters. This is taken from the documentation of std and is not
/// proved.
#[verifier::external_body]
pub(crate) fn string_of(v: &Vec<char>) -> (s: String)
    ensures
        s@ == v@,
{
    String::from_iter(v.iter())
}

/// The character that stands for the digit `d`.
pub open spec fn digit_char(d: int) -> char
    recommends
        0 <= d < 10,
{
    ((48 + d) as u8) as char
}

/// The decimal notation of `n`, without leading zeros.
pub open spec fn decimal(n: nat) -> Seq<char>
    decreases n,
{
    if n < 10 {
        seq![digit_char(n as int)]
    } else {
        decimal(n / 10).push(digit_char((n % 10) as int))
    }
}

/// Whether the code of every character of `s` lies between `lo` and `hi`.
pub open spec fn all_within(s: Seq<char>, lo: u32, hi: u32) -> bool {
    forall|i: int| 0 <= i < s.len() ==> lo <= (#[trigger] s[i]) as u32 <= hi
}

/// The number that `s` denotes in positional notation with the given base,
/// where the character with code `zero + d` stands for the digit `d`; zero
/// for the empty sequence.
pub open spec fn positional(s: Seq<char>, base: nat, zero: u32) -> int
    decreases s.len(),
{
    if s.len() == 0 {
        0
    } else {
        positional(s.drop_last(), base, zero) * base + (s.last() as u32 - zero)
    }
}

/// Whether every character of `s` is one of `0` to `9`.
pub open spec fn all_digits(s: Seq<char>) -> bool {
    all_within(s, 48, 57)
}

/// The number that a sequence of decimal digits denotes; zero for none.
pub open spec fn decimal_value(s: Seq<char>) -> int {
    positional(s, 10, 48)
}

/// Appends the decimal notation of `n` to `out`.
pub fn push_decimal(out: &mut Vec<char>, n: u64)
    ensures
        final(out)@ == old(out)@ + decimal(n as nat),
    decreases n,
{
    if n < 10 {
        let c: char = digit_of(n);
        out.push(c);
        assert(out@ =~= old(out)@ + decimal(n as nat));
    } else {
        push_decimal(out, n / 10);
        let c: char = digit_of(n % 10);
        out.push(c);
        assert(out@ =~= old(out)@ + decimal(n as nat));
    }
}

/// The character of one decimal digit.
fn digit_of(d: u64) -> (c: char)
    requires
        d < 10,
    ensures
        c == digit_char(d as int),
{
    let code: u8 = 48u8 + (d as u8);
    code as char
}

/// Reads `s` in positional notation: characters with codes from `lo` to `hi`
/// are digits, the one with code `zero + d` standing for `d`. `None` where a
/// character is no digit or the number does not fit.
pub fn parse_positional(s: &Vec<char>, base: usize, zero: u32, lo: u32, hi: u32) -> (r: Option<
    usize,
>)
    requires
        base >= 1,
        zero <= lo <= hi,
    ensures
        r is Some <==> all_within(s@, lo, hi) && positional(s@, base as nat, zero) <= usize::MAX,
        r matches Some(n) ==> n == positional(s@, base as nat, zero),
{
    let mut acc: usize = 0;
    let mut i: usize = 0;
    while i < s.len()
        invariant
            0 <= i <= s.len(),
            base >= 1,
            zero <= lo <= hi,
            all_within(s@.take(i as int), lo, hi),
            acc == positional(s@.take(i as int), base as nat, zero),
        decreases s.len() - i,
    {
        let c: char = s[i];
        let code: u32 = c as u32;
        proof {
            assert(s@.take(i as int + 1).drop_last() =~= s@.take(i as int));
            assert(s@.take(i as int + 1).last() == c);
        }
        if code < lo || code > hi {
            assert(!(lo <= s@[i as int] as u32 <= hi));
            return None;
        }
        let d: u32 = code - zero;
        let next: Option<usize> = match acc.checked_mul(base) {
            Some(m) => if d as u64 <= usize::MAX as u64 {
                m.checked_add(d as usize)
            } else {
                None
            },
            None => None,
        };
        match next {
            Some(v) => {
                acc = v;
            },
            None => {
                proof {
                    if all_within(s@, lo, hi) {
                        lemma_positional_grows(s@, i as int + 1, base as nat, zero, lo, hi);
                    }
                }
                return None;
            },
        }
        proof {
            assert(all_within(s@.take(i as int + 1), lo, hi)) by {
                assert forall|j: int| 0 <= j < i + 1 implies lo <= (#[trigger] s@.take(
                    i as int + 1,
                )[j]) as u32 <= hi by {
                    if j < i {
                        assert(s@.take(i as int)[j] == s@[j]);
                    }
                }
            }
        }
        i += 1;
    }
    proof {
        assert(s@.take(i as int) =~= s@);
    }
    Some(acc)
}

/// Reads a run of decimal digits as a number. `None` where a character is no
/// digit of `0` to `9` or the number does not fit.
pub fn parse_decimal(s: &Vec<char>) -> (r: Option<usize>)
    ensures
        r is Some <==> all_digits(s@) && decimal_value(s@) <= usize::MAX,
        r matches Some(n) ==> n == decimal_value(s@),
{
    parse_positional(s, 10, 48, 48, 57)
}

/// A run of digits denotes no negative number.
pub proof fn lemma_positional_nonnegative(s: Seq<char>, base: nat, zero: u32, lo: u32, hi: u32)
    requires
        zero <= lo <= hi,
        all_within(s, lo, hi),
    ensures
        positional(s, base, zero) >= 0,
    decreases s.len(),
{
    if s.len() > 0 {
        assert(all_within(s.drop_last(), lo, hi)) by {
            assert forall|j: int| 0 <= j < s.drop_last().len() implies lo <= (
            #[trigger] s.drop_last()[j]) as u32 <= hi by {
                assert(s.drop_last()[j] == s[j]);
            }
        }
        lemma_positional_nonnegative(s.drop_last(), base, zero, lo, hi);
        let v = positional(s.drop_last(), base, zero);
        assert(v * base >= 0) by (nonlinear_arith)
            requires
                v >= 0,
                base >= 0,
        ;
        assert(lo <= s[s.len() - 1] as u32 <= hi);
    }
}

/// A prefix of a run of digits denotes no more than the whole run.
pub proof fn lemma_positional_grows(
    s: Seq<char>,
    k: int,
    base: nat,
    zero: u32,
    lo: u32,
    hi: u32,
)
    requires
        0 <= k <= s.len(),
        base >= 1,
        zero <= lo <= hi,
        all_within(s, lo, hi),
    ensures
        positional(s.take(k), base, zero) <= positional(s, base, zero),
    decreases s.len(),
{
    if k == s.len() {
        assert(s.take(k) =~= s);
    } else {
        assert(s.drop_last().take(k) =~= s.take(k));
        assert(all_within(s.drop_last(), lo, hi)) by {
            assert forall|j: int| 0 <= j < s.drop_last().len() implies lo <= (
            #[trigger] s.drop_last()[j]) as u32 <= hi by {
                assert(s.drop_last()[j] == s[j]);
            }
        }
        lemma_positional_grows(s.drop_last(), k, base, zero, lo, hi);
        lemma_positional_nonnegative(s.drop_last(), base, zero, lo, hi);
        let v = positional(s.drop_last(), base, zero);
        assert(v * base >= v) by (nonlinear_arith)
            requires
                v >= 0,
                base >= 1,
        ;
        assert(lo <= s[s.len() - 1] as u32 <= hi);
    }
}

/// The digits written for a number read back as that number.
pub proof fn lemma_decimal_reads_back(n: nat)
    ensures
        decimal(n).len() > 0,
        all_digits(decimal(n)),
        decimal_value(decimal(n)) == n,
    decreases n,
{
    if n < 10 {
        let s = decimal(n);
        assert(s.drop_last() =~= Seq::<char>::empty());
        assert(positional(s.drop_last(), 10, 48) == 0);
        assert(s.last() as u32 == 48 + n);
    } else {
        lemma_decimal_reads_back(n / 10);
        let head = decimal(n / 10);
        let s = decimal(n);
        assert(s.drop_last() =~= head);
        assert(s.last() as u32 == 48 + n % 10);
        assert forall|i: int| 0 <= i < s.len() implies 48 <= (#[trigger] s[i]) as u32 <= 57 by {
            if i < head.len() {
                assert(s[i] == head[i]);
            }
        }
    }
}

/// Whether `c` is white space: one of the 25 characters that have the
/// Unicode property White_Space.
pub open spec fn whitespace(c: char) -> bool {
    let code = c as u32;
    ||| 0x09 <= code <= 0x0d
    ||| code == 0x20
    ||| code == 0x85
    ||| code == 0xa0
    ||| code == 0x1680
    ||| 0x2000 <= code <= 0x200a
    ||| code == 0x2028
    ||| code == 0x2029
    ||| code == 0x202f
    ||| code == 0x205f
    ||| code == 0x3000
}

/// Whether `c` is white space.
///
/// Calls `char::is_whitespace`, which std documents as telling whether the
/// character has the property White_Space; the contract lists the
/// characters that have it.
#[verifier::external_body]
pub(crate) fn is_space(c: char) -> (b: bool)
    ensures
        b == whitespace(c),
{
    c.is_whitespace()
}

/// A text without the plus sign that may stand before a number.
pub open spec fn unsigned_part(s: Seq<char>) -> Seq<char> {
    if s.len() > 0 && s[0] == '+' {
        s.skip(1)
    } else {
        s
    }
}

/// The unsigned number that a text denotes: after an optional plus sign, one
/// or more digits of `0` to `9` whose number fits; `None` for any other text.
pub open spec fn parsed_u64(s: Seq<char>) -> Option<u64> {
    let digits = unsigned_part(s);
    if digits.len() > 0 && all_digits(digits) && decimal_value(digits) <= u64::MAX {
        Some(decimal_value(digits) as u64)
    } else {
        None
    }
}

/// The signed number that a text denotes: after an optional plus or minus
/// sign, one or more digits of `0` to `9` whose number, with its sign, fits;
/// `None` for any other text.
pub open spec fn parsed_i64(s: Seq<char>) -> Option<i64> {
    if s.len() > 0 && s[0] == '-' {
        let digits = s.skip(1);
        if digits.len() > 0 && all_digits(digits) && -decimal_value(digits) >= i64::MIN {
            Some((-decimal_value(digits)) as i64)
        } else {
            None
        }
    } else {
        let digits = unsigned_part(s);
        if digits.len() > 0 && all_digits(digits) && decimal_value(digits) <= i64::MAX {
            Some(decimal_value(digits) as i64)
        } else {
            None
        }
    }
}

/// Reads an unsigned number with `str::parse::<u64>`.
///
/// std documents the text that is read as an optional plus sign followed by
/// decimal digits, and the reading as failing where the number does not fit.
#[verifier::external_body]
pub(crate) fn parse_u64_of(s: &str) -> (r: Option<u64>)
    ensures
        r == parsed_u64(s@),
{
    s.parse::<u64>().ok()
}

/// Reads a signed number with `str::parse::<i64>`.
///
/// std documents the text that is read as an optional plus or minus sign
/// followed by decimal digits, and the reading as failing where the number
/// does not fit.
#[verifier::external_body]
pub(crate) fn parse_i64_of(s: &str) -> (r: Option<i64>)
    ensures
        r == parsed_i64(s@),
{
    s.parse::<i64>().ok()
}

/// A text in lower case, as `str::to_lowercase` gives it.
pub uninterp spec fn lowercased(s: Seq<char>) -> Seq<char>;

/// The text in lower case.
///
/// Calls `str::to_lowercase`, which depends on the text alone; the contract
/// gives the result its name and claims nothing else of it.
#[verifier::external_body]
pub(crate) fn lowercase_of(s: &str) -> (r: String)
    ensures
        r@ == lowercased(s@),
{
    s.to_lowercase()
}

} // verus!
