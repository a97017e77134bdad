//! Verified helpers for comparing and building strings: identifiers in this
//! library (game ids, tournament ids, asset symbols, accounts) are plain
//! strings, and the engines look entities up by exact string equality.

use vstd::prelude::*;
use vstd::string::*;

verus! {

/// Compares two string slices character by character.
pub fn str_eq(a: &str, b: &str) -> (r: bool)
    ensures
        r == (a@ == b@),
{
    let alen = a.unicode_len();
    let blen = b.unicode_len();
    if alen != blen {
        assert(a@ != b@) by {
            assert(a@.len() != b@.len());
        }
        return false;
    }
    let mut i: usize = 0;
    while i < alen
        invariant
            alen == a@.len(),
            alen == b@.len(),
            i <= alen,
            forall|j: int| 0 <= j < i ==> a@[j] == b@[j],
        decreases alen - i,
    {
        if a.get_char(i) != b.get_char(i) {
            return false;
        }
        i += 1;
    }
    proof {
        assert(a@ =~= b@);
    }
    true
}

/// Compares two owned strings for equality of their character sequences.
pub fn string_eq(a: &String, b: &String) -> (r: bool)
    ensures
        r == (a@ == b@),
{
    str_eq(a.as_str(), b.as_str())
}

/// The decimal digit character for a value below ten.
pub open spec fn digit_char(d: nat) -> char {
    if d == 0 {
        '0'
    } else if d == 1 {
        '1'
    } else if d == 2 {
        '2'
    } else if d == 3 {
        '3'
    } else if d == 4 {
        '4'
    } else if d == 5 {
        '5'
    } else if d == 6 {
        '6'
    } else if d == 7 {
        '7'
    } else if d == 8 {
        '8'
    } else {
        '9'
    }
}

/// The decimal representation of `n` as a character sequence.
pub open spec fn dec_digits(n: nat) -> Seq<char>
    decreases n,
{
    if n < 10 {
        seq![digit_char(n)]
    } else {
        dec_digits(n / 10) + seq![digit_char(n % 10)]
    }
}

/// Distinct values below ten map to distinct digit characters.
proof fn lemma_digit_char_injective(a: nat, b: nat)
    requires
        a < 10,
        b < 10,
        digit_char(a) == digit_char(b),
    ensures
        a == b,
{
}

/// A decimal representation is never empty.
pub proof fn lemma_dec_digits_len(n: nat)
    ensures
        dec_digits(n).len() >= 1,
    decreases n,
{
    if n >= 10 {
        lemma_dec_digits_len(n / 10);
    }
}

/// Distinct numbers have distinct decimal representations, so identifiers
/// minted from a monotone counter are never reused.
pub proof fn lemma_dec_digits_injective(a: nat, b: nat)
    requires
        dec_digits(a) == dec_digits(b),
    ensures
        a == b,
    decreases a,
{
    if a < 10 && b < 10 {
        assert(dec_digits(a) =~= seq![digit_char(a)]);
        assert(dec_digits(b) =~= seq![digit_char(b)]);
        assert(digit_char(a) == dec_digits(a)[0]);
        assert(digit_char(b) == dec_digits(b)[0]);
        lemma_digit_char_injective(a, b);
    } else if a < 10 {
        lemma_dec_digits_len(b / 10);
        assert(dec_digits(b).len() >= 2);
        assert(dec_digits(a).len() == 1);
    } else if b < 10 {
        lemma_dec_digits_len(a / 10);
        assert(dec_digits(a).len() >= 2);
        assert(dec_digits(b).len() == 1);
    } else {
        let da = dec_digits(a / 10);
        let db = dec_digits(b / 10);
        assert(dec_digits(a).last() == digit_char(a % 10));
        assert(dec_digits(b).last() == digit_char(b % 10));
        lemma_digit_char_injective(a % 10, b % 10);
        assert(dec_digits(a).drop_last() =~= da);
        assert(dec_digits(b).drop_last() =~= db);
        lemma_dec_digits_injective(a / 10, b / 10);
        assert(a == 10 * (a / 10) + a % 10);
        assert(b == 10 * (b / 10) + b % 10);
    }
}

/// A one-character string for one decimal digit.
fn digit_str(d: u64) -> (c: &'static str)
    requires
        d < 10,
    ensures
        c@ =~= seq![digit_char(d as nat)],
{
    if d == 0 {
        proof { reveal_strlit("0"); }
        "0"
    } else if d == 1 {
        proof { reveal_strlit("1"); }
        "1"
    } else if d == 2 {
        proof { reveal_strlit("2"); }
        "2"
    } else if d == 3 {
        proof { reveal_strlit("3"); }
        "3"
    } else if d == 4 {
        proof { reveal_strlit("4"); }
        "4"
    } else if d == 5 {
        proof { reveal_strlit("5"); }
        "5"
    } else if d == 6 {
        proof { reveal_strlit("6"); }
        "6"
    } else if d == 7 {
        proof { reveal_strlit("7"); }
        "7"
    } else if d == 8 {
        proof { reveal_strlit("8"); }
        "8"
    } else {
        proof { reveal_strlit("9"); }
        "9"
    }
}

/// The digit values of a sequence, least significant first, read as
/// characters in most-significant-first order.
spec fn digits_rev_chars(ds: Seq<u64>) -> Seq<char> {
    ds.map_values(|d: u64| digit_char(d as nat)).reverse()
}

/// Renders `n` in decimal.
pub fn u64_to_dec(n: u64) -> (r: String)
    ensures
        r@ == dec_digits(n as nat),
{
    let mut digits_rev: Vec<u64> = Vec::new();
    let mut rest: u64 = n;
    loop
        invariant_except_break
            digits_rev@.len() >= 1 ==> dec_digits(n as nat) =~= dec_digits(rest as nat)
                + digits_rev_chars(digits_rev@),
            digits_rev@.len() == 0 ==> rest == n,
        invariant
            forall|j: int| 0 <= j < digits_rev@.len() ==> digits_rev@[j] < 10,
        ensures
            dec_digits(n as nat) =~= digits_rev_chars(digits_rev@),
        decreases rest,
    {
        let d = rest % 10;
        let ghost old_digits = digits_rev@;
        digits_rev.push(d);
        proof {
            assert(digits_rev_chars(digits_rev@) =~= seq![digit_char(d as nat)]
                + digits_rev_chars(old_digits));
        }
        if rest < 10 {
            proof {
                assert(dec_digits(rest as nat) =~= seq![digit_char(rest as nat)]);
                assert(dec_digits(n as nat) =~= digits_rev_chars(digits_rev@));
            }
            break;
        }
        let next = rest / 10;
        proof {
            assert(rest as nat == 10 * (next as nat) + (d as nat));
            assert(dec_digits(rest as nat) =~= dec_digits(next as nat) + seq![
                digit_char(d as nat),
            ]);
        }
        rest = next;
    }
    let mut out = String::new();
    let mut i: usize = digits_rev.len();
    while i > 0
        invariant
            i <= digits_rev@.len(),
            forall|j: int| 0 <= j < digits_rev@.len() ==> digits_rev@[j] < 10,
            out@ =~= digits_rev_chars(digits_rev@.subrange(i as int, digits_rev@.len() as int)),
        decreases i,
    {
        i -= 1;
        let ghost before = out@;
        out.append(digit_str(digits_rev[i]));
        proof {
            assert(digits_rev_chars(digits_rev@.subrange(i as int, digits_rev@.len() as int))
                =~= before + seq![digit_char(digits_rev@[i as int] as nat)]);
        }
    }
    proof {
        assert(digits_rev@.subrange(0, digits_rev@.len() as int) =~= digits_rev@);
        assert(out@ =~= digits_rev_chars(digits_rev@));
    }
    out
}


/// The ASCII-lowercase image of a character: uppercase ASCII letters map to
/// their lowercase forms, everything else is unchanged.
pub open spec fn spec_lower_char(c: char) -> char {
    if 'A' <= c && c <= 'Z' {
        (((c as u8) + 32) as char)
    } else {
        c
    }
}

/// The ASCII-lowercase image of a character sequence.
pub open spec fn spec_ascii_lower(s: Seq<char>) -> Seq<char> {
    s.map_values(|c: char| spec_lower_char(c))
}

/// Lowers one character.
fn lower_char(c: char) -> (r: char)
    ensures
        r == spec_lower_char(c),
{
    if 'A' <= c && c <= 'Z' {
        ((c as u8) + 32) as char
    } else {
        c
    }
}

/// Compares two string slices up to ASCII case.
pub fn str_eq_ignore_ascii_case(a: &str, b: &str) -> (r: bool)
    ensures
        r == (spec_ascii_lower(a@) == spec_ascii_lower(b@)),
{
    let alen = a.unicode_len();
    let blen = b.unicode_len();
    if alen != blen {
        assert(spec_ascii_lower(a@).len() != spec_ascii_lower(b@).len());
        return false;
    }
    let mut i: usize = 0;
    while i < alen
        invariant
            alen == a@.len(),
            alen == b@.len(),
            i <= alen,
            forall|j: int| 0 <= j < i ==> spec_lower_char(a@[j]) == spec_lower_char(b@[j]),
        decreases alen - i,
    {
        if lower_char(a.get_char(i)) != lower_char(b.get_char(i)) {
            assert(spec_ascii_lower(a@)[i as int] != spec_ascii_lower(b@)[i as int]);
            return false;
        }
        i += 1;
    }
    proof {
        assert(spec_ascii_lower(a@) =~= spec_ascii_lower(b@));
    }
    true
}

/// A sequence without uppercase ASCII letters is its own lowercase image.
pub proof fn lemma_ascii_lower_fixed(s: Seq<char>)
    requires
        forall|i: int| 0 <= i < s.len() ==> !('A' <= #[trigger] s[i] && s[i] <= 'Z'),
    ensures
        spec_ascii_lower(s) == s,
{
    assert(spec_ascii_lower(s) =~= s);
}

} // verus!
