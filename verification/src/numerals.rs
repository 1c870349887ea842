//! Rendering and parsing of numerals: upper-case hexadecimal for task ids
//! (with a parser that accepts either letter case), and decimal for counts
//! shown in messages.

use vstd::prelude::*;

verus! {

/// The hexadecimal digit character for a value below 16, upper-case.
pub open spec fn hex_digit(d: nat) -> char {
    if d < 10 {
        (((d + 48) as u8) as char)
    } else {
        (((d + 55) as u8) as char)
    }
}

/// The upper-case hexadecimal rendering of a number, without leading
/// zeros ("0" for zero).
pub open spec fn hex_of(n: nat) -> Seq<char>
    decreases n,
{
    if n < 16 {
        seq![hex_digit(n)]
    } else {
        hex_of(n / 16).push(hex_digit(n % 16))
    }
}

/// Whether a character is a hexadecimal digit, either case.
pub open spec fn is_hex_digit(c: char) -> bool {
    ('0' <= c && c <= '9') || ('A' <= c && c <= 'F') || ('a' <= c && c <= 'f')
}

/// The value of a hexadecimal digit character.
pub open spec fn hex_digit_val(c: char) -> nat {
    if '0' <= c && c <= '9' {
        (c as nat - 48) as nat
    } else if 'A' <= c && c <= 'F' {
        (c as nat - 55) as nat
    } else if 'a' <= c && c <= 'f' {
        (c as nat - 87) as nat
    } else {
        0
    }
}

/// Whether a character sequence is a well-formed hexadecimal numeral:
/// non-empty, hexadecimal digits only.
pub open spec fn is_hex_numeral(s: Seq<char>) -> bool {
    s.len() > 0 && forall|i: int| 0 <= i < s.len() ==> is_hex_digit(s[i])
}

/// The numeric value of a hexadecimal numeral, most significant digit
/// first.
pub open spec fn hex_num(s: Seq<char>) -> nat
    decreases s.len(),
{
    if s.len() == 0 {
        0
    } else {
        hex_num(s.drop_last()) * 16 + hex_digit_val(s.last())
    }
}

/// The decimal digit character for a value below 10.
pub open spec fn dec_digit(d: nat) -> char {
    (((d + 48) as u8) as char)
}

/// The decimal rendering of a number, without leading zeros ("0" for
/// zero).
pub open spec fn dec_of(n: nat) -> Seq<char>
    decreases n,
{
    if n < 10 {
        seq![dec_digit(n)]
    } else {
        dec_of(n / 10).push(dec_digit(n % 10))
    }
}

/// A hexadecimal numeral renders back to the value it was made from, and
/// is well formed.
pub proof fn lemma_hex_of_num(n: nat)
    ensures
        is_hex_numeral(hex_of(n)),
        hex_num(hex_of(n)) == n,
    decreases n,
{
    if n < 16 {
        assert(hex_of(n) == seq![hex_digit(n)]);
        assert(hex_of(n).drop_last() =~= Seq::<char>::empty());
        assert(hex_num(Seq::<char>::empty()) == 0);
        assert(hex_num(hex_of(n)) == hex_digit_val(hex_digit(n)));
    } else {
        lemma_hex_of_num(n / 16);
        let prefix = hex_of(n / 16);
        assert(hex_of(n) == prefix.push(hex_digit(n % 16)));
        assert(hex_of(n).drop_last() =~= prefix);
        assert(hex_of(n).last() == hex_digit(n % 16));
        assert(hex_num(hex_of(n)) == hex_num(prefix) * 16 + hex_digit_val(hex_digit(n % 16)));
        assert(n / 16 * 16 + n % 16 == n) by (nonlinear_arith);
    }
}

/// The hexadecimal digit character of a value below 16.
pub(crate) fn hex_digit_char(d: u32) -> (c: char)
    requires
        d < 16,
    ensures
        c == hex_digit(d as nat),
{
    if d < 10 {
        ((d as u8) + 48) as char
    } else {
        ((d as u8) + 55) as char
    }
}

/// The characters of a vector, in reverse order.
fn reversed_chars(v: &Vec<char>) -> (r: Vec<char>)
    ensures
        r@ == v@.reverse(),
{
    let n = v.len();
    let mut r: Vec<char> = Vec::new();
    let mut i: usize = 0;
    while i < n
        invariant
            i <= n,
            n == v@.len(),
            r@.len() == i,
            forall|j: int| 0 <= j < i ==> r@[j] == v@[n - 1 - j],
        decreases n - i,
    {
        r.push(v[n - 1 - i]);
        i = i + 1;
    }
    proof {
        assert(r@ =~= v@.reverse());
    }
    r
}

/// The upper-case hexadecimal rendering of a number, as characters.
pub fn hex_chars(n: u32) -> (r: Vec<char>)
    ensures
        r@ == hex_of(n as nat),
{
    let mut digits: Vec<char> = Vec::new();
    let mut m = n;
    if m == 0 {
        digits.push(hex_digit_char(0));
        proof {
            assert(digits@.reverse() =~= hex_of(0));
        }
    } else {
        while m > 0
            invariant
                m > 0 ==> hex_of(n as nat) == hex_of(m as nat) + digits@.reverse(),
                m == 0 ==> digits@.len() > 0 && hex_of(n as nat) == digits@.reverse(),
            decreases m,
        {
            let d = m % 16;
            let ghost old_digits = digits@;
            let ghost old_m = m as nat;
            digits.push(hex_digit_char(d));
            m = m / 16;
            proof {
                assert(digits@.reverse() =~= seq![hex_digit(old_m % 16)] + old_digits.reverse());
                if m > 0 {
                    assert(old_m >= 16);
                    assert(hex_of(old_m) == hex_of(old_m / 16).push(hex_digit(old_m % 16)));
                    assert(hex_of(old_m / 16) + digits@.reverse() =~= hex_of(old_m)
                        + old_digits.reverse());
                } else {
                    assert(old_m < 16);
                    assert(hex_of(old_m) =~= seq![hex_digit(old_m)]);
                    assert(digits@.reverse() =~= hex_of(old_m) + old_digits.reverse());
                }
            }
        }
    }
    reversed_chars(&digits)
}

/// Parses an upper- or lower-case hexadecimal numeral as a 32-bit value.
/// Returns the value exactly when the text is a well-formed hexadecimal
/// numeral whose value fits.
pub fn parse_hex_u32(v: &Vec<char>) -> (r: Option<u32>)
    ensures
        match r {
            Some(n) => is_hex_numeral(v@) && hex_num(v@) == n as nat,
            None => !(is_hex_numeral(v@) && hex_num(v@) <= u32::MAX),
        },
{
    let n = v.len();
    if n == 0 {
        return None;
    }
    let mut value: u32 = 0;
    let mut i: usize = 0;
    while i < n
        invariant
            i <= n,
            n == v@.len(),
            forall|j: int| 0 <= j < i ==> is_hex_digit(v@[j]),
            value as nat == hex_num(v@.take(i as int)),
        decreases n - i,
    {
        let c = v[i];
        let d: u32 = if '0' <= c && c <= '9' {
            (c as u32) - 48
        } else if 'A' <= c && c <= 'F' {
            (c as u32) - 55
        } else if 'a' <= c && c <= 'f' {
            (c as u32) - 87
        } else {
            proof {
                assert(!is_hex_digit(v@[i as int]));
            }
            return None;
        };
        proof {
            assert(is_hex_digit(v@[i as int]));
            assert(d as nat == hex_digit_val(v@[i as int]));
            assert(v@.take(i + 1).drop_last() =~= v@.take(i as int));
            assert(hex_num(v@.take(i + 1)) == hex_num(v@.take(i as int)) * 16 + hex_digit_val(
                v@[i as int],
            ));
        }
        if value >= 0x1000_0000 {
            proof {
                lemma_hex_num_grows(v@, i + 1);
                assert(hex_num(v@.take(i + 1)) >= value as nat * 16) by (nonlinear_arith)
                    requires
                        hex_num(v@.take(i + 1)) == value as nat * 16 + hex_digit_val(
                            v@[i as int],
                        ),
                ;
            }
            return None;
        }
        value = value * 16 + d;
        i = i + 1;
    }
    proof {
        assert(v@.take(n as int) =~= v@);
    }
    Some(value)
}

/// The value of a hexadecimal numeral never shrinks as more digits are
/// read.
proof fn lemma_hex_num_grows(s: Seq<char>, i: int)
    requires
        0 <= i <= s.len(),
    ensures
        hex_num(s) >= hex_num(s.take(i)),
    decreases s.len() - i,
{
    if i == s.len() {
        assert(s.take(i) =~= s);
    } else {
        lemma_hex_num_grows(s, i + 1);
        assert(s.take(i + 1).drop_last() =~= s.take(i));
        assert(hex_num(s.take(i + 1)) == hex_num(s.take(i)) * 16 + hex_digit_val(s[i]));
        assert(hex_num(s.take(i)) * 16 >= hex_num(s.take(i))) by (nonlinear_arith);
    }
}

/// The decimal digit character of a value below 10.
fn dec_digit_char(d: usize) -> (c: char)
    requires
        d < 10,
    ensures
        c == dec_digit(d as nat),
{
    ((d as u8) + 48) as char
}

/// The decimal rendering of a number, as characters.
pub fn dec_chars(n: usize) -> (r: Vec<char>)
    ensures
        r@ == dec_of(n as nat),
{
    let mut digits: Vec<char> = Vec::new();
    let mut m = n;
    if m == 0 {
        digits.push(dec_digit_char(0));
        proof {
            assert(digits@.reverse() =~= dec_of(0));
        }
    } else {
        while m > 0
            invariant
                m > 0 ==> dec_of(n as nat) == dec_of(m as nat) + digits@.reverse(),
                m == 0 ==> digits@.len() > 0 && dec_of(n as nat) == digits@.reverse(),
            decreases m,
        {
            let d = m % 10;
            let ghost old_digits = digits@;
            let ghost old_m = m as nat;
            digits.push(dec_digit_char(d));
            m = m / 10;
            proof {
                assert(digits@.reverse() =~= seq![dec_digit(old_m % 10)] + old_digits.reverse());
                if m > 0 {
                    assert(old_m >= 10);
                    assert(dec_of(old_m) == dec_of(old_m / 10).push(dec_digit(old_m % 10)));
                    assert(dec_of(old_m / 10) + digits@.reverse() =~= dec_of(old_m)
                        + old_digits.reverse());
                } else {
                    assert(old_m < 10);
                    assert(dec_of(old_m) =~= seq![dec_digit(old_m)]);
                    assert(digits@.reverse() =~= dec_of(old_m) + old_digits.reverse());
                }
            }
        }
    }
    reversed_chars(&digits)
}


/// The value of a hexadecimal digit character, if it is one.
pub(crate) fn hex_val_char(c: char) -> (r: Option<u32>)
    ensures
        match r {
            Some(d) => is_hex_digit(c) && d < 16 && d as nat == hex_digit_val(c),
            None => !is_hex_digit(c),
        },
{
    if '0' <= c && c <= '9' {
        Some((c as u32) - 48)
    } else if 'A' <= c && c <= 'F' {
        Some((c as u32) - 55)
    } else if 'a' <= c && c <= 'f' {
        Some((c as u32) - 87)
    } else {
        None
    }
}

} // verus!
