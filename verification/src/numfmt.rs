//! Decimal rendering and parsing for the wire formats: integer attributes of
//! the CoT XML encoding, outbound mesh packets, and inbound azimuth text.
use vstd::prelude::*;

verus! {

/// The decimal digit character for `d` in `0 ..= 9`.
pub open spec fn digit_char(d: int) -> char {
    if d == 0 {
        '0'
    } else if d == 1 {
        '1'
    } else if d == 2 {
        '2'
    } else if d == 3 {
        '3'
    } else if d == 4 {
        '4'
    } else if d == 5 {
        '5'
    } else if d == 6 {
        '6'
    } else if d == 7 {
        '7'
    } else if d == 8 {
        '8'
    } else {
        '9'
    }
}

/// The decimal rendering of a nonnegative integer, most significant digit
/// first, with no leading zeros except for zero itself.
pub open spec fn dec_nat(n: nat) -> Seq<char>
    decreases n,
{
    if n < 10 {
        seq![digit_char(n as int)]
    } else {
        dec_nat(n / 10).push(digit_char((n % 10) as int))
    }
}

/// The decimal rendering of an integer: a minus sign for negative values,
/// then the digits, nothing else.
pub open spec fn dec_int(n: int) -> Seq<char> {
    if n < 0 {
        seq!['-'] + dec_nat((-n) as nat)
    } else {
        dec_nat(n as nat)
    }
}

fn digit_str(d: u32) -> (r: &'static str)
    requires
        d < 10,
    ensures
        r@ == seq![digit_char(d as int)],
{
    proof {
        reveal_strlit("0");
        reveal_strlit("1");
        reveal_strlit("2");
        reveal_strlit("3");
        reveal_strlit("4");
        reveal_strlit("5");
        reveal_strlit("6");
        reveal_strlit("7");
        reveal_strlit("8");
        reveal_strlit("9");
    }
    let r = if d == 0 {
        "0"
    } else if d == 1 {
        "1"
    } else if d == 2 {
        "2"
    } else if d == 3 {
        "3"
    } else if d == 4 {
        "4"
    } else if d == 5 {
        "5"
    } else if d == 6 {
        "6"
    } else if d == 7 {
        "7"
    } else if d == 8 {
        "8"
    } else {
        "9"
    };
    proof {
        assert(r@ =~= seq![digit_char(d as int)]);
    }
    r
}

/// Append the decimal rendering of `n` to `out`.
pub fn push_dec_u32(out: &mut String, n: u32)
    ensures
        final(out)@ == old(out)@ + dec_nat(n as nat),
    decreases n,
{
    if n < 10 {
        out.append(digit_str(n));
        proof {
            assert(final(out)@ =~= old(out)@ + dec_nat(n as nat));
        }
    } else {
        push_dec_u32(out, n / 10);
        out.append(digit_str(n % 10));
        proof {
            assert(final(out)@ =~= old(out)@ + dec_nat(n as nat));
        }
    }
}

/// Append the decimal rendering of `n`, sign included, to `out`.
pub fn push_dec_i32(out: &mut String, n: i32)
    ensures
        final(out)@ == old(out)@ + dec_int(n as int),
{
    if n >= 0 {
        push_dec_u32(out, n as u32);
    } else {
        proof {
            reveal_strlit("-");
        }
        out.append("-");
        let m64: i64 = -(n as i64);
        let m: u32 = m64 as u32;
        proof {
            assert(m == -(n as int));
        }
        push_dec_u32(out, m);
        proof {
            assert(final(out)@ =~= old(out)@ + dec_int(n as int));
        }
    }
}

/// ASCII code of the plus sign.
pub const PLUS: u8 = 43;

/// ASCII code of the minus sign.
pub const MINUS: u8 = 45;

/// Whether `b` is the ASCII code of a decimal digit.
pub open spec fn is_digit(b: u8) -> bool {
    48 <= b && b <= 57
}

/// Whether every byte of `s` is a decimal digit.
pub open spec fn all_digits(s: Seq<u8>) -> bool {
    forall|i: int| 0 <= i < s.len() ==> is_digit(#[trigger] s[i])
}

/// The value of a digit string, most significant digit first.
pub open spec fn digits_val(s: Seq<u8>) -> int
    decreases s.len(),
{
    if s.len() == 0 {
        0
    } else {
        digits_val(s.drop_last()) * 10 + (s.last() - 48)
    }
}

/// The digit bytes of `s`, a leading sign removed.
pub open spec fn digits_part(s: Seq<u8>) -> Seq<u8> {
    if s.len() > 0 && (s[0] == PLUS || s[0] == MINUS) {
        s.drop_first()
    } else {
        s
    }
}

/// The sign `s` carries: `-1` under a leading minus, else `1`.
pub open spec fn sign_of(s: Seq<u8>) -> int {
    if s.len() > 0 && s[0] == MINUS {
        -1
    } else {
        1
    }
}

/// The azimuth an inbound mesh text packet denotes: an optional sign, then
/// one or more decimal digits, valued in `i32` range; anything else is
/// rejected. Leading zeros are accepted, so `"042"` and `"42"` agree.
pub open spec fn parsed_azimuth(s: Seq<u8>) -> Option<i32> {
    let d = digits_part(s);
    if d.len() > 0 && all_digits(d) {
        let v = sign_of(s) * digits_val(d);
        if i32::MIN <= v <= i32::MAX {
            Some(v as i32)
        } else {
            None
        }
    } else {
        None
    }
}

proof fn lemma_digits_val_bounds(s: Seq<u8>, k: int)
    requires
        0 <= k <= s.len(),
        all_digits(s),
    ensures
        digits_val(s) >= digits_val(s.subrange(0, k)),
        digits_val(s) >= 0,
    decreases s.len(),
{
    if s.len() == k {
        assert(s.subrange(0, k) =~= s);
        lemma_digits_val_nonneg(s);
    } else {
        let head = s.drop_last();
        assert(all_digits(head));
        lemma_digits_val_bounds(head, k);
        assert(head.subrange(0, k) =~= s.subrange(0, k));
    }
}

proof fn lemma_digits_val_nonneg(s: Seq<u8>)
    requires
        all_digits(s),
    ensures
        digits_val(s) >= 0,
    decreases s.len(),
{
    if s.len() > 0 {
        assert(all_digits(s.drop_last()));
        lemma_digits_val_nonneg(s.drop_last());
        assert(is_digit(s.last()));
    }
}

/// Parse an inbound text payload as an integer azimuth, exactly as
/// [`parsed_azimuth`] describes; unparseable text yields `None`.
pub fn parse_azimuth(s: &[u8]) -> (r: Option<i32>)
    ensures
        r == parsed_azimuth(s@),
{
    let ghost d = digits_part(s@);
    let mut start: usize = 0;
    if s.len() > 0 && (s[0] == PLUS || s[0] == MINUS) {
        start = 1;
    }
    let neg: bool = s.len() > 0 && s[0] == MINUS;
    proof {
        assert(d =~= s@.subrange(start as int, s@.len() as int));
    }
    if start == s.len() {
        return None;
    }
    let mut i: usize = start;
    let mut acc: i64 = 0;
    while i < s.len()
        invariant
            start <= i <= s@.len(),
            start <= 1,
            d == digits_part(s@),
            d == s@.subrange(start as int, s@.len() as int),
            acc == digits_val(d.subrange(0, i - start)),
            0 <= acc <= 0x8000_0000,
            all_digits(d.subrange(0, i - start)),
        decreases s@.len() - i,
    {
        let b = s[i];
        if b < 48 || b > 57 {
            proof {
                assert(d[i - start] == s@[i as int]);
                assert(!is_digit(d[i - start]));
                assert(!all_digits(d));
            }
            return None;
        }
        let ghost j = i - start;
        proof {
            assert(d.subrange(0, j + 1).drop_last() =~= d.subrange(0, j));
            assert(d.subrange(0, j + 1).last() == d[j]);
            assert(d[j] == s@[i as int]);
        }
        acc = acc * 10 + ((b - 48) as i64);
        if acc > 0x8000_0000 {
            proof {
                assert(all_digits(d.subrange(0, j + 1)));
                lemma_digits_val_prefix_reject(d, j + 1, acc as int);
            }
            return None;
        }
        i += 1;
    }
    proof {
        assert(d.subrange(0, s@.len() - start) =~= d);
    }
    if neg {
        let v: i64 = -acc;
        proof {
            assert(sign_of(s@) * digits_val(d) == v);
        }
        Some(v as i32)
    } else {
        if acc <= 0x7fffffff {
            proof {
                assert(sign_of(s@) * digits_val(d) == acc);
            }
            Some(acc as i32)
        } else {
            proof {
                assert(sign_of(s@) * digits_val(d) > i32::MAX);
            }
            None
        }
    }
}

/// A rendered text as its byte sequence, character by character; all
/// renderings here are ASCII, so nothing truncates.
pub open spec fn char_bytes(s: Seq<char>) -> Seq<u8> {
    s.map_values(|c: char| c as u8)
}

proof fn lemma_dec_digits(n: nat)
    ensures
        char_bytes(dec_nat(n)).len() > 0,
        all_digits(char_bytes(dec_nat(n))),
        digits_val(char_bytes(dec_nat(n))) == n,
    decreases n,
{
    let bs = char_bytes(dec_nat(n));
    if n < 10 {
        assert(digit_char(n as int) as u8 == 48 + n);
        assert(bs =~= seq![(48 + n) as u8]);
        assert(bs.drop_last() =~= Seq::<u8>::empty());
        assert(digits_val(bs) == digits_val(bs.drop_last()) * 10 + (bs.last() - 48));
    } else {
        lemma_dec_digits(n / 10);
        let prev = char_bytes(dec_nat(n / 10));
        let d: u8 = (48 + n % 10) as u8;
        assert(digit_char((n % 10) as int) as u8 == 48 + n % 10);
        assert(bs =~= prev.push(d));
        assert(bs.drop_last() =~= prev);
        assert(digits_val(bs) == digits_val(bs.drop_last()) * 10 + (bs.last() - 48));
        assert(digits_val(bs) == (n / 10) * 10 + n % 10);
    }
}

/// The outbound and inbound directions of the azimuth codec agree: the
/// decimal text sent for an azimuth parses back to exactly that azimuth.
pub proof fn lemma_azimuth_round_trip(az: i32)
    ensures
        parsed_azimuth(char_bytes(dec_int(az as int))) == Some(az),
{
    let bs = char_bytes(dec_int(az as int));
    if az >= 0 {
        lemma_dec_digits(az as nat);
        assert(bs =~= char_bytes(dec_nat(az as nat)));
        assert(is_digit(bs[0]));
        assert(digits_part(bs) == bs);
        assert(sign_of(bs) == 1);
    } else {
        let m: nat = (-(az as int)) as nat;
        lemma_dec_digits(m);
        let ds = char_bytes(dec_nat(m));
        assert(bs =~= seq![45u8] + ds);
        assert(bs[0] == MINUS);
        assert(digits_part(bs) =~= ds);
        assert(sign_of(bs) == -1);
        assert(sign_of(bs) * digits_val(ds) == az);
    }
}

proof fn lemma_leading_zero_val(d: Seq<u8>)
    ensures
        digits_val(seq![48u8] + d) == digits_val(d),
    decreases d.len(),
{
    let whole = seq![48u8] + d;
    if d.len() == 0 {
        assert(whole =~= seq![48u8]);
        assert(whole.drop_last() =~= Seq::<u8>::empty());
        assert(whole.last() == 48);
        assert(digits_val(whole) == digits_val(whole.drop_last()) * 10 + (whole.last() - 48));
    } else {
        assert(whole.drop_last() =~= seq![48u8] + d.drop_last());
        assert(whole.last() == d.last());
        lemma_leading_zero_val(d.drop_last());
        assert(digits_val(whole) == digits_val(whole.drop_last()) * 10 + (whole.last() - 48));
        assert(digits_val(d) == digits_val(d.drop_last()) * 10 + (d.last() - 48));
    }
}

/// Prefixing a digit string with a zero does not change the azimuth it
/// parses to: inbound text such as `"042"` and `"42"` agree.
pub proof fn lemma_leading_zero_parse(d: Seq<u8>)
    requires
        d.len() > 0,
        all_digits(d),
    ensures
        parsed_azimuth(seq![48u8] + d) == parsed_azimuth(d),
{
    let whole = seq![48u8] + d;
    assert(is_digit(48));
    assert forall|i: int| 0 <= i < whole.len() implies is_digit(#[trigger] whole[i]) by {
        if i > 0 {
            assert(whole[i] == d[i - 1]);
        }
    }
    assert(digits_part(whole) == whole);
    assert(digits_part(d) == d);
    assert(sign_of(whole) == 1 && sign_of(d) == 1);
    lemma_leading_zero_val(d);
}

proof fn lemma_digits_val_prefix_reject(d: Seq<u8>, k: int, v: int)
    requires
        0 < k <= d.len(),
        all_digits(d.subrange(0, k)),
        digits_val(d.subrange(0, k)) == v,
        v > 0x8000_0000,
    ensures
        !all_digits(d) || digits_val(d) > 0x8000_0000,
{
    if all_digits(d) {
        lemma_digits_val_bounds(d, k);
    }
}

} // verus!
