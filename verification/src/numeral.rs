//! Reading and writing integers as text, with the rules of std's
//! `from_str_radix` and of the `{:x}` / `{}` formats.
use vstd::prelude::*;
use crate::error::IntErrorKind;
use crate::text::{first_index, lemma_first_index, lemma_first_index_bound};

verus! {

/// The value of `c` as a digit in base `radix` (2 to 36), as `char::to_digit`
/// gives it.
pub open spec fn digit_of(c: char, radix: nat) -> Option<nat> {
    let v: nat = if '0' <= c && c <= '9' {
        (c as nat - '0' as nat) as nat
    } else if 'a' <= c && c <= 'z' {
        (c as nat - 'a' as nat + 10) as nat
    } else if 'A' <= c && c <= 'Z' {
        (c as nat - 'A' as nat + 10) as nat
    } else {
        radix
    };
    if v < radix {
        Some(v)
    } else {
        None
    }
}

/// Every character of `s` is a digit in base `radix`.
pub open spec fn all_digits(s: Seq<char>, radix: nat) -> bool {
    forall|i: int| 0 <= i < s.len() ==> #[trigger] digit_of(s[i], radix) is Some
}

/// The number that the digits `s` spell in base `radix`.
pub open spec fn digits_value(s: Seq<char>, radix: nat) -> nat
    decreases s.len(),
{
    if s.len() == 0 {
        0
    } else {
        digits_value(s.drop_last(), radix) * radix + match digit_of(s.last(), radix) {
            Some(d) => d,
            None => 0,
        }
    }
}

/// `s` with one leading `+` taken off, if it has one.
pub open spec fn without_plus(s: Seq<char>) -> Seq<char> {
    if s.len() > 0 && s[0] == '+' {
        s.drop_first()
    } else {
        s
    }
}

/// What std's unsigned `from_str_radix` accepts: an optional `+`, then one or
/// more digits, whose value is at most `max`.
pub open spec fn parse_unsigned(s: Seq<char>, radix: nat, max: nat) -> Option<nat> {
    if s.len() == 0 {
        None
    } else if s.len() == 1 && (s[0] == '+' || s[0] == '-') {
        None
    } else {
        let d = without_plus(s);
        if all_digits(d, radix) && digits_value(d, radix) <= max {
            Some(digits_value(d, radix))
        } else {
            None
        }
    }
}

/// What std's `i32::from_str` accepts: an optional sign, then one or more
/// decimal digits, whose signed value lies in the range of `i32`.
pub open spec fn parse_i32(s: Seq<char>) -> Option<int> {
    if s.len() == 0 {
        None
    } else if s.len() == 1 && (s[0] == '+' || s[0] == '-') {
        None
    } else if s[0] == '-' {
        let d = s.drop_first();
        if all_digits(d, 10) && digits_value(d, 10) <= 0x8000_0000 {
            Some(-(digits_value(d, 10) as int))
        } else {
            None
        }
    } else {
        match parse_unsigned(s, 10, 0x7fff_ffff) {
            Some(v) => Some(v as int),
            None => None,
        }
    }
}

proof fn lemma_digits_value_prefix(s: Seq<char>, radix: nat, k: int)
    requires
        0 <= k <= s.len(),
        radix >= 1,
    ensures
        digits_value(s.take(k), radix) <= digits_value(s, radix),
    decreases s.len() - k,
{
    if k < s.len() {
        lemma_digits_value_prefix(s, radix, k + 1);
        assert(s.take(k + 1).drop_last() == s.take(k));
        let v = digits_value(s.take(k), radix);
        assert(v * radix >= v) by (nonlinear_arith)
            requires
                radix >= 1,
        ;
    } else {
        assert(s.take(k) == s);
    }
}

/// The digit value of `c` in base `radix`, computed.
fn digit_exec(c: char, radix: u32) -> (r: Option<u32>)
    requires
        2 <= radix <= 36,
    ensures
        r matches Some(d) ==> digit_of(c, radix as nat) == Some(d as nat),
        r is None ==> digit_of(c, radix as nat) is None,
{
    let v: u32 = if '0' <= c && c <= '9' {
        (c as u32) - ('0' as u32)
    } else if 'a' <= c && c <= 'z' {
        (c as u32) - ('a' as u32) + 10
    } else if 'A' <= c && c <= 'Z' {
        (c as u32) - ('A' as u32) + 10
    } else {
        radix
    };
    if v < radix {
        Some(v)
    } else {
        None
    }
}

/// Index of the first character of `d` that is not a digit in base `radix`,
/// or `d.len()` when all are.
pub open spec fn nondigit_index(d: Seq<char>, radix: nat) -> int {
    first_index(d, |c: char| digit_of(c, radix) is None)
}

/// Whether std, reading the digits `d` one by one, goes past `max` before it
/// meets a character that is not a digit.
pub open spec fn overflows_first(d: Seq<char>, radix: nat, max: nat) -> bool {
    digits_value(d.take(nondigit_index(d, radix)), radix) > max
}

/// Why `s` is not an `i32`, as std's `i32::from_str` reports it.
pub open spec fn i32_error(s: Seq<char>) -> IntErrorKind {
    if s.len() == 0 {
        IntErrorKind::Empty
    } else if s.len() == 1 && (s[0] == '+' || s[0] == '-') {
        IntErrorKind::InvalidDigit
    } else if s[0] == '-' {
        if overflows_first(s.drop_first(), 10, 0x8000_0000) {
            IntErrorKind::NegOverflow
        } else {
            IntErrorKind::InvalidDigit
        }
    } else {
        if overflows_first(without_plus(s), 10, 0x7fff_ffff) {
            IntErrorKind::PosOverflow
        } else {
            IntErrorKind::InvalidDigit
        }
    }
}

/// The value of the digits `d[from..]` in base `radix` when they are all
/// digits and the value is at most `max`; otherwise whether the value went
/// past `max` before a character that is not a digit came.
fn digits_exec(d: &Vec<char>, from: usize, radix: u32, max: u64) -> (r: Result<u64, bool>)
    requires
        from <= d@.len(),
        2 <= radix <= 36,
    ensures
        ({
            let s = d@.skip(from as int);
            &&& r matches Ok(v) ==> all_digits(s, radix as nat) && digits_value(s, radix as nat)
                <= max && v == digits_value(s, radix as nat)
            &&& r is Err ==> !(all_digits(s, radix as nat) && digits_value(s, radix as nat)
                <= max)
            &&& r matches Err(o) ==> o == overflows_first(s, radix as nat, max as nat)
        }),
{
    let ghost s = d@.skip(from as int);
    let mut acc: u64 = 0;
    let mut i: usize = from;
    while i < d.len()
        invariant
            from <= i <= d@.len(),
            s == d@.skip(from as int),
            2 <= radix <= 36,
            all_digits(s.take(i - from), radix as nat),
            acc as nat == digits_value(s.take(i - from), radix as nat),
            acc <= max,
        decreases d.len() - i,
    {
        let ghost k: int = i - from;
        assert(s.take(k + 1).drop_last() == s.take(k));
        assert(s[k] == d@[i as int]);
        match digit_exec(d[i], radix) {
            None => {
                assert(digit_of(s[k], radix as nat) is None);
                proof {
                    assert forall|j: int| 0 <= j < k implies !(|c: char| digit_of(c, radix as nat) is None)(
                        #[trigger] s[j],
                    ) by {
                        assert(s.take(k)[j] == s[j]);
                    }
                    lemma_first_index(s, |c: char| digit_of(c, radix as nat) is None, k);
                }
                return Err(false);
            },
            Some(dig) => {
                assert((acc as u128) * (radix as u128) <= 0xffff_ffff_ffff_ffff_u128 * 36) by (nonlinear_arith)
                    requires
                        acc <= 0xffff_ffff_ffff_ffffu64,
                        radix <= 36,
                ;
                let prod: u128 = (acc as u128) * (radix as u128);
                let wide: u128 = prod + (dig as u128);
                assert(dig < radix);
                if wide > max as u128 {
                    proof {
                        if all_digits(s, radix as nat) {
                            lemma_digits_value_prefix(s, radix as nat, k + 1);
                        }
                        let p = |c: char| digit_of(c, radix as nat) is None;
                        lemma_first_index_bound(s, p);
                        let fi = first_index(s, p);
                        if fi <= k {
                            assert(s.take(k)[fi] == s[fi]);
                        }
                        lemma_digits_value_prefix(s.take(fi), radix as nat, k + 1);
                        assert(s.take(fi).take(k + 1) =~= s.take(k + 1));
                    }
                    return Err(true);
                }
                acc = wide as u64;
                assert forall|t: int| 0 <= t < k + 1 implies #[trigger] digit_of(
                    s.take(k + 1)[t],
                    radix as nat,
                ) is Some by {
                    if t < k {
                        assert(s.take(k + 1)[t] == s.take(k)[t]);
                    }
                }
            },
        }
        i = i + 1;
    }
    assert(s.take(d@.len() - from) == s);
    Ok(acc)
}

/// Parses `s` as std's unsigned `from_str_radix` does, with `max` the largest
/// value of the target type.
pub fn parse_unsigned_exec(s: &Vec<char>, radix: u32, max: u64) -> (r: Option<u64>)
    requires
        2 <= radix <= 36,
    ensures
        r matches Some(v) ==> parse_unsigned(s@, radix as nat, max as nat) == Some(v as nat),
        r is None ==> parse_unsigned(s@, radix as nat, max as nat) is None,
{
    if s.len() == 0 {
        return None;
    }
    if s.len() == 1 && (s[0] == '+' || s[0] == '-') {
        return None;
    }
    let from: usize = if s[0] == '+' {
        1
    } else {
        0
    };
    assert(without_plus(s@) == s@.skip(from as int));
    match digits_exec(s, from, radix, max) {
        Ok(v) => Some(v),
        Err(_) => None,
    }
}

/// Parses `s` as std's `i32::from_str` does, with the same kind of error.
pub fn parse_i32_exec(s: &Vec<char>) -> (r: Result<i32, IntErrorKind>)
    ensures
        r matches Ok(v) ==> parse_i32(s@) == Some(v as int),
        r is Err ==> parse_i32(s@) is None,
        r matches Err(k) ==> k == i32_error(s@),
{
    if s.len() == 0 {
        return Err(IntErrorKind::Empty);
    }
    if s.len() == 1 && (s[0] == '+' || s[0] == '-') {
        return Err(IntErrorKind::InvalidDigit);
    }
    if s[0] == '-' {
        assert(s@.drop_first() == s@.skip(1));
        match digits_exec(s, 1, 10, 0x8000_0000) {
            Ok(v) => {
                let r: i64 = 0 - (v as i64);
                Ok(r as i32)
            },
            Err(true) => Err(IntErrorKind::NegOverflow),
            Err(false) => Err(IntErrorKind::InvalidDigit),
        }
    } else {
        let from: usize = if s[0] == '+' {
            1
        } else {
            0
        };
        assert(without_plus(s@) == s@.skip(from as int));
        match digits_exec(s, from, 10, 0x7fff_ffff) {
            Ok(v) => Ok(v as i32),
            Err(true) => Err(IntErrorKind::PosOverflow),
            Err(false) => Err(IntErrorKind::InvalidDigit),
        }
    }
}

/// The character for the digit `d` (below 16), lower case.
pub open spec fn hex_char(d: nat) -> char {
    seq!['0', '1', '2', '3', '4', '5', '6', '7', '8', '9', 'a', 'b', 'c', 'd', 'e', 'f'][d as int]
}

/// `n` in base 16, lower case, without leading zeros: what `{:x}` prints.
pub open spec fn hex_lower(n: nat) -> Seq<char>
    decreases n,
{
    if n < 16 {
        seq![hex_char(n)]
    } else {
        hex_lower(n / 16).push(hex_char(n % 16))
    }
}

/// `n` in base 10, without leading zeros: what `{}` prints.
pub open spec fn decimal(n: nat) -> Seq<char>
    decreases n,
{
    if n < 10 {
        seq![hex_char(n)]
    } else {
        decimal(n / 10).push(hex_char(n % 10))
    }
}

fn digit_char(d: u64) -> (c: char)
    requires
        d < 16,
    ensures
        c == hex_char(d as nat),
{
    let table = ['0', '1', '2', '3', '4', '5', '6', '7', '8', '9', 'a', 'b', 'c', 'd', 'e', 'f'];
    assert(table@ == seq!['0', '1', '2', '3', '4', '5', '6', '7', '8', '9', 'a', 'b', 'c', 'd', 'e', 'f']);
    table[d as usize]
}

/// Appends `n` in lower-case hexadecimal to `out`.
pub fn push_hex(out: &mut Vec<char>, n: u64)
    ensures
        final(out)@ == old(out)@ + hex_lower(n as nat),
    decreases n,
{
    if n >= 16 {
        push_hex(out, n / 16);
    }
    let c = digit_char(n % 16);
    out.push(c);
    proof {
        if n >= 16 {
            assert(old(out)@ + hex_lower(n as nat) == (old(out)@ + hex_lower((n / 16) as nat)).push(c));
        } else {
            assert(old(out)@ + hex_lower(n as nat) == old(out)@.push(c));
        }
    }
}

/// Appends `n` in decimal to `out`.
pub fn push_decimal(out: &mut Vec<char>, n: u64)
    ensures
        final(out)@ == old(out)@ + decimal(n as nat),
    decreases n,
{
    if n >= 10 {
        push_decimal(out, n / 10);
    }
    let c = digit_char(n % 10);
    out.push(c);
    proof {
        if n >= 10 {
            assert(old(out)@ + decimal(n as nat) == (old(out)@ + decimal((n / 10) as nat)).push(c));
        } else {
            assert(old(out)@ + decimal(n as nat) == old(out)@.push(c));
        }
    }
}


proof fn lemma_hex_char_digit(d: nat)
    requires
        d < 16,
    ensures
        digit_of(hex_char(d), 16) == Some(d),
        hex_char(d) != '+' && hex_char(d) != '-',
{
    let table = seq!['0', '1', '2', '3', '4', '5', '6', '7', '8', '9', 'a', 'b', 'c', 'd', 'e', 'f'];
    assert(hex_char(d) == table[d as int]);
    if d < 10 {
        assert(table[d as int] as nat == '0' as nat + d) by {
            assert(table[0] == '0' && table[1] == '1' && table[2] == '2' && table[3] == '3'
                && table[4] == '4' && table[5] == '5' && table[6] == '6' && table[7] == '7'
                && table[8] == '8' && table[9] == '9');
        }
    } else {
        assert(table[d as int] as nat == 'a' as nat + d - 10) by {
            assert(table[10] == 'a' && table[11] == 'b' && table[12] == 'c' && table[13] == 'd'
                && table[14] == 'e' && table[15] == 'f');
        }
    }
}

/// Read back in base 16, the digits that `{:x}` prints for `n` give `n`.
pub proof fn law_hex_reads_back(n: nat)
    ensures
        hex_lower(n).len() >= 1,
        all_digits(hex_lower(n), 16),
        digits_value(hex_lower(n), 16) == n,
        hex_lower(n)[0] != '+' && hex_lower(n)[0] != '-',
    decreases n,
{
    if n < 16 {
        lemma_hex_char_digit(n);
        let s = hex_lower(n);
        assert(s.drop_last() =~= Seq::<char>::empty());
        assert(s.last() == hex_char(n));
        assert(digits_value(s, 16) == digits_value(s.drop_last(), 16) * 16 + n);
    } else {
        law_hex_reads_back(n / 16);
        lemma_hex_char_digit(n % 16);
        let prev = hex_lower(n / 16);
        let s = hex_lower(n);
        assert(s == prev.push(hex_char(n % 16)));
        assert(s.drop_last() =~= prev);
        assert forall|i: int| 0 <= i < s.len() implies #[trigger] digit_of(s[i], 16) is Some by {
            if i < prev.len() {
                assert(s[i] == prev[i]);
            }
        }
        assert(s[0] == prev[0]);
        assert(s.last() == hex_char(n % 16));
        assert(digits_value(s, 16) == digits_value(prev, 16) * 16 + n % 16);
        assert((n / 16) * 16 + n % 16 == n);
    }
}

} // verus!
