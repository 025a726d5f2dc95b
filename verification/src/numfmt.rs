//! Decimal formatting and parsing for the integers that cross the wire:
//! the record timestamp (partition key and payload field) and the page limit.

use vstd::prelude::*;

verus! {

/// The character for one decimal digit.
pub open spec fn digit_char(d: int) -> char {
    if d == 0 {
        '0'
    } else if d == 1 {
        '1'
    } else if d == 2 {
        '2'
    } else if d == 3 {
        '3'
    } else if d == 4 {
        '4'
    } else if d == 5 {
        '5'
    } else if d == 6 {
        '6'
    } else if d == 7 {
        '7'
    } else if d == 8 {
        '8'
    } else {
        '9'
    }
}

/// The decimal digits of a non-negative integer, most significant first,
/// with no leading zeros (a lone zero for 0).
pub open spec fn spec_udec(n: nat) -> Seq<char>
    decreases n,
{
    if n < 10 {
        seq![digit_char(n as int)]
    } else {
        spec_udec(n / 10) + seq![digit_char((n % 10) as int)]
    }
}

/// The decimal form of a (possibly negative) integer.
pub open spec fn spec_i64_dec(n: int) -> Seq<char> {
    if n < 0 {
        seq!['-'] + spec_udec((-n) as nat)
    } else {
        spec_udec(n as nat)
    }
}

fn digit_to_char(d: u64) -> (c: char)
    requires
        d < 10,
    ensures
        c == digit_char(d as int),
{
    match d {
        0 => '0',
        1 => '1',
        2 => '2',
        3 => '3',
        4 => '4',
        5 => '5',
        6 => '6',
        7 => '7',
        8 => '8',
        _ => '9',
    }
}

/// Appends the decimal digits of `n` to `out`.
pub fn push_udec(n: u64, out: &mut Vec<char>)
    ensures
        final(out)@ == old(out)@ + spec_udec(n as nat),
    decreases n,
{
    if n < 10 {
        out.push(digit_to_char(n));
    } else {
        push_udec(n / 10, out);
        out.push(digit_to_char(n % 10));
        assert(out@ =~= old(out)@ + spec_udec(n as nat));
    }
}

/// Appends the decimal form of `n` to `out`, with a leading minus sign when
/// `n` is negative.
pub fn push_i64_dec(n: i64, out: &mut Vec<char>)
    ensures
        final(out)@ == old(out)@ + spec_i64_dec(n as int),
{
    if n >= 0 {
        push_udec(n as u64, out);
    } else {
        out.push('-');
        let m: u64 = ((-(n + 1)) as u64) + 1;
        assert(m == -(n as int));
        push_udec(m, out);
        assert(out@ =~= old(out)@ + spec_i64_dec(n as int));
    }
}

/// The value of one decimal digit character, or -1 for any other.
pub open spec fn digit_val(c: char) -> int {
    if c == '0' {
        0
    } else if c == '1' {
        1
    } else if c == '2' {
        2
    } else if c == '3' {
        3
    } else if c == '4' {
        4
    } else if c == '5' {
        5
    } else if c == '6' {
        6
    } else if c == '7' {
        7
    } else if c == '8' {
        8
    } else if c == '9' {
        9
    } else {
        -1
    }
}

/// The k-th power of ten (1 for k at or below 0).
pub open spec fn tens(k: int) -> int
    decreases k,
{
    if k <= 0 {
        1
    } else {
        10 * tens(k - 1)
    }
}

pub proof fn lemma_tens_pos(k: int)
    ensures
        tens(k) >= 1,
    decreases k,
{
    if k > 0 {
        lemma_tens_pos(k - 1);
    }
}

pub proof fn lemma_tens_mono(a: int, b: int)
    requires
        a <= b,
    ensures
        tens(a) <= tens(b),
    decreases b - a,
{
    if a < b {
        lemma_tens_mono(a, b - 1);
        lemma_tens_pos(b - 1);
    }
}

/// The integer that the decimal digits `t` denote, read strictly: digits
/// only, at least one and at most nineteen of them (every value the encoder
/// emits fits in nineteen digits).
pub open spec fn spec_parse_udec(t: Seq<char>) -> Option<int>
    decreases t.len(),
{
    if t.len() == 0 || t.len() > 19 {
        None
    } else {
        let d = digit_val(t.last());
        if d < 0 {
            None
        } else if t.len() == 1 {
            Some(d)
        } else {
            match spec_parse_udec(t.drop_last()) {
                Some(v) => Some(v * 10 + d),
                None => None,
            }
        }
    }
}

/// The integer that `t` denotes, with an optional leading minus sign.
pub open spec fn spec_parse_i64_text(t: Seq<char>) -> Option<int> {
    if t.len() > 0 && t[0] == '-' {
        match spec_parse_udec(t.drop_first()) {
            Some(v) => Some(-v),
            None => None,
        }
    } else {
        spec_parse_udec(t)
    }
}

/// Two characters with the same code point are the same character.
proof fn lemma_char_code_eq(a: char, b: char)
    requires
        a as u32 == b as u32,
    ensures
        a == b,
{
}

/// A non-digit anywhere makes the strict read fail.
proof fn lemma_parse_udec_nondigit(t: Seq<char>, k: int)
    requires
        0 <= k < t.len(),
        digit_val(t[k]) < 0,
    ensures
        spec_parse_udec(t) is None,
    decreases t.len(),
{
    if t.len() == 0 || t.len() > 19 {
    } else if k == t.len() - 1 {
    } else {
        assert(t.drop_last()[k] == t[k]);
        lemma_parse_udec_nondigit(t.drop_last(), k);
    }
}

/// Reads the decimal value of `v[from..to]`, exactly as the strict grammar
/// defines it.
pub fn parse_udec_range(v: &Vec<char>, from: usize, to: usize) -> (r: Option<u64>)
    requires
        from <= to <= v@.len(),
    ensures
        match r {
            Some(n) => spec_parse_udec(v@.subrange(from as int, to as int)) == Some(n as int),
            None => spec_parse_udec(v@.subrange(from as int, to as int)) is None,
        },
{
    let ghost t = v@.subrange(from as int, to as int);
    let len = to - from;
    if len == 0 || len > 19 {
        return None;
    }
    proof {
        assert(tens(19) == 10_000_000_000_000_000_000) by {
            reveal_with_fuel(tens, 21);
        }
    }
    let mut acc: u64 = 0;
    let mut i: usize = 0;
    while i < len
        invariant
            from <= to <= v@.len(),
            len == to - from,
            1 <= len <= 19,
            t == v@.subrange(from as int, to as int),
            t.len() == len,
            0 <= i <= len,
            i > 0 ==> spec_parse_udec(t.take(i as int)) == Some(acc as int),
            i > 0 ==> acc < tens(i as int),
            i == 0 ==> acc == 0,
            tens(19) == 10_000_000_000_000_000_000,
        decreases len - i,
    {
        let c = v[from + i];
        proof {
            assert(c == t[i as int]);
        }
        let cv = c as u32;
        if !(48 <= cv && cv <= 57) {
            proof {
                assert(digit_val(t[i as int]) < 0);
                lemma_parse_udec_nondigit(t, i as int);
            }
            return None;
        }
        let d = (cv - 48) as u64;
        proof {
            assert(digit_val(t[i as int]) == d as int) by {
                if cv == 48 {
                    assert('0' as u32 == 48);
                    lemma_char_code_eq(c, '0');
                }
                else if cv == 49 {
                    assert('1' as u32 == 49);
                    lemma_char_code_eq(c, '1');
                }
                else if cv == 50 {
                    assert('2' as u32 == 50);
                    lemma_char_code_eq(c, '2');
                }
                else if cv == 51 {
                    assert('3' as u32 == 51);
                    lemma_char_code_eq(c, '3');
                }
                else if cv == 52 {
                    assert('4' as u32 == 52);
                    lemma_char_code_eq(c, '4');
                }
                else if cv == 53 {
                    assert('5' as u32 == 53);
                    lemma_char_code_eq(c, '5');
                }
                else if cv == 54 {
                    assert('6' as u32 == 54);
                    lemma_char_code_eq(c, '6');
                }
                else if cv == 55 {
                    assert('7' as u32 == 55);
                    lemma_char_code_eq(c, '7');
                }
                else if cv == 56 {
                    assert('8' as u32 == 56);
                    lemma_char_code_eq(c, '8');
                }
                else {
                    assert('9' as u32 == 57);
                    lemma_char_code_eq(c, '9');
                }
            }
            assert(t.take(i as int + 1).last() == t[i as int]);
            assert(t.take(i as int + 1).drop_last() =~= t.take(i as int));
            if i > 0 {
                assert(tens(i as int + 1) == 10 * tens(i as int));
                lemma_tens_mono(i as int + 1, 19);
                assert(acc * 10 + d < tens(i as int + 1));
            } else {
                assert(tens(1) == 10 * tens(0));
            }
        }
        if i == 0 {
            acc = d;
            proof {
                assert(spec_parse_udec(t.take(1)) == Some(d as int));
            }
        } else {
            acc = acc * 10 + d;
            proof {
                assert(spec_parse_udec(t.take(i as int + 1)) == Some(acc as int));
            }
        }
        i += 1;
    }
    proof {
        assert(t.take(len as int) =~= t);
    }
    Some(acc)
}

/// Reads the signed decimal value of `v[from..to]`; `None` when the text is
/// not a strict decimal or its value does not fit the timestamp's type.
pub fn parse_i64_range(v: &Vec<char>, from: usize, to: usize) -> (r: Option<i64>)
    requires
        from <= to <= v@.len(),
    ensures
        match r {
            Some(n) => spec_parse_i64_text(v@.subrange(from as int, to as int)) == Some(n as int),
            None => match spec_parse_i64_text(v@.subrange(from as int, to as int)) {
                Some(m) => m < i64::MIN || m > i64::MAX,
                None => true,
            },
        },
{
    let ghost t = v@.subrange(from as int, to as int);
    if to > from && v[from] == '-' {
        proof {
            assert(t[0] == '-');
            assert(v@.subrange(from as int + 1, to as int) =~= t.drop_first());
        }
        match parse_udec_range(v, from + 1, to) {
            Some(u) => {
                if u <= 0x8000_0000_0000_0000u64 {
                    let n: i64 = if u == 0x8000_0000_0000_0000u64 {
                        i64::MIN
                    } else {
                        -(u as i64)
                    };
                    Some(n)
                } else {
                    None
                }
            },
            None => None,
        }
    } else {
        proof {
            if t.len() > 0 {
                assert(t[0] == v@[from as int]);
            }
        }
        match parse_udec_range(v, from, to) {
            Some(u) => {
                if u <= 0x7fff_ffff_ffff_ffffu64 {
                    Some(u as i64)
                } else {
                    None
                }
            },
            None => None,
        }
    }
}

/// The strict read gives back exactly the digits the encoder wrote.
pub proof fn lemma_udec_len(n: nat, k: int)
    requires
        1 <= k,
        n < tens(k),
    ensures
        spec_udec(n).len() <= k,
    decreases n,
{
    if n < 10 {
    } else {
        assert(tens(k) == 10 * tens(k - 1));
        if k == 1 {
            assert(tens(1) == 10) by {
                reveal_with_fuel(tens, 3);
            }
            assert(false);
        }
        assert(10 * (n / 10) <= n);
        assert(n / 10 < tens(k - 1));
        lemma_udec_len(n / 10, k - 1);
    }
}

proof fn lemma_udec_first_digit(n: nat)
    ensures
        spec_udec(n).len() >= 1,
        digit_val(spec_udec(n)[0]) >= 0,
    decreases n,
{
    if n < 10 {
    } else {
        lemma_udec_first_digit(n / 10);
        assert(spec_udec(n)[0] == spec_udec(n / 10)[0]);
    }
}

proof fn lemma_udec_roundtrip(n: nat)
    requires
        n <= 0x8000_0000_0000_0000,
    ensures
        spec_parse_udec(spec_udec(n)) == Some(n as int),
    decreases n,
{
    assert(tens(19) == 10_000_000_000_000_000_000) by {
        reveal_with_fuel(tens, 21);
    }
    lemma_udec_len(n, 19);
    if n < 10 {
    } else {
        let s = spec_udec(n);
        assert(s == spec_udec(n / 10) + seq![digit_char((n % 10) as int)]);
        assert(s.drop_last() =~= spec_udec(n / 10));
        assert(s.last() == digit_char((n % 10) as int));
        lemma_udec_roundtrip(n / 10);
        assert(digit_val(digit_char((n % 10) as int)) == n % 10);
        assert(s.len() >= 2);
        assert(spec_parse_udec(s) == Some(((n / 10) * 10 + (n % 10)) as int));
        assert((n / 10) * 10 + (n % 10) == n);
    }
}

/// Decoding the decimal text the encoder wrote for a timestamp gives that
/// timestamp back.
pub proof fn lemma_i64_dec_roundtrip(n: int)
    requires
        i64::MIN <= n <= i64::MAX,
    ensures
        spec_parse_i64_text(spec_i64_dec(n)) == Some(n),
{
    if n >= 0 {
        lemma_udec_first_digit(n as nat);
        assert(spec_i64_dec(n)[0] != '-');
        lemma_udec_roundtrip(n as nat);
    } else {
        let m = (-n) as nat;
        let t = spec_i64_dec(n);
        assert(t == seq!['-'] + spec_udec(m));
        assert(t[0] == '-');
        assert(t.drop_first() =~= spec_udec(m));
        lemma_udec_roundtrip(m);
    }
}

/// The decimal form of `n` as a string.
pub fn i64_to_dec_string(n: i64) -> (r: String)
    ensures
        r@ == spec_i64_dec(n as int),
{
    let mut out: Vec<char> = Vec::new();
    push_i64_dec(n, &mut out);
    crate::chars_to_string(&out)
}

} // verus!
