//! The broker wire format of a canonical record: a JSON object
//! `{"title":...,"content":...,"timestamp":...}` with the two strings
//! escaped, and its strict decoder. Encoding then decoding gives the record
//! back exactly.

use vstd::prelude::*;

use crate::numfmt::{
    spec_i64_dec, spec_parse_i64_text, lemma_i64_dec_roundtrip, push_i64_dec, parse_i64_range,
};
use crate::RedditPost;

verus! {

/// The character for one hexadecimal digit (lower case).
pub open spec fn hex_digit(d: int) -> char {
    if d == 0 {
        '0'
    } else if d == 1 {
        '1'
    } else if d == 2 {
        '2'
    } else if d == 3 {
        '3'
    } else if d == 4 {
        '4'
    } else if d == 5 {
        '5'
    } else if d == 6 {
        '6'
    } else if d == 7 {
        '7'
    } else if d == 8 {
        '8'
    } else if d == 9 {
        '9'
    } else if d == 10 {
        'a'
    } else if d == 11 {
        'b'
    } else if d == 12 {
        'c'
    } else if d == 13 {
        'd'
    } else if d == 14 {
        'e'
    } else {
        'f'
    }
}

/// The value of one hexadecimal digit character, or -1 for any other.
pub open spec fn hex_val(c: char) -> int {
    if c == '0' {
        0
    } else if c == '1' {
        1
    } else if c == '2' {
        2
    } else if c == '3' {
        3
    } else if c == '4' {
        4
    } else if c == '5' {
        5
    } else if c == '6' {
        6
    } else if c == '7' {
        7
    } else if c == '8' {
        8
    } else if c == '9' {
        9
    } else if c == 'a' {
        10
    } else if c == 'b' {
        11
    } else if c == 'c' {
        12
    } else if c == 'd' {
        13
    } else if c == 'e' {
        14
    } else if c == 'f' {
        15
    } else {
        -1
    }
}

/// How one character appears inside a JSON string literal: quote and
/// backslash escaped, a control character as `\u00XX`, anything else as
/// itself.
pub open spec fn spec_escape_char(c: char) -> Seq<char> {
    if c == '"' {
        seq!['\\', '"']
    } else if c == '\\' {
        seq!['\\', '\\']
    } else if (c as u32) < 32 {
        seq!['\\', 'u', '0', '0', hex_digit(c as u32 as int / 16), hex_digit(c as u32 as int % 16)]
    } else {
        seq![c]
    }
}

/// How a whole string appears inside a JSON string literal.
pub open spec fn spec_escape(s: Seq<char>) -> Seq<char>
    decreases s.len(),
{
    if s.len() == 0 {
        Seq::empty()
    } else {
        spec_escape_char(s[0]) + spec_escape(s.drop_first())
    }
}

/// Escaping a string one character longer appends that character's escape.
pub proof fn lemma_escape_push(s: Seq<char>, c: char)
    ensures
        spec_escape(s.push(c)) == spec_escape(s) + spec_escape_char(c),
    decreases s.len(),
{
    if s.len() == 0 {
        assert(s.push(c).len() == 1);
        assert(s.push(c)[0] == c);
        assert(s.push(c).drop_first() =~= Seq::<char>::empty());
        assert(spec_escape(s.push(c)) == spec_escape_char(c) + spec_escape(
            s.push(c).drop_first(),
        ));
        assert(spec_escape(s.push(c)) =~= spec_escape(s) + spec_escape_char(c));
    } else {
        assert(s.push(c)[0] == s[0]);
        assert(s.push(c).drop_first() =~= s.drop_first().push(c));
        lemma_escape_push(s.drop_first(), c);
        assert(spec_escape(s.push(c)) == spec_escape_char(s[0]) + spec_escape(
            s.drop_first().push(c),
        ));
        assert(spec_escape(s.push(c)) =~= spec_escape(s) + spec_escape_char(c));
    }
}

fn hex_digit_char(d: u8) -> (c: char)
    requires
        d < 16,
    ensures
        c == hex_digit(d as int),
{
    match d {
        0 => '0',
        1 => '1',
        2 => '2',
        3 => '3',
        4 => '4',
        5 => '5',
        6 => '6',
        7 => '7',
        8 => '8',
        9 => '9',
        10 => 'a',
        11 => 'b',
        12 => 'c',
        13 => 'd',
        14 => 'e',
        _ => 'f',
    }
}

/// Appends the escaped form of `s` to `out`.
fn push_escaped(s: &Vec<char>, out: &mut Vec<char>)
    ensures
        final(out)@ == old(out)@ + spec_escape(s@),
{
    let n = s.len();
    let mut i: usize = 0;
    proof {
        assert(s@.take(0) =~= Seq::<char>::empty());
        assert(out@ =~= out@ + spec_escape(s@.take(0)));
    }
    while i < n
        invariant
            n == s@.len(),
            0 <= i <= n,
            out@ == old(out)@ + spec_escape(s@.take(i as int)),
        decreases n - i,
    {
        let c = s[i];
        if c == '"' {
            out.push('\\');
            out.push('"');
        } else if c == '\\' {
            out.push('\\');
            out.push('\\');
        } else if (c as u32) < 32 {
            let v = c as u32;
            out.push('\\');
            out.push('u');
            out.push('0');
            out.push('0');
            out.push(hex_digit_char((v / 16) as u8));
            out.push(hex_digit_char((v % 16) as u8));
        } else {
            out.push(c);
        }
        proof {
            assert(s@.take(i as int).push(s@[i as int]) =~= s@.take(i as int + 1));
            lemma_escape_push(s@.take(i as int), s@[i as int]);
            assert(out@ =~= old(out)@ + spec_escape(s@.take(i as int + 1)));
        }
        i += 1;
    }
    proof {
        assert(s@.take(n as int) =~= s@);
    }
}

/// The opening of the payload object, up to the title's opening quote.
pub open spec fn lit_open() -> Seq<char> {
    seq!['{', '"', 't', 'i', 't', 'l', 'e', '"', ':', '"']
}

/// Between the title's closing quote and the content's opening quote.
pub open spec fn lit_mid_content() -> Seq<char> {
    seq![',', '"', 'c', 'o', 'n', 't', 'e', 'n', 't', '"', ':', '"']
}

/// Between the content's closing quote and the timestamp's digits.
pub open spec fn lit_mid_timestamp() -> Seq<char> {
    seq![',', '"', 't', 'i', 'm', 'e', 's', 't', 'a', 'm', 'p', '"', ':']
}

/// The broker payload of a record with these fields.
pub open spec fn spec_encode_record(title: Seq<char>, content: Seq<char>, ts: int) -> Seq<char> {
    lit_open() + spec_escape(title) + seq!['"'] + lit_mid_content() + spec_escape(content)
        + seq!['"'] + lit_mid_timestamp() + spec_i64_dec(ts) + seq!['}']
}

fn push_lit_open(out: &mut Vec<char>)
    ensures
        final(out)@ == old(out)@ + lit_open(),
{
    out.push('{');
    out.push('"');
    out.push('t');
    out.push('i');
    out.push('t');
    out.push('l');
    out.push('e');
    out.push('"');
    out.push(':');
    out.push('"');
    proof {
        assert(out@ =~= old(out)@ + lit_open());
    }
}

fn push_lit_mid_content(out: &mut Vec<char>)
    ensures
        final(out)@ == old(out)@ + lit_mid_content(),
{
    out.push(',');
    out.push('"');
    out.push('c');
    out.push('o');
    out.push('n');
    out.push('t');
    out.push('e');
    out.push('n');
    out.push('t');
    out.push('"');
    out.push(':');
    out.push('"');
    proof {
        assert(out@ =~= old(out)@ + lit_mid_content());
    }
}

fn push_lit_mid_timestamp(out: &mut Vec<char>)
    ensures
        final(out)@ == old(out)@ + lit_mid_timestamp(),
{
    out.push(',');
    out.push('"');
    out.push('t');
    out.push('i');
    out.push('m');
    out.push('e');
    out.push('s');
    out.push('t');
    out.push('a');
    out.push('m');
    out.push('p');
    out.push('"');
    out.push(':');
    proof {
        assert(out@ =~= old(out)@ + lit_mid_timestamp());
    }
}

/// Serializes a record to its broker payload.
pub fn encode_record(r: &RedditPost) -> (s: String)
    ensures
        s@ == spec_encode_record(r.title@, r.content@, r.timestamp as int),
{
    let title_chars = crate::str_to_chars(r.title.as_str());
    let content_chars = crate::str_to_chars(r.content.as_str());
    let mut out: Vec<char> = Vec::new();
    push_lit_open(&mut out);
    push_escaped(&title_chars, &mut out);
    out.push('"');
    push_lit_mid_content(&mut out);
    push_escaped(&content_chars, &mut out);
    out.push('"');
    push_lit_mid_timestamp(&mut out);
    push_i64_dec(r.timestamp, &mut out);
    out.push('}');
    proof {
        assert(out@ =~= spec_encode_record(r.title@, r.content@, r.timestamp as int));
    }
    crate::chars_to_string(&out)
}

/// Whether `c` is a lower-case hexadecimal digit.
pub open spec fn is_hex(c: char) -> bool {
    hex_val(c) >= 0
}

/// Scans a JSON string literal's body from position `i` to its closing
/// quote: the content with escapes undone, and the position just past the
/// quote. Only the escapes the encoder writes are accepted.
pub open spec fn spec_scan(s: Seq<char>, i: int) -> Option<(Seq<char>, int)>
    decreases s.len() - i,
{
    if i < 0 || i >= s.len() {
        None
    } else if s[i] == '"' {
        Some((Seq::empty(), i + 1))
    } else if s[i] == '\\' {
        if i + 1 < s.len() && (s[i + 1] == '"' || s[i + 1] == '\\') {
            match spec_scan(s, i + 2) {
                Some(p) => Some((seq![s[i + 1]] + p.0, p.1)),
                None => None,
            }
        } else if i + 5 < s.len() && s[i + 1] == 'u' && s[i + 2] == '0' && s[i + 3] == '0'
            && is_hex(s[i + 4]) && is_hex(s[i + 5]) && hex_val(s[i + 4]) * 16 + hex_val(s[i + 5])
            < 32 {
            match spec_scan(s, i + 6) {
                Some(p) => Some(
                    (seq![((hex_val(s[i + 4]) * 16 + hex_val(s[i + 5])) as u8) as char] + p.0, p.1),
                ),
                None => None,
            }
        } else {
            None
        }
    } else {
        match spec_scan(s, i + 1) {
            Some(p) => Some((seq![s[i]] + p.0, p.1)),
            None => None,
        }
    }
}

/// Two characters with the same code point are the same character.
proof fn lemma_char_code_eq(a: char, b: char)
    requires
        a as u32 == b as u32,
    ensures
        a == b,
{
}

fn hex_val_exec(c: char) -> (r: Option<u8>)
    ensures
        match r {
            Some(d) => hex_val(c) == d as int && d < 16,
            None => hex_val(c) < 0,
        },
{
    let cv = c as u32;
    if 48 <= cv && cv <= 57 {
        proof {
            assert(hex_val(c) == cv - 48) by {
                if cv == 48 {
                    lemma_char_code_eq(c, '0');
                } else if cv == 49 {
                    lemma_char_code_eq(c, '1');
                } else if cv == 50 {
                    lemma_char_code_eq(c, '2');
                } else if cv == 51 {
                    lemma_char_code_eq(c, '3');
                } else if cv == 52 {
                    lemma_char_code_eq(c, '4');
                } else if cv == 53 {
                    lemma_char_code_eq(c, '5');
                } else if cv == 54 {
                    lemma_char_code_eq(c, '6');
                } else if cv == 55 {
                    lemma_char_code_eq(c, '7');
                } else if cv == 56 {
                    lemma_char_code_eq(c, '8');
                } else {
                    lemma_char_code_eq(c, '9');
                }
            }
        }
        Some((cv - 48) as u8)
    } else if 97 <= cv && cv <= 102 {
        proof {
            assert(hex_val(c) == cv - 87) by {
                if cv == 97 {
                    lemma_char_code_eq(c, 'a');
                } else if cv == 98 {
                    lemma_char_code_eq(c, 'b');
                } else if cv == 99 {
                    lemma_char_code_eq(c, 'c');
                } else if cv == 100 {
                    lemma_char_code_eq(c, 'd');
                } else if cv == 101 {
                    lemma_char_code_eq(c, 'e');
                } else {
                    lemma_char_code_eq(c, 'f');
                }
            }
        }
        Some((cv - 87) as u8)
    } else {
        None
    }
}

/// A successful scan always moves forward and never past the end.
proof fn lemma_scan_bounds(s: Seq<char>, i: int)
    ensures
        match spec_scan(s, i) {
            Some(p) => i < p.1 <= s.len(),
            None => true,
        },
    decreases s.len() - i,
{
    if i < 0 || i >= s.len() {
    } else if s[i] == '"' {
    } else if s[i] == '\\' {
        if i + 1 < s.len() && (s[i + 1] == '"' || s[i + 1] == '\\') {
            lemma_scan_bounds(s, i + 2);
        } else if i + 5 < s.len() && s[i + 1] == 'u' && s[i + 2] == '0' && s[i + 3] == '0'
            && is_hex(s[i + 4]) && is_hex(s[i + 5]) && hex_val(s[i + 4]) * 16 + hex_val(s[i + 5])
            < 32 {
            lemma_scan_bounds(s, i + 6);
        } else {
        }
    } else {
        lemma_scan_bounds(s, i + 1);
    }
}

/// Undoes the escaping of a string literal's body, from `start` up to its
/// closing quote.
fn scan_string(v: &Vec<char>, start: usize) -> (r: Option<(Vec<char>, usize)>)
    requires
        start <= v@.len(),
    ensures
        match r {
            Some(p) => spec_scan(v@, start as int) == Some((p.0@, p.1 as int)) && start < p.1
                <= v@.len(),
            None => spec_scan(v@, start as int) is None,
        },
{
    let n = v.len();
    let mut out: Vec<char> = Vec::new();
    let mut i: usize = start;
    proof {
        lemma_scan_bounds(v@, start as int);
        if let Some(p) = spec_scan(v@, start as int) {
            assert(out@ + p.0 =~= p.0);
        }
    }
    loop
        invariant
            start <= i <= n,
            n == v@.len(),
            match spec_scan(v@, i as int) {
                Some(p) => spec_scan(v@, start as int) == Some((out@ + p.0, p.1)) && i < p.1 <= n,
                None => spec_scan(v@, start as int) is None,
            },
        decreases n - i,
    {
        if i >= n {
            return None;
        }
        let c = v[i];
        if c == '"' {
            proof {
                assert(out@ + Seq::<char>::empty() =~= out@);
            }
            return Some((out, i + 1));
        } else if c == '\\' {
            if i + 1 >= n {
                return None;
            }
            let e = v[i + 1];
            if e == '"' || e == '\\' {
                let ghost prev = out@;
                out.push(e);
                proof {
                    lemma_scan_bounds(v@, i as int + 2);
                    if let Some(p) = spec_scan(v@, i as int + 2) {
                        assert(out@ + p.0 =~= prev + (seq![e] + p.0));
                    }
                }
                i = i + 2;
            } else if e == 'u' {
                if n - i <= 5 {
                    return None;
                }
                if !(v[i + 2] == '0' && v[i + 3] == '0') {
                    return None;
                }
                let h1 = match hex_val_exec(v[i + 4]) {
                    Some(d) => d,
                    None => {
                        return None;
                    },
                };
                let h2 = match hex_val_exec(v[i + 5]) {
                    Some(d) => d,
                    None => {
                        return None;
                    },
                };
                let hv = h1 * 16 + h2;
                if hv >= 32 {
                    return None;
                }
                let ghost prev = out@;
                out.push(hv as char);
                proof {
                    lemma_scan_bounds(v@, i as int + 6);
                    if let Some(p) = spec_scan(v@, i as int + 6) {
                        assert(out@ + p.0 =~= prev + (seq![hv as char] + p.0));
                    }
                }
                i = i + 6;
            } else {
                return None;
            }
        } else {
            let ghost prev = out@;
            out.push(c);
            proof {
                lemma_scan_bounds(v@, i as int + 1);
                if let Some(p) = spec_scan(v@, i as int + 1) {
                    assert(out@ + p.0 =~= prev + (seq![c] + p.0));
                }
            }
            i = i + 1;
        }
    }
}

/// Whether `p` stands in `s` at position `i`.
pub open spec fn prefix_at(s: Seq<char>, i: int, p: Seq<char>) -> bool {
    0 <= i && i + p.len() <= s.len() && forall|k: int|
        0 <= k < p.len() ==> s[i + k] == #[trigger] p[k]
}

fn match_at(v: &Vec<char>, i: usize, pat: &Vec<char>) -> (b: bool)
    ensures
        b == prefix_at(v@, i as int, pat@),
{
    let n = v.len();
    let m = pat.len();
    if i > n || m > n - i {
        return false;
    }
    let mut k: usize = 0;
    while k < m
        invariant
            n == v@.len(),
            m == pat@.len(),
            i + m <= n,
            0 <= k <= m,
            forall|j: int| 0 <= j < k ==> v@[i + j] == #[trigger] pat@[j],
        decreases m - k,
    {
        if v[i + k] != pat[k] {
            return false;
        }
        k += 1;
    }
    true
}

/// What the strict decoder reads out of a broker payload: the title, the
/// content, and the timestamp, or nothing when the text is not a payload the
/// encoder writes.
pub open spec fn spec_decode_record(s: Seq<char>) -> Option<(Seq<char>, Seq<char>, int)> {
    if !prefix_at(s, 0, lit_open()) {
        None
    } else {
        match spec_scan(s, 10) {
            None => None,
            Some(pt) => {
                if !prefix_at(s, pt.1, lit_mid_content()) {
                    None
                } else {
                    match spec_scan(s, pt.1 + 12) {
                        None => None,
                        Some(pc) => {
                            if !prefix_at(s, pc.1, lit_mid_timestamp()) {
                                None
                            } else if s.len() <= pc.1 + 13 {
                                None
                            } else if s[s.len() - 1] != '}' {
                                None
                            } else {
                                match spec_parse_i64_text(s.subrange(pc.1 + 13, s.len() - 1)) {
                                    Some(m) => if i64::MIN <= m <= i64::MAX {
                                        Some((pt.0, pc.0, m))
                                    } else {
                                        None
                                    },
                                    None => None,
                                }
                            }
                        },
                    }
                }
            },
        }
    }
}

fn lit_open_vec() -> (r: Vec<char>)
    ensures
        r@ == lit_open(),
{
    let mut out: Vec<char> = Vec::new();
    push_lit_open(&mut out);
    proof {
        assert(out@ =~= lit_open());
    }
    out
}

fn lit_mid_content_vec() -> (r: Vec<char>)
    ensures
        r@ == lit_mid_content(),
{
    let mut out: Vec<char> = Vec::new();
    push_lit_mid_content(&mut out);
    proof {
        assert(out@ =~= lit_mid_content());
    }
    out
}

fn lit_mid_timestamp_vec() -> (r: Vec<char>)
    ensures
        r@ == lit_mid_timestamp(),
{
    let mut out: Vec<char> = Vec::new();
    push_lit_mid_timestamp(&mut out);
    proof {
        assert(out@ =~= lit_mid_timestamp());
    }
    out
}

/// Deserializes a broker payload back into a record; `None` exactly when the
/// text is not a payload the strict wire grammar accepts.
pub fn decode_record(s: &str) -> (r: Option<RedditPost>)
    ensures
        match r {
            Some(rec) => spec_decode_record(s@) == Some(
                (rec.title@, rec.content@, rec.timestamp as int),
            ),
            None => spec_decode_record(s@) is None,
        },
{
    let v = crate::str_to_chars(s);
    let open = lit_open_vec();
    if !match_at(&v, 0, &open) {
        return None;
    }
    let (title_chars, a) = match scan_string(&v, 10) {
        Some(p) => p,
        None => {
            return None;
        },
    };
    let mid1 = lit_mid_content_vec();
    if !match_at(&v, a, &mid1) {
        return None;
    }
    let (content_chars, b) = match scan_string(&v, a + 12) {
        Some(p) => p,
        None => {
            return None;
        },
    };
    let mid2 = lit_mid_timestamp_vec();
    if !match_at(&v, b, &mid2) {
        return None;
    }
    if v.len() - b <= 13 {
        return None;
    }
    let endpos = v.len() - 1;
    if v[endpos] != '}' {
        return None;
    }
    let ts = match parse_i64_range(&v, b + 13, endpos) {
        Some(n) => n,
        None => {
            return None;
        },
    };
    Some(
        RedditPost {
            title: crate::chars_to_string(&title_chars),
            content: crate::chars_to_string(&content_chars),
            timestamp: ts,
        },
    )
}

proof fn lemma_prefix_from_subrange(s: Seq<char>, i: int, p: Seq<char>)
    requires
        0 <= i,
        i + p.len() <= s.len(),
        s.subrange(i, i + p.len()) == p,
    ensures
        prefix_at(s, i, p),
{
    assert forall|k: int| 0 <= k < p.len() implies s[i + k] == #[trigger] p[k] by {
        assert(s.subrange(i, i + p.len())[k] == s[i + k]);
    }
}

/// Scanning an escaped string followed by its closing quote yields the
/// string back and stops just past the quote.
proof fn lemma_scan_escape(s: Seq<char>, i: int, t: Seq<char>)
    requires
        prefix_at(s, i, spec_escape(t) + seq!['"']),
    ensures
        spec_scan(s, i) == Some((t, i + spec_escape(t).len() + 1)),
    decreases t.len(),
{
    let e = spec_escape(t) + seq!['"'];
    if t.len() == 0 {
        assert(spec_escape(t).len() == 0);
        assert(s[i + 0] == e[0]);
        assert(s[i] == '"');
        assert(t =~= Seq::<char>::empty());
    } else {
        let c = t[0];
        let t2 = t.drop_first();
        assert(spec_escape(t) == spec_escape_char(c) + spec_escape(t2));
        let ec = spec_escape_char(c);
        let e2 = spec_escape(t2) + seq!['"'];
        assert(e.len() == ec.len() + e2.len());
        assert forall|k: int| 0 <= k < ec.len() implies s[i + k] == ec[k] by {
            assert(e[k] == ec[k]);
            assert(s[i + k] == e[k]);
        }
        assert(prefix_at(s, i + ec.len(), e2)) by {
            assert forall|k: int| 0 <= k < e2.len() implies s[i + ec.len() + k] == #[trigger] e2[k]
            by {
                assert(e[ec.len() + k] == e2[k]);
                assert(s[i + (ec.len() + k)] == e[ec.len() + k]);
                assert(i + ec.len() + k == i + (ec.len() + k));
            }
        }
        lemma_scan_escape(s, i + ec.len(), t2);
        if c == '"' {
            assert(s[i] == '\\' && s[i + 1] == '"');
            assert(i + 2 <= s.len());
            assert(spec_scan(s, i) == Some((seq![s[i + 1]] + t2, i + 2 + spec_escape(t2).len() + 1)));
            assert(seq![s[i + 1]] + t2 =~= t);
        } else if c == '\\' {
            assert(s[i] == '\\' && s[i + 1] == '\\');
            assert(spec_scan(s, i) == Some((seq![s[i + 1]] + t2, i + 2 + spec_escape(t2).len() + 1)));
            assert(seq![s[i + 1]] + t2 =~= t);
        } else if (c as u32) < 32 {
            let hv = c as u32 as int;
            assert(s[i] == '\\' && s[i + 1] == 'u' && s[i + 2] == '0' && s[i + 3] == '0');
            assert(s[i + 4] == hex_digit(hv / 16) && s[i + 5] == hex_digit(hv % 16));
            assert(hex_val(hex_digit(hv / 16)) == hv / 16);
            assert(hex_val(hex_digit(hv % 16)) == hv % 16);
            assert(is_hex(s[i + 4]) && is_hex(s[i + 5]));
            assert(hex_val(s[i + 4]) * 16 + hex_val(s[i + 5]) == hv);
            assert(((hv as u8) as char) as u32 == c as u32);
            lemma_char_code_eq((hv as u8) as char, c);
            assert(spec_scan(s, i) == Some((seq![c] + t2, i + 6 + spec_escape(t2).len() + 1)));
            assert(seq![c] + t2 =~= t);
        } else {
            assert(ec == seq![c]);
            assert(s[i + 0] == ec[0]);
            assert(s[i] == c);
            assert(spec_scan(s, i) == Some((seq![s[i]] + t2, i + 1 + spec_escape(t2).len() + 1)));
            assert(seq![s[i]] + t2 =~= t);
        }
    }
}

/// A canonical record published to the broker and deserialized from the
/// payload yields the same title, the same content, and the same timestamp.
#[verifier::rlimit(100)]
pub proof fn lemma_record_round_trip(title: Seq<char>, content: Seq<char>, ts: int)
    requires
        i64::MIN <= ts <= i64::MAX,
    ensures
        spec_decode_record(spec_encode_record(title, content, ts)) == Some((title, content, ts)),
{
    let s = spec_encode_record(title, content, ts);
    let et = spec_escape(title);
    let ec = spec_escape(content);
    let num = spec_i64_dec(ts);
    let a: int = 10 + et.len() as int + 1;
    let b: int = a + 12 + ec.len() + 1;
    assert(s.len() == b + 13 + num.len() + 1);
    assert(num.len() >= 1) by {
        if ts >= 0 {
        } else {
        }
    }
    assert(s.subrange(0, 10) =~= lit_open());
    lemma_prefix_from_subrange(s, 0, lit_open());
    assert(s.subrange(10, 10 + et.len() as int + 1) =~= et + seq!['"']);
    lemma_prefix_from_subrange(s, 10, et + seq!['"']);
    lemma_scan_escape(s, 10, title);
    assert(spec_scan(s, 10) == Some((title, a)));
    assert(s.subrange(a, a + 12) =~= lit_mid_content());
    lemma_prefix_from_subrange(s, a, lit_mid_content());
    assert(s.subrange(a + 12, a + 12 + ec.len() + 1) =~= ec + seq!['"']);
    lemma_prefix_from_subrange(s, a + 12, ec + seq!['"']);
    lemma_scan_escape(s, a + 12, content);
    assert(spec_scan(s, a + 12) == Some((content, b)));
    assert(s.subrange(b, b + 13) =~= lit_mid_timestamp());
    lemma_prefix_from_subrange(s, b, lit_mid_timestamp());
    assert(s[s.len() - 1] == '}');
    assert(s.subrange(b + 13, s.len() - 1) =~= num);
    lemma_i64_dec_roundtrip(ts);
    assert(spec_parse_i64_text(s.subrange(b + 13, s.len() - 1)) == Some(ts));
}

} // verus!
