//! The JSON grammar as the remote service speaks it, stated as recursive
//! specification functions over character sequences, with executable parsers
//! proved to read exactly what the grammar says. Strings know the standard
//! escapes including `\uXXXX` and surrogate pairs; numbers follow the JSON
//! number grammar; unknown values can be skipped, so decoding stays
//! forward-compatible.
use vstd::prelude::*;

use crate::text::{dec_val, digit_val, hex_val, is_digit, is_hex};

verus! {

/// JSON insignificant whitespace.
pub open spec fn is_ws(c: char) -> bool {
    c == ' ' || c == '\t' || c == '\n' || c == '\r'
}

/// First position at or after `i` holding no whitespace.
pub open spec fn sp_ws(s: Seq<char>, i: int) -> int
    decreases s.len() - i when 0 <= i <= s.len()
{
    if i < s.len() && is_ws(s[i]) {
        sp_ws(s, i + 1)
    } else {
        i
    }
}

pub fn skip_ws(s: &[char], i: usize) -> (j: usize)
    requires
        i <= s@.len(),
    ensures
        j as int == sp_ws(s@, i as int),
        i <= j <= s@.len(),
    decreases s@.len() - i,
{
    if i < s.len() {
        let c = s[i];
        if c == ' ' || c == '\t' || c == '\n' || c == '\r' {
            return skip_ws(s, i + 1);
        }
    }
    i
}

/// The literal `lit` occurs at position `i` of `s`.
pub open spec fn sp_lit_at(s: Seq<char>, i: int, lit: Seq<char>) -> bool {
    0 <= i && i + lit.len() <= s.len() && s.subrange(i, i + lit.len()) == lit
}

/// What a single-character escape after a backslash denotes, if anything.
pub open spec fn simple_unescape(e: char) -> Option<char> {
    if e == '"' { Some('"') }
    else if e == '\\' { Some('\\') }
    else if e == '/' { Some('/') }
    else if e == 'b' { Some('\u{8}') }
    else if e == 'f' { Some('\u{c}') }
    else if e == 'n' { Some('\n') }
    else if e == 'r' { Some('\r') }
    else if e == 't' { Some('\t') }
    else { None }
}

/// Four hexadecimal digits stand at position `i`.
pub open spec fn hex4_ok(s: Seq<char>, i: int) -> bool {
    i + 4 <= s.len() && is_hex(s[i]) && is_hex(s[i + 1]) && is_hex(s[i + 2]) && is_hex(s[i + 3])
}

/// Value of the four hexadecimal digits at position `i`.
pub open spec fn hex4_val(s: Seq<char>, i: int) -> nat {
    hex_val(s[i]) * 4096 + hex_val(s[i + 1]) * 256 + hex_val(s[i + 2]) * 16 + hex_val(s[i + 3])
}

/// Prepends a character to a parsed string tail.
pub open spec fn sp_cons(c: char, rest: Option<(Seq<char>, int)>) -> Option<(Seq<char>, int)> {
    match rest {
        Some((t, j)) => Some((seq![c] + t, j)),
        None => None,
    }
}

/// Reads the body of a JSON string, starting just after the opening quote;
/// yields the denoted characters and the position just after the closing
/// quote. Escapes are decoded, surrogate pairs combined, lone surrogates and
/// unescaped control characters refused.
pub open spec fn sp_string_body(s: Seq<char>, i: int) -> Option<(Seq<char>, int)>
    decreases s.len() - i when 0 <= i <= s.len()
{
    if i >= s.len() {
        None
    } else if s[i] == '"' {
        Some((Seq::empty(), i + 1))
    } else if s[i] == '\\' {
        if i + 2 > s.len() {
            None
        } else if s[i + 1] == 'u' {
            if i + 6 > s.len() {
                None
            } else if !hex4_ok(s, i + 2) {
                None
            } else {
                let v = hex4_val(s, i + 2);
                if 0xD800 <= v && v < 0xDC00 {
                    if i + 12 > s.len() {
                        None
                    } else if !(s[i + 6] == '\\' && s[i + 7] == 'u' && hex4_ok(s, i + 8)) {
                        None
                    } else {
                        let w = hex4_val(s, i + 8);
                        if !(0xDC00 <= w && w < 0xE000) {
                            None
                        } else {
                            let code = 0x10000 + (v - 0xD800) * 0x400 + (w - 0xDC00);
                            sp_cons((code as u32) as char, sp_string_body(s, i + 12))
                        }
                    }
                } else if 0xDC00 <= v && v < 0xE000 {
                    None
                } else {
                    sp_cons((v as u32) as char, sp_string_body(s, i + 6))
                }
            }
        } else {
            match simple_unescape(s[i + 1]) {
                Some(c) => sp_cons(c, sp_string_body(s, i + 2)),
                None => None,
            }
        }
    } else if (s[i] as u32) < 32 {
        None
    } else {
        sp_cons(s[i], sp_string_body(s, i + 1))
    }
}

/// Relies on `char::from_u32`: for a valid non-surrogate scalar value it
/// yields the character with exactly that code point.
#[verifier::external_body]
fn char_from_code(u: u32) -> (c: char)
    requires
        u < 0xD800 || (0xE000 <= u && u < 0x110000),
    ensures
        c == u as char,
{
    char::from_u32(u).unwrap()
}

/// Exec reading of one hexadecimal digit.
fn hex_digit(c: char) -> (r: Option<u32>)
    ensures
        r is Some <==> is_hex(c),
        r is Some ==> r.unwrap() as nat == hex_val(c) && r.unwrap() < 16,
{
    let u = c as u32;
    if 48 <= u && u <= 57 {
        Some(u - 48)
    } else if 97 <= u && u <= 102 {
        Some(u - 87)
    } else if 65 <= u && u <= 70 {
        Some(u - 55)
    } else {
        None
    }
}

/// Exec reading of four hexadecimal digits at `i`.
fn hex4(s: &[char], i: usize) -> (r: Option<u32>)
    requires
        i + 4 <= s@.len(),
    ensures
        r is Some <==> hex4_ok(s@, i as int),
        r is Some ==> r.unwrap() as nat == hex4_val(s@, i as int) && r.unwrap() < 0x10000,
{
    let a = hex_digit(s[i]);
    let b = hex_digit(s[i + 1]);
    let c = hex_digit(s[i + 2]);
    let d = hex_digit(s[i + 3]);
    match (a, b, c, d) {
        (Some(a), Some(b), Some(c), Some(d)) => Some(a * 4096 + b * 256 + c * 16 + d),
        _ => None,
    }
}

/// Reads a JSON string body; mirrors `sp_string_body`.
pub fn string_body(s: &[char], i: usize) -> (r: Option<(Vec<char>, usize)>)
    requires
        i <= s@.len(),
    ensures
        match r {
            Some((t, j)) => sp_string_body(s@, i as int) == Some((t@, j as int)) && i < j
                && j <= s@.len(),
            None => sp_string_body(s@, i as int) is None,
        },
    decreases s@.len() - i,
{
    if i >= s.len() {
        return None;
    }
    let c0 = s[i];
    if c0 == '"' {
        let t: Vec<char> = Vec::new();
        proof {
            assert(t@ =~= Seq::<char>::empty());
        }
        return Some((t, i + 1));
    }
    if c0 == '\\' {
        if s.len() - i < 2 {
            return None;
        }
        let e = s[i + 1];
        if e == 'u' {
            if s.len() - i < 6 {
                return None;
            }
            let hv = hex4(s, i + 2);
            if hv.is_none() {
                return None;
            }
            let v = hv.unwrap();
            if 0xD800 <= v && v < 0xDC00 {
                if s.len() - i < 12 {
                    return None;
                }
                if !(s[i + 6] == '\\' && s[i + 7] == 'u') {
                    return None;
                }
                let hw = hex4(s, i + 8);
                if hw.is_none() {
                    return None;
                }
                let w = hw.unwrap();
                if !(0xDC00 <= w && w < 0xE000) {
                    return None;
                }
                let code = 0x10000 + (v - 0xD800) * 0x400 + (w - 0xDC00);
                let ch = char_from_code(code);
                match string_body(s, i + 12) {
                    Some((mut t, j)) => {
                        let ghost t0 = t@;
                        t.insert(0, ch);
                        proof {
                            assert(t@ =~= seq![ch] + t0);
                        }
                        Some((t, j))
                    },
                    None => None,
                }
            } else if 0xDC00 <= v && v < 0xE000 {
                None
            } else {
                let ch = char_from_code(v);
                match string_body(s, i + 6) {
                    Some((mut t, j)) => {
                        let ghost t0 = t@;
                        t.insert(0, ch);
                        proof {
                            assert(t@ =~= seq![ch] + t0);
                        }
                        Some((t, j))
                    },
                    None => None,
                }
            }
        } else {
            let dec: Option<char> = if e == '"' { Some('"') }
                else if e == '\\' { Some('\\') }
                else if e == '/' { Some('/') }
                else if e == 'b' { Some('\u{8}') }
                else if e == 'f' { Some('\u{c}') }
                else if e == 'n' { Some('\n') }
                else if e == 'r' { Some('\r') }
                else if e == 't' { Some('\t') }
                else { None };
            match dec {
                Some(ch) => {
                    match string_body(s, i + 2) {
                        Some((mut t, j)) => {
                            let ghost t0 = t@;
                            t.insert(0, ch);
                            proof {
                                assert(t@ =~= seq![ch] + t0);
                            }
                            Some((t, j))
                        },
                        None => None,
                    }
                },
                None => None,
            }
        }
    } else if (c0 as u32) < 32 {
        None
    } else {
        match string_body(s, i + 1) {
            Some((mut t, j)) => {
                let ghost t0 = t@;
                t.insert(0, c0);
                proof {
                    assert(t@ =~= seq![c0] + t0);
                }
                Some((t, j))
            },
            None => None,
        }
    }
}

/// End of the run of decimal digits starting at `i`.
pub open spec fn sp_digits_end(s: Seq<char>, i: int) -> int
    decreases s.len() - i when 0 <= i <= s.len()
{
    if i < s.len() && is_digit(s[i]) {
        sp_digits_end(s, i + 1)
    } else {
        i
    }
}

pub fn digits_end(s: &[char], i: usize) -> (j: usize)
    requires
        i <= s@.len(),
    ensures
        j as int == sp_digits_end(s@, i as int),
        i <= j <= s@.len(),
    decreases s@.len() - i,
{
    if i < s.len() {
        let u = s[i] as u32;
        if 48 <= u && u <= 57 {
            return digits_end(s, i + 1);
        }
    }
    i
}

/// Everything between `i` and the end of the digit run is a digit.
pub proof fn lemma_digits_end_digits(s: Seq<char>, i: int)
    requires
        0 <= i <= s.len(),
    ensures
        i <= sp_digits_end(s, i) <= s.len(),
        forall|m: int| i <= m < sp_digits_end(s, i) ==> is_digit(s[m]),
        sp_digits_end(s, i) < s.len() ==> !is_digit(s[sp_digits_end(s, i)]),
    decreases s.len() - i,
{
    if i < s.len() && is_digit(s[i]) {
        lemma_digits_end_digits(s, i + 1);
    }
}

/// A digit run ends exactly where the digits stop.
pub proof fn lemma_digits_end_value(s: Seq<char>, i: int, j: int)
    requires
        0 <= i <= j <= s.len(),
        forall|m: int| i <= m < j ==> is_digit(s[m]),
        j == s.len() || !is_digit(s[j]),
    ensures
        sp_digits_end(s, i) == j,
    decreases j - i,
{
    if i < j {
        lemma_digits_end_value(s, i + 1, j);
    }
}

/// Reads an unsigned 64-bit JSON integer at `i`: a digit run without a
/// leading zero whose value fits in 64 bits.
pub open spec fn sp_u64_at(s: Seq<char>, i: int) -> Option<(u64, int)> {
    let e = sp_digits_end(s, i);
    if !(0 <= i && i < e && e <= s.len()) {
        None
    } else if s[i] == '0' && e > i + 1 {
        None
    } else if dec_val(s.subrange(i, e)) > u64::MAX {
        None
    } else {
        Some((dec_val(s.subrange(i, e)) as u64, e))
    }
}

/// Value of a digit run, refused when it exceeds 64 bits.
fn dec_value_u64(s: &[char], i: usize, e: usize) -> (r: Option<u64>)
    requires
        i <= e <= s@.len(),
        forall|m: int| i <= m < e ==> is_digit(s@[m]),
    ensures
        match r {
            Some(n) => n as nat == dec_val(s@.subrange(i as int, e as int))
                && dec_val(s@.subrange(i as int, e as int)) <= u64::MAX,
            None => dec_val(s@.subrange(i as int, e as int)) > u64::MAX,
        },
{
    let ghost whole = s@.subrange(i as int, e as int);
    let mut acc: u64 = 0;
    let mut k: usize = i;
    while k < e
        invariant
            i <= k <= e <= s@.len(),
            whole == s@.subrange(i as int, e as int),
            forall|m: int| i <= m < e ==> is_digit(s@[m]),
            acc as nat == dec_val(s@.subrange(i as int, k as int)),
        decreases e - k,
    {
        let u = s[k] as u32;
        let d = ((u - 48) as u64);
        proof {
            assert(is_digit(s@[k as int]));
            assert(d == digit_val(s@[k as int]));
        }
        let q = (u64::MAX - d) / 10;
        proof {
            vstd::arithmetic::div_mod::lemma_fundamental_div_mod((u64::MAX - d) as int, 10);
        }
        if acc > q {
            proof {
                assert(acc * 10 >= (q + 1) * 10) by (nonlinear_arith)
                    requires acc >= q + 1,
                ;
                let t = s@.subrange(i as int, k as int + 1);
                assert(t.drop_last() =~= s@.subrange(i as int, k as int));
                assert(t.last() == s@[k as int]);
                assert(dec_val(t) > u64::MAX);
                crate::text::lemma_dec_val_prefix(whole, k as int + 1 - i);
                assert(whole.take(k as int + 1 - i) =~= t);
            }
            return None;
        }
        proof {
            assert(acc * 10 <= q * 10) by (nonlinear_arith)
                requires acc <= q,
            ;
        }
        acc = acc * 10 + d;
        proof {
            let t = s@.subrange(i as int, k as int + 1);
            assert(t.drop_last() =~= s@.subrange(i as int, k as int));
            assert(t.last() == s@[k as int]);
        }
        k += 1;
    }
    proof {
        assert(s@.subrange(i as int, e as int) =~= s@.subrange(i as int, k as int));
    }
    Some(acc)
}

/// Reads an unsigned 64-bit JSON integer; mirrors `sp_u64_at`.
pub fn u64_at(s: &[char], i: usize) -> (r: Option<(u64, usize)>)
    requires
        i <= s@.len(),
    ensures
        match r {
            Some((n, j)) => sp_u64_at(s@, i as int) == Some((n, j as int)) && i < j
                && j <= s@.len(),
            None => sp_u64_at(s@, i as int) is None,
        },
{
    let e = digits_end(s, i);
    proof {
        lemma_digits_end_digits(s@, i as int);
    }
    if e == i {
        return None;
    }
    if s[i] == '0' && e > i + 1 {
        return None;
    }
    match dec_value_u64(s, i, e) {
        Some(n) => Some((n, e)),
        None => None,
    }
}

/// Reads a signed 64-bit JSON integer at `i`: an optional minus sign, then
/// a digit run without a leading zero, in the 64-bit signed range.
pub open spec fn sp_i64_at(s: Seq<char>, i: int) -> Option<(i64, int)> {
    if 0 <= i && i < s.len() && s[i] == '-' {
        let e = sp_digits_end(s, i + 1);
        if !(i + 1 < e && e <= s.len()) {
            None
        } else if s[i + 1] == '0' && e > i + 2 {
            None
        } else if dec_val(s.subrange(i + 1, e)) > 0x8000000000000000 {
            None
        } else {
            Some(((0 - dec_val(s.subrange(i + 1, e))) as i64, e))
        }
    } else {
        match sp_u64_at(s, i) {
            Some((n, e)) => if n <= i64::MAX as u64 {
                Some((n as i64, e))
            } else {
                None
            },
            None => None,
        }
    }
}

/// Reads a signed 64-bit JSON integer; mirrors `sp_i64_at`.
pub fn i64_at(s: &[char], i: usize) -> (r: Option<(i64, usize)>)
    requires
        i <= s@.len(),
    ensures
        match r {
            Some((n, j)) => sp_i64_at(s@, i as int) == Some((n, j as int)) && i < j
                && j <= s@.len(),
            None => sp_i64_at(s@, i as int) is None,
        },
{
    if i < s.len() && s[i] == '-' {
        let e = digits_end(s, i + 1);
        proof {
            lemma_digits_end_digits(s@, i as int + 1);
        }
        if e == i + 1 {
            return None;
        }
        if s[i + 1] == '0' && e > i + 2 {
            return None;
        }
        match dec_value_u64(s, i + 1, e) {
            Some(n) => {
                if n > 0x8000000000000000 {
                    None
                } else if n == 0x8000000000000000 {
                    Some((i64::MIN, e))
                } else {
                    Some((0 - (n as i64), e))
                }
            },
            None => None,
        }
    } else {
        match u64_at(s, i) {
            Some((n, e)) => {
                if n <= 0x7FFFFFFFFFFFFFFF {
                    Some((n as i64, e))
                } else {
                    None
                }
            },
            None => None,
        }
    }
}

/// End of a JSON number starting at `i` (sign, integer part, optional
/// fraction and exponent), used to step over numeric values that the
/// decoders do not read.
pub open spec fn sp_number_end(s: Seq<char>, i: int) -> Option<int> {
    if !(0 <= i && i <= s.len()) {
        None
    } else {
        let start = if i < s.len() && s[i] == '-' { i + 1 } else { i };
        if !(start < s.len() && is_digit(s[start])) {
            None
        } else {
            let p = if s[start] == '0' { start + 1 } else { sp_digits_end(s, start) };
            if !(start < p && p <= s.len()) {
                None
            } else {
                let has_frac = p < s.len() && s[p] == '.';
                if has_frac && !(p + 1 < s.len() && is_digit(s[p + 1])) {
                    None
                } else {
                    let p2 = if has_frac { sp_digits_end(s, p + 1) } else { p };
                    if !(p <= p2 && p2 <= s.len()) {
                        None
                    } else if p2 < s.len() && (s[p2] == 'e' || s[p2] == 'E') {
                        let p3 = if p2 + 1 < s.len() && (s[p2 + 1] == '+' || s[p2 + 1] == '-') {
                            p2 + 2
                        } else {
                            p2 + 1
                        };
                        if p3 < s.len() && is_digit(s[p3]) {
                            Some(sp_digits_end(s, p3))
                        } else {
                            None
                        }
                    } else {
                        Some(p2)
                    }
                }
            }
        }
    }
}

/// Steps over a JSON number; mirrors `sp_number_end`.
pub fn number_end(s: &[char], i: usize) -> (r: Option<usize>)
    requires
        i <= s@.len(),
    ensures
        match r {
            Some(j) => sp_number_end(s@, i as int) == Some(j as int) && i < j && j <= s@.len(),
            None => sp_number_end(s@, i as int) is None,
        },
{
    let start = if i < s.len() && s[i] == '-' { i + 1 } else { i };
    if !(start < s.len()) {
        return None;
    }
    let u0 = s[start] as u32;
    if !(48 <= u0 && u0 <= 57) {
        return None;
    }
    let p = if s[start] == '0' { start + 1 } else { digits_end(s, start) };
    proof {
        lemma_digits_end_digits(s@, start as int);
    }
    let p2 = if p < s.len() && s[p] == '.' {
        if p + 1 < s.len() {
            let u1 = s[p + 1] as u32;
            if 48 <= u1 && u1 <= 57 {
                digits_end(s, p + 1)
            } else {
                return None;
            }
        } else {
            return None;
        }
    } else {
        p
    };
    if p2 < s.len() && (s[p2] == 'e' || s[p2] == 'E') {
        let p3 = if p2 + 1 < s.len() && (s[p2 + 1] == '+' || s[p2 + 1] == '-') {
            p2 + 2
        } else {
            p2 + 1
        };
        if p3 < s.len() {
            let u2 = s[p3] as u32;
            if 48 <= u2 && u2 <= 57 {
                Some(digits_end(s, p3))
            } else {
                None
            }
        } else {
            None
        }
    } else {
        Some(p2)
    }
}

/// Reads a JSON boolean literal at `i`.
pub open spec fn sp_bool_at(s: Seq<char>, i: int) -> Option<(bool, int)> {
    if sp_lit_at(s, i, "true"@) {
        Some((true, i + 4))
    } else if sp_lit_at(s, i, "false"@) {
        Some((false, i + 5))
    } else {
        None
    }
}

/// Tests whether the literal `lit` occurs at `i`; the caller supplies the
/// literal as a vector of its characters.
fn lit_at(s: &[char], i: usize, lit: &Vec<char>) -> (r: bool)
    requires
        i <= s@.len(),
    ensures
        r == sp_lit_at(s@, i as int, lit@),
{
    if s.len() - i < lit.len() {
        return false;
    }
    let mut k: usize = 0;
    while k < lit.len()
        invariant
            i <= s@.len(),
            s@.len() <= usize::MAX,
            i + lit@.len() <= s@.len(),
            k <= lit@.len(),
            forall|m: int| 0 <= m < k ==> s@[i + m] == lit@[m],
        decreases lit@.len() - k,
    {
        if s[i + k] != lit[k] {
            proof {
                assert(s@.subrange(i as int, i + lit@.len())[k as int] != lit@[k as int]);
            }
            return false;
        }
        k += 1;
    }
    proof {
        assert(s@.subrange(i as int, i + lit@.len()) =~= lit@);
    }
    true
}

/// Reads a JSON boolean; mirrors `sp_bool_at`.
pub fn bool_at(s: &[char], i: usize) -> (r: Option<(bool, usize)>)
    requires
        i <= s@.len(),
    ensures
        match r {
            Some((b, j)) => sp_bool_at(s@, i as int) == Some((b, j as int)) && i < j
                && j <= s@.len(),
            None => sp_bool_at(s@, i as int) is None,
        },
{
    proof {
        reveal_strlit("true");
        reveal_strlit("false");
    }
    let n = s.len();
    let t = crate::text::to_chars("true");
    if lit_at(s, i, &t) {
        proof {
            assert(i + 4 <= n);
        }
        return Some((true, i + 4));
    }
    let f = crate::text::to_chars("false");
    if lit_at(s, i, &f) {
        proof {
            assert(i + 5 <= n);
        }
        return Some((false, i + 5));
    }
    None
}

/// Position just after the JSON value starting at `i`, whatever its kind;
/// how the decoders step over fields they do not read.
pub open spec fn sp_skip_value(s: Seq<char>, i: int) -> Option<int>
    decreases s.len() - i, 0int when 0 <= i <= s.len()
{
    if i >= s.len() {
        None
    } else if s[i] == '"' {
        match sp_string_body(s, i + 1) {
            Some((t, j)) => Some(j),
            None => None,
        }
    } else if s[i] == '{' {
        let j = sp_ws(s, i + 1);
        if !(i + 1 <= j && j <= s.len()) {
            None
        } else if j < s.len() && s[j] == '}' {
            Some(j + 1)
        } else {
            sp_skip_members(s, j)
        }
    } else if s[i] == '[' {
        let j = sp_ws(s, i + 1);
        if !(i + 1 <= j && j <= s.len()) {
            None
        } else if j < s.len() && s[j] == ']' {
            Some(j + 1)
        } else {
            sp_skip_items(s, j)
        }
    } else if sp_lit_at(s, i, "null"@) {
        Some(i + "null"@.len())
    } else {
        match sp_bool_at(s, i) {
            Some((b, j)) => Some(j),
            None => sp_number_end(s, i),
        }
    }
}

/// Steps over the members of an object, standing at the first key; ends
/// just after the closing brace.
pub open spec fn sp_skip_members(s: Seq<char>, i: int) -> Option<int>
    decreases s.len() - i, 1int when 0 <= i <= s.len()
{
    if !(i < s.len() && s[i] == '"') {
        None
    } else {
        match sp_string_body(s, i + 1) {
            None => None,
            Some((key, j)) => {
                if !(i + 1 < j && j <= s.len()) {
                    None
                } else {
                    let k = sp_ws(s, j);
                    if !(j <= k && k < s.len() && s[k] == ':') {
                        None
                    } else {
                        let m = sp_ws(s, k + 1);
                        if !(k + 1 <= m && m <= s.len()) {
                            None
                        } else {
                            match sp_skip_value(s, m) {
                                None => None,
                                Some(ve) => {
                                    if !(m < ve && ve <= s.len()) {
                                        None
                                    } else {
                                        let p = sp_ws(s, ve);
                                        if !(ve <= p && p <= s.len()) {
                                            None
                                        } else if p < s.len() && s[p] == ',' {
                                            let q = sp_ws(s, p + 1);
                                            if !(p + 1 <= q && q <= s.len()) {
                                                None
                                            } else {
                                                sp_skip_members(s, q)
                                            }
                                        } else if p < s.len() && s[p] == '}' {
                                            Some(p + 1)
                                        } else {
                                            None
                                        }
                                    }
                                },
                            }
                        }
                    }
                }
            },
        }
    }
}

/// Steps over the items of an array, standing at the first item; ends just
/// after the closing bracket.
pub open spec fn sp_skip_items(s: Seq<char>, i: int) -> Option<int>
    decreases s.len() - i, 1int when 0 <= i <= s.len()
{
    match sp_skip_value(s, i) {
        None => None,
        Some(ve) => {
            if !(i < ve && ve <= s.len()) {
                None
            } else {
                let p = sp_ws(s, ve);
                if !(ve <= p && p <= s.len()) {
                    None
                } else if p < s.len() && s[p] == ',' {
                    let q = sp_ws(s, p + 1);
                    if !(p + 1 <= q && q <= s.len()) {
                        None
                    } else {
                        sp_skip_items(s, q)
                    }
                } else if p < s.len() && s[p] == ']' {
                    Some(p + 1)
                } else {
                    None
                }
            }
        },
    }
}

/// Steps over a JSON value; mirrors `sp_skip_value`.
pub fn skip_value(s: &[char], i: usize) -> (r: Option<usize>)
    requires
        i <= s@.len(),
    ensures
        match r {
            Some(j) => sp_skip_value(s@, i as int) == Some(j as int) && i < j && j <= s@.len(),
            None => sp_skip_value(s@, i as int) is None,
        },
    decreases s@.len() - i, 0int,
{
    if i >= s.len() {
        return None;
    }
    let c0 = s[i];
    if c0 == '"' {
        match string_body(s, i + 1) {
            Some((t, j)) => Some(j),
            None => None,
        }
    } else if c0 == '{' {
        let j = skip_ws(s, i + 1);
        if j < s.len() && s[j] == '}' {
            Some(j + 1)
        } else {
            skip_members(s, j)
        }
    } else if c0 == '[' {
        let j = skip_ws(s, i + 1);
        if j < s.len() && s[j] == ']' {
            Some(j + 1)
        } else {
            skip_items(s, j)
        }
    } else {
        proof {
            reveal_strlit("null");
        }
        let nl = crate::text::to_chars("null");
        if lit_at(s, i, &nl) {
            return Some(i + 4);
        }
        match bool_at(s, i) {
            Some((b, j)) => Some(j),
            None => number_end(s, i),
        }
    }
}

/// Steps over object members; mirrors `sp_skip_members`.
pub fn skip_members(s: &[char], i: usize) -> (r: Option<usize>)
    requires
        i <= s@.len(),
    ensures
        match r {
            Some(j) => sp_skip_members(s@, i as int) == Some(j as int) && i < j && j <= s@.len(),
            None => sp_skip_members(s@, i as int) is None,
        },
    decreases s@.len() - i, 1int,
{
    if !(i < s.len() && s[i] == '"') {
        return None;
    }
    match string_body(s, i + 1) {
        None => None,
        Some((key, j)) => {
            let k = skip_ws(s, j);
            if !(k < s.len() && s[k] == ':') {
                return None;
            }
            let m = skip_ws(s, k + 1);
            match skip_value(s, m) {
                None => None,
                Some(ve) => {
                    let p = skip_ws(s, ve);
                    if p < s.len() && s[p] == ',' {
                        let q = skip_ws(s, p + 1);
                        skip_members(s, q)
                    } else if p < s.len() && s[p] == '}' {
                        Some(p + 1)
                    } else {
                        None
                    }
                },
            }
        },
    }
}

/// Steps over array items; mirrors `sp_skip_items`.
pub fn skip_items(s: &[char], i: usize) -> (r: Option<usize>)
    requires
        i <= s@.len(),
    ensures
        match r {
            Some(j) => sp_skip_items(s@, i as int) == Some(j as int) && i < j && j <= s@.len(),
            None => sp_skip_items(s@, i as int) is None,
        },
    decreases s@.len() - i, 1int,
{
    match skip_value(s, i) {
        None => None,
        Some(ve) => {
            let p = skip_ws(s, ve);
            if p < s.len() && s[p] == ',' {
                let q = skip_ws(s, p + 1);
                skip_items(s, q)
            } else if p < s.len() && s[p] == ']' {
                Some(p + 1)
            } else {
                None
            }
        },
    }
}

} // verus!
