//! The on-disk credential record format.
//!
//! A record is a JSON object with exactly the two members `private_key`
//! (a JSON string) and `chain_id` (an unsigned decimal without leading
//! zeros), in either order, with arbitrary whitespace between tokens.
//! Strings may use the JSON escapes, including `\uXXXX` for code points
//! outside the surrogate range; surrogate pairs and unknown members read
//! as malformed. `encode_config` writes the pretty-printed form;
//! `parse_config` accepts exactly the grammar given by `spec_parse` and
//! reports anything else as absent, since a malformed record must never
//! crash a read-only command.

use vstd::prelude::*;
use vstd::string::{StrSliceExecFns, StringExecFns};
use crate::config::Config;

verus! {

/// Relies on `String::push`: appends exactly one character.
pub assume_specification[ String::push ](s: &mut String, ch: char)
    ensures
        final (s)@ == old(s)@.push(ch),
;

/// Relies on `char::from_u32`: `Some` exactly for code points outside the
/// surrogate range and at most 0x10FFFF, and the character returned has
/// the given code point.
pub assume_specification[ char::from_u32 ](v: u32) -> (r: Option<char>)
    ensures
        (r is Some) == (v < 0xD800 || (0xE000 <= v && v <= 0x10FFFF)),
        r matches Some(c) ==> c as u32 == v,
;

/// JSON insignificant whitespace.
pub open spec fn is_json_ws(c: char) -> bool {
    c == ' ' || c == '\t' || c == '\n' || c == '\r'
}

/// The decimal digit characters, as values; -1 for any other character.
pub open spec fn digit_val(c: char) -> int {
    if c == '0' {
        0
    } else if c == '1' {
        1
    } else if c == '2' {
        2
    } else if c == '3' {
        3
    } else if c == '4' {
        4
    } else if c == '5' {
        5
    } else if c == '6' {
        6
    } else if c == '7' {
        7
    } else if c == '8' {
        8
    } else if c == '9' {
        9
    } else {
        -1
    }
}

pub open spec fn is_digit(c: char) -> bool {
    digit_val(c) >= 0
}

/// The hex digit characters (either case), as values; -1 otherwise.
pub open spec fn hex_val(c: char) -> int {
    if c == 'a' || c == 'A' {
        10
    } else if c == 'b' || c == 'B' {
        11
    } else if c == 'c' || c == 'C' {
        12
    } else if c == 'd' || c == 'D' {
        13
    } else if c == 'e' || c == 'E' {
        14
    } else if c == 'f' || c == 'F' {
        15
    } else {
        digit_val(c)
    }
}

pub open spec fn is_hex(c: char) -> bool {
    hex_val(c) >= 0
}

/// The character for a decimal digit value.
pub open spec fn digit_char(d: int) -> char {
    if d == 0 {
        '0'
    } else if d == 1 {
        '1'
    } else if d == 2 {
        '2'
    } else if d == 3 {
        '3'
    } else if d == 4 {
        '4'
    } else if d == 5 {
        '5'
    } else if d == 6 {
        '6'
    } else if d == 7 {
        '7'
    } else if d == 8 {
        '8'
    } else {
        '9'
    }
}

/// The decimal rendering of a number, most significant digit first.
pub open spec fn spec_dec(n: nat) -> Seq<char>
    decreases n,
{
    if n < 10 {
        seq![digit_char(n as int)]
    } else {
        spec_dec(n / 10) + seq![digit_char((n % 10) as int)]
    }
}

/// The exact text `encode_config` writes for a record: the pretty-printed
/// object `{\n  "private_key": "<key>",\n  "chain_id": <n>\n}`, with the
/// key written unescaped.
pub open spec fn spec_encode(key: Seq<char>, chain_id: u64) -> Seq<char> {
    "{\n  "@ + "\""@ + "private_key"@ + "\""@ + ": "@ + "\""@ + key + "\""@ + ",\n  "@ + "\""@
        + "chain_id"@ + "\""@ + ": "@ + spec_dec(chain_id as nat) + "\n}"@
}

/// What a single-character JSON escape `\c` decodes to, if `c` is one.
pub open spec fn spec_escape(c: char) -> Option<char> {
    if c == '"' {
        Some('"')
    } else if c == '\\' {
        Some('\\')
    } else if c == '/' {
        Some('/')
    } else if c == 'b' {
        Some('\u{8}')
    } else if c == 'f' {
        Some('\u{c}')
    } else if c == 'n' {
        Some('\n')
    } else if c == 'r' {
        Some('\r')
    } else if c == 't' {
        Some('\t')
    } else {
        None
    }
}

/// The code unit named by four hex digits starting at `i`.
pub open spec fn spec_u_val(s: Seq<char>, i: int) -> int {
    hex_val(s[i]) * 4096 + hex_val(s[i + 1]) * 256 + hex_val(s[i + 2]) * 16 + hex_val(s[i + 3])
}

/// Whether a well-formed `\uXXXX` escape stands at `i` (the position of
/// the `u`): four hex digits naming a code point outside the surrogate
/// range. Surrogate pairs are not decoded; they read as malformed.
pub open spec fn spec_u_ok(s: Seq<char>, i: int) -> bool {
    &&& 0 <= i && i + 5 <= s.len()
    &&& s[i] == 'u'
    &&& is_hex(s[i + 1]) && is_hex(s[i + 2]) && is_hex(s[i + 3]) && is_hex(s[i + 4])
    &&& !(0xD800 <= spec_u_val(s, i + 1) < 0xE000)
}

/// A character's code point.
pub open spec fn char_code(c: char) -> u32 {
    c as u32
}

/// The character a well-formed `\uXXXX` escape names (`i` is the first
/// hex digit).
pub open spec fn spec_u_char(s: Seq<char>, i: int) -> char {
    choose|c: char| char_code(c) == spec_u_val(s, i) as u32
}

/// First position at or after `i` that holds no whitespace (or the end).
pub open spec fn spec_skip_ws(s: Seq<char>, i: int) -> int
    decreases s.len() - i,
{
    if 0 <= i < s.len() && is_json_ws(s[i]) {
        spec_skip_ws(s, i + 1)
    } else {
        i
    }
}

/// First position at or after `i` that holds no decimal digit (or the end).
pub open spec fn spec_scan_digits(s: Seq<char>, i: int) -> int
    decreases s.len() - i,
{
    if 0 <= i < s.len() && is_digit(s[i]) {
        spec_scan_digits(s, i + 1)
    } else {
        i
    }
}

/// The value of the digit run `s[i..j)`, read most significant first.
pub open spec fn spec_digits_val(s: Seq<char>, i: int, j: int) -> int
    decreases j - i,
{
    if i < j {
        spec_digits_val(s, i, j - 1) * 10 + digit_val(s[j - 1])
    } else {
        0
    }
}

/// The position of the closing quote of a string body starting at `i`, or
/// None where the body is malformed: unterminated, a raw control
/// character, or a bad escape.
pub open spec fn spec_str_end(s: Seq<char>, i: int) -> Option<int>
    decreases s.len() - i,
{
    if !(0 <= i < s.len()) {
        None
    } else if s[i] == '"' {
        Some(i)
    } else if s[i] == '\\' {
        if i + 1 < s.len() && spec_escape(s[i + 1]) is Some {
            spec_str_end(s, i + 2)
        } else if spec_u_ok(s, i + 1) {
            spec_str_end(s, i + 6)
        } else {
            None
        }
    } else if (s[i] as u32) < 32 {
        None
    } else {
        spec_str_end(s, i + 1)
    }
}

/// The decoded content of a well-formed string body `s[i..j)`.
pub open spec fn spec_str_val(s: Seq<char>, i: int, j: int) -> Seq<char>
    decreases j - i,
{
    if i >= j {
        Seq::empty()
    } else if s[i] == '\\' && i + 1 < j && spec_escape(s[i + 1]) is Some {
        seq![spec_escape(s[i + 1])->0] + spec_str_val(s, i + 2, j)
    } else if s[i] == '\\' && spec_u_ok(s, i + 1) && i + 6 <= j {
        seq![spec_u_char(s, i + 2)] + spec_str_val(s, i + 6, j)
    } else {
        seq![s[i]] + spec_str_val(s, i + 1, j)
    }
}

/// A string token at `i`: the opening quote, a well-formed body, the
/// closing quote. Yields the decoded content and the position after the
/// closing quote.
pub open spec fn spec_string_token(s: Seq<char>, i: int) -> Option<(Seq<char>, int)> {
    if 0 <= i < s.len() && s[i] == '"' {
        match spec_str_end(s, i + 1) {
            Some(j) => Some((spec_str_val(s, i + 1, j), j + 1)),
            None => None,
        }
    } else {
        None
    }
}

/// A colon and a string value, after a member name ending at `i`.
pub open spec fn spec_key_member(s: Seq<char>, i: int) -> Option<(Seq<char>, int)> {
    let c = spec_skip_ws(s, i);
    if !(c < s.len() && s[c] == ':') {
        None
    } else {
        spec_string_token(s, spec_skip_ws(s, c + 1))
    }
}

/// A colon and an unsigned decimal without leading zeros, after a member
/// name ending at `i`.
pub open spec fn spec_num_member(s: Seq<char>, i: int) -> Option<(u64, int)> {
    let c = spec_skip_ws(s, i);
    if !(c < s.len() && s[c] == ':') {
        None
    } else {
        let ns = spec_skip_ws(s, c + 1);
        let ne = spec_scan_digits(s, ns);
        let v = spec_digits_val(s, ns, ne);
        if ne > ns && (ne - ns == 1 || s[ns] != '0') && v <= u64::MAX {
            Some((v as u64, ne))
        } else {
            None
        }
    }
}

/// The closing brace at `i` and nothing but whitespace after it.
pub open spec fn spec_object_end(s: Seq<char>, i: int) -> bool {
    let c = spec_skip_ws(s, i);
    c < s.len() && s[c] == '}' && spec_skip_ws(s, c + 1) == s.len()
}

/// The record grammar: what `parse_config` accepts, and the fields it
/// extracts. The two members may stand in either order; anything else is
/// malformed and reads as absent.
pub open spec fn spec_parse(s: Seq<char>) -> Option<(Seq<char>, u64)> {
    let i0 = spec_skip_ws(s, 0);
    if !(i0 < s.len() && s[i0] == '{') {
        None
    } else {
        match spec_string_token(s, spec_skip_ws(s, i0 + 1)) {
            Option::None => None,
            Some((n1, p1)) => if n1 == "private_key"@ {
                match spec_key_member(s, p1) {
                    Option::None => None,
                    Some((key, p2)) => {
                        let c = spec_skip_ws(s, p2);
                        if !(c < s.len() && s[c] == ',') {
                            None
                        } else {
                            match spec_string_token(s, spec_skip_ws(s, c + 1)) {
                                Option::None => None,
                                Some((n2, p3)) => if n2 == "chain_id"@ {
                                    match spec_num_member(s, p3) {
                                        Option::None => None,
                                        Some((v, p4)) => if spec_object_end(s, p4) {
                                            Some((key, v))
                                        } else {
                                            None
                                        },
                                    }
                                } else {
                                    None
                                },
                            }
                        }
                    },
                }
            } else if n1 == "chain_id"@ {
                match spec_num_member(s, p1) {
                    Option::None => None,
                    Some((v, p2)) => {
                        let c = spec_skip_ws(s, p2);
                        if !(c < s.len() && s[c] == ',') {
                            None
                        } else {
                            match spec_string_token(s, spec_skip_ws(s, c + 1)) {
                                Option::None => None,
                                Some((n2, p3)) => if n2 == "private_key"@ {
                                    match spec_key_member(s, p3) {
                                        Option::None => None,
                                        Some((key, p4)) => if spec_object_end(s, p4) {
                                            Some((key, v))
                                        } else {
                                            None
                                        },
                                    }
                                } else {
                                    None
                                },
                            }
                        }
                    },
                }
            } else {
                None
            },
        }
    }
}

fn exec_is_ws(c: char) -> (r: bool)
    ensures
        r == is_json_ws(c),
{
    c == ' ' || c == '\t' || c == '\n' || c == '\r'
}

fn exec_digit_val(c: char) -> (r: i8)
    ensures
        r as int == digit_val(c),
{
    match c {
        '0' => 0,
        '1' => 1,
        '2' => 2,
        '3' => 3,
        '4' => 4,
        '5' => 5,
        '6' => 6,
        '7' => 7,
        '8' => 8,
        '9' => 9,
        _ => -1,
    }
}

fn exec_hex_val(c: char) -> (r: i8)
    ensures
        r as int == hex_val(c),
{
    match c {
        'a' | 'A' => 10,
        'b' | 'B' => 11,
        'c' | 'C' => 12,
        'd' | 'D' => 13,
        'e' | 'E' => 14,
        'f' | 'F' => 15,
        _ => exec_digit_val(c),
    }
}

fn exec_escape(c: char) -> (r: Option<char>)
    ensures
        r == spec_escape(c),
{
    match c {
        '"' => Some('"'),
        '\\' => Some('\\'),
        '/' => Some('/'),
        'b' => Some('\u{8}'),
        'f' => Some('\u{c}'),
        'n' => Some('\n'),
        'r' => Some('\r'),
        't' => Some('\t'),
        _ => None,
    }
}

fn skip_ws(s: &str, i: usize, n: usize) -> (r: usize)
    requires
        n == s@.len(),
        i <= n,
    ensures
        r == spec_skip_ws(s@, i as int),
        i <= r <= n,
{
    let mut k: usize = i;
    while k < n && exec_is_ws(s.get_char(k))
        invariant
            i <= k <= n,
            n == s@.len(),
            spec_skip_ws(s@, i as int) == spec_skip_ws(s@, k as int),
        decreases n - k,
    {
        k = k + 1;
    }
    k
}

fn scan_digits(s: &str, i: usize, n: usize) -> (r: usize)
    requires
        n == s@.len(),
        i <= n,
    ensures
        r == spec_scan_digits(s@, i as int),
        i <= r <= n,
{
    let mut k: usize = i;
    while k < n && exec_digit_val(s.get_char(k)) >= 0
        invariant
            i <= k <= n,
            n == s@.len(),
            spec_scan_digits(s@, i as int) == spec_scan_digits(s@, k as int),
        decreases n - k,
    {
        k = k + 1;
    }
    k
}

/// A well-formed body's closing quote lies within the string, at or after
/// the start.
proof fn lemma_str_end_ge(s: Seq<char>, i: int)
    ensures
        spec_str_end(s, i) matches Some(j) ==> i <= j < s.len() && s[j] == '"',
    decreases s.len() - i,
{
    if 0 <= i < s.len() {
        if s[i] == '"' {
        } else if s[i] == '\\' {
            if i + 1 < s.len() && spec_escape(s[i + 1]) is Some {
                lemma_str_end_ge(s, i + 2);
            } else if spec_u_ok(s, i + 1) {
                lemma_str_end_ge(s, i + 6);
            }
        } else if !((s[i] as u32) < 32) {
            lemma_str_end_ge(s, i + 1);
        }
    }
}

/// Parses a string token at `i`: both quotes, decoding the body.
#[verifier::loop_isolation(false)]
fn parse_string_token(s: &str, i: usize, n: usize) -> (r: Option<(String, usize)>)
    requires
        n == s@.len(),
        i <= n,
    ensures
        match spec_string_token(s@, i as int) {
            Some((v, p)) => r matches Some(x) && x.0@ == v && x.1 == p,
            None => r is None,
        },
        r matches Some(x) ==> x.1 <= n,
{
    if !(i < n && s.get_char(i) == '"') {
        return None;
    }
    let mut k: usize = i + 1;
    let mut out = String::new();
    proof {
        lemma_str_end_ge(s@, i as int + 1);
        let e = spec_str_end(s@, i as int + 1);
        if e is Some {
            let j = e->0;
            assert(Seq::<char>::empty() + spec_str_val(s@, i as int + 1, j) =~= spec_str_val(
                s@,
                i as int + 1,
                j,
            ));
        }
    }
    loop
        invariant
            i + 1 <= k <= n,
            n == s@.len(),
            spec_str_end(s@, i as int + 1) == spec_str_end(s@, k as int),
            spec_str_end(s@, k as int) matches Some(j) ==> k <= j && spec_str_val(
                s@,
                i as int + 1,
                j,
            ) == out@ + spec_str_val(s@, k as int, j),
        decreases n - k,
    {
        if k >= n {
            return None;
        }
        let c = s.get_char(k);
        if c == '"' {
            proof {
                assert(spec_str_val(s@, k as int, k as int) =~= Seq::<char>::empty());
                assert(spec_str_val(s@, i as int + 1, k as int) =~= out@);
            }
            return Some((out, k + 1));
        }
        if c == '\\' {
            if k + 1 >= n {
                return None;
            }
            let e = s.get_char(k + 1);
            match exec_escape(e) {
                Some(d) => {
                    proof {
                        lemma_str_end_ge(s@, k as int + 2);
                        let e = spec_str_end(s@, k as int);
                        if e is Some {
                            let j = e->0;
                            assert(spec_str_val(s@, k as int, j) == seq![d] + spec_str_val(
                                s@,
                                k as int + 2,
                                j,
                            ));
                            assert(out@.push(d) + spec_str_val(s@, k as int + 2, j) =~= out@
                                + spec_str_val(s@, k as int, j));
                        }
                    }
                    out.push(d);
                    k = k + 2;
                },
                None => {
                    if e != 'u' || n - k < 6 {
                        return None;
                    }
                    let h1 = exec_hex_val(s.get_char(k + 2));
                    let h2 = exec_hex_val(s.get_char(k + 3));
                    let h3 = exec_hex_val(s.get_char(k + 4));
                    let h4 = exec_hex_val(s.get_char(k + 5));
                    if h1 < 0 || h2 < 0 || h3 < 0 || h4 < 0 {
                        return None;
                    }
                    let v: u32 = (h1 as u32) * 4096 + (h2 as u32) * 256 + (h3 as u32) * 16 + (
                    h4 as u32);
                    match char::from_u32(v) {
                        Some(d) => {
                            proof {
                                assert(v as int == spec_u_val(s@, k as int + 2));
                                assert(spec_u_ok(s@, k as int + 1));
                                assert(char_code(d) == spec_u_val(s@, k as int + 2) as u32);
                                assert(char_code(spec_u_char(s@, k as int + 2)) == spec_u_val(
                                    s@,
                                    k as int + 2,
                                ) as u32);
                                vstd::utf8::char_u32_cast(d, v);
                                vstd::utf8::char_u32_cast(spec_u_char(s@, k as int + 2), v);
                                assert(d == spec_u_char(s@, k as int + 2));
                                lemma_str_end_ge(s@, k as int + 6);
                                let e = spec_str_end(s@, k as int);
                                if e is Some {
                                    let j = e->0;
                                    assert(spec_str_val(s@, k as int, j) == seq![d]
                                        + spec_str_val(s@, k as int + 6, j));
                                    assert(out@.push(d) + spec_str_val(s@, k as int + 6, j) =~= out@
                                        + spec_str_val(s@, k as int, j));
                                }
                            }
                            out.push(d);
                            k = k + 6;
                        },
                        None => {
                            proof {
                                assert(!spec_u_ok(s@, k as int + 1));
                            }
                            return None;
                        },
                    }
                },
            }
        } else {
            if (c as u32) < 32 {
                return None;
            }
            proof {
                lemma_str_end_ge(s@, k as int + 1);
                let e = spec_str_end(s@, k as int);
                if e is Some {
                    let j = e->0;
                    assert(spec_str_val(s@, k as int, j) == seq![c] + spec_str_val(
                        s@,
                        k as int + 1,
                        j,
                    ));
                    assert(out@.push(c) + spec_str_val(s@, k as int + 1, j) =~= out@
                        + spec_str_val(s@, k as int, j));
                }
            }
            out.push(c);
            k = k + 1;
        }
    }
}

/// Colon plus string value, after a member name.
fn parse_key_member(s: &str, i: usize, n: usize) -> (r: Option<(String, usize)>)
    requires
        n == s@.len(),
        i <= n,
    ensures
        match spec_key_member(s@, i as int) {
            Some((v, p)) => r matches Some(x) && x.0@ == v && x.1 == p,
            None => r is None,
        },
        r matches Some(x) ==> x.1 <= n,
{
    let c = skip_ws(s, i, n);
    if !(c < n && s.get_char(c) == ':') {
        return None;
    }
    parse_string_token(s, skip_ws(s, c + 1, n), n)
}

/// Every position in `[i, spec_scan_digits(s, i))` holds a digit.
proof fn lemma_scan_digits_range(s: Seq<char>, i: int)
    requires
        0 <= i,
    ensures
        forall|k: int| i <= k < spec_scan_digits(s, i) ==> is_digit(s[k]),
        spec_scan_digits(s, i) >= i,
    decreases s.len() - i,
{
    if 0 <= i < s.len() && is_digit(s[i]) {
        lemma_scan_digits_range(s, i + 1);
    }
}

proof fn lemma_digits_val_nonneg(s: Seq<char>, i: int, j: int)
    requires
        i <= j,
        forall|k: int| i <= k < j ==> is_digit(s[k]),
    ensures
        spec_digits_val(s, i, j) >= 0,
    decreases j - i,
{
    if i < j {
        lemma_digits_val_nonneg(s, i, j - 1);
    }
}

/// The value of a digit run only grows as the run extends.
proof fn lemma_digits_val_mono(s: Seq<char>, i: int, j: int, j2: int)
    requires
        i <= j <= j2,
        forall|k: int| i <= k < j2 ==> is_digit(s[k]),
    ensures
        spec_digits_val(s, i, j2) >= spec_digits_val(s, i, j),
    decreases j2 - j,
{
    if j < j2 {
        lemma_digits_val_mono(s, i, j, j2 - 1);
        lemma_digits_val_nonneg(s, i, j2 - 1);
    }
}

/// Colon plus unsigned decimal value, after a member name.
#[verifier::loop_isolation(false)]
fn parse_num_member(s: &str, i: usize, n: usize) -> (r: Option<(u64, usize)>)
    requires
        n == s@.len(),
        i <= n,
    ensures
        match spec_num_member(s@, i as int) {
            Some((v, p)) => r matches Some(x) && x.0 == v && x.1 == p,
            None => r is None,
        },
        r matches Some(x) ==> x.1 <= n,
{
    let c = skip_ws(s, i, n);
    if !(c < n && s.get_char(c) == ':') {
        return None;
    }
    let ns = skip_ws(s, c + 1, n);
    let ne = scan_digits(s, ns, n);
    if ne == ns {
        return None;
    }
    if ne - ns > 1 && s.get_char(ns) == '0' {
        return None;
    }
    proof {
        lemma_scan_digits_range(s@, ns as int);
    }
    let mut acc: u128 = 0;
    let mut k: usize = ns;
    while k < ne
        invariant
            ns <= k <= ne,
            ne == spec_scan_digits(s@, ns as int),
            ne <= n == s@.len(),
            forall|t: int| ns <= t < ne ==> is_digit(s@[t]),
            acc == spec_digits_val(s@, ns as int, k as int),
            acc <= u64::MAX,
        decreases ne - k,
    {
        let d = exec_digit_val(s.get_char(k));
        acc = acc * 10 + (d as u128);
        k = k + 1;
        if acc > u64::MAX as u128 {
            proof {
                assert(acc == spec_digits_val(s@, ns as int, k as int));
                lemma_digits_val_mono(s@, ns as int, k as int, ne as int);
                assert(spec_digits_val(s@, ns as int, ne as int) > u64::MAX);
            }
            return None;
        }
    }
    Some((acc as u64, ne))
}

/// Whether a decoded member name equals a fixed name.
fn str_matches(a: &String, lit: &str) -> (r: bool)
    ensures
        r == (a@ == lit@),
{
    let b = String::from_str(lit);
    a.eq(&b)
}

/// Parses a record; returns the fields exactly when `spec_parse` accepts.
pub fn parse_config(s: &str) -> (r: Option<Config>)
    ensures
        match spec_parse(s@) {
            Some((k, v)) => r matches Some(c) && c.private_key@ == k && c.chain_id == v,
            None => r is None,
        },
{
    let n = s.unicode_len();
    let i0 = skip_ws(s, 0, n);
    if !(i0 < n && s.get_char(i0) == '{') {
        return None;
    }
    let (name1, p1) = match parse_string_token(s, skip_ws(s, i0 + 1, n), n) {
        Some(x) => x,
        None => {
            return None;
        },
    };
    if str_matches(&name1, "private_key") {
        let (key, p2) = match parse_key_member(s, p1, n) {
            Some(x) => x,
            None => {
                return None;
            },
        };
        let c = skip_ws(s, p2, n);
        if !(c < n && s.get_char(c) == ',') {
            return None;
        }
        let (name2, p3) = match parse_string_token(s, skip_ws(s, c + 1, n), n) {
            Some(x) => x,
            None => {
                return None;
            },
        };
        if !str_matches(&name2, "chain_id") {
            return None;
        }
        let (v, p4) = match parse_num_member(s, p3, n) {
            Some(x) => x,
            None => {
                return None;
            },
        };
        let e = skip_ws(s, p4, n);
        if !(e < n && s.get_char(e) == '}') {
            return None;
        }
        if skip_ws(s, e + 1, n) != n {
            return None;
        }
        Some(Config { private_key: key, chain_id: v })
    } else if str_matches(&name1, "chain_id") {
        let (v, p2) = match parse_num_member(s, p1, n) {
            Some(x) => x,
            None => {
                return None;
            },
        };
        let c = skip_ws(s, p2, n);
        if !(c < n && s.get_char(c) == ',') {
            return None;
        }
        let (name2, p3) = match parse_string_token(s, skip_ws(s, c + 1, n), n) {
            Some(x) => x,
            None => {
                return None;
            },
        };
        if !str_matches(&name2, "private_key") {
            return None;
        }
        let (key, p4) = match parse_key_member(s, p3, n) {
            Some(x) => x,
            None => {
                return None;
            },
        };
        let e = skip_ws(s, p4, n);
        if !(e < n && s.get_char(e) == '}') {
            return None;
        }
        if skip_ws(s, e + 1, n) != n {
            return None;
        }
        Some(Config { private_key: key, chain_id: v })
    } else {
        return None;
    }
}

fn digit_str(d: u64) -> (r: &'static str)
    requires
        d < 10,
    ensures
        r@ == seq![digit_char(d as int)],
{
    let r: &'static str = if d == 0 {
        "0"
    } else if d == 1 {
        "1"
    } else if d == 2 {
        "2"
    } else if d == 3 {
        "3"
    } else if d == 4 {
        "4"
    } else if d == 5 {
        "5"
    } else if d == 6 {
        "6"
    } else if d == 7 {
        "7"
    } else if d == 8 {
        "8"
    } else {
        "9"
    };
    proof {
        reveal_strlit("0");
        reveal_strlit("1");
        reveal_strlit("2");
        reveal_strlit("3");
        reveal_strlit("4");
        reveal_strlit("5");
        reveal_strlit("6");
        reveal_strlit("7");
        reveal_strlit("8");
        reveal_strlit("9");
        assert(r@ =~= seq![digit_char(d as int)]);
    }
    r
}

/// Renders a number in decimal.
pub fn u64_to_dec(n: u64) -> (r: String)
    ensures
        r@ == spec_dec(n as nat),
    decreases n,
{
    if n < 10 {
        String::from_str(digit_str(n))
    } else {
        let mut s = u64_to_dec(n / 10);
        s.append(digit_str(n % 10));
        proof {
            assert(s@ =~= spec_dec(n as nat));
        }
        s
    }
}

/// A string body of plain characters (no quote, backslash or control
/// character) closed by a quote decodes to itself.
proof fn lemma_str_plain(s: Seq<char>, i: int, j: int)
    requires
        0 <= i <= j < s.len(),
        forall|k: int| i <= k < j ==> s[k] != '"' && s[k] != '\\' && (s[k] as u32) >= 32,
        s[j] == '"',
    ensures
        spec_str_end(s, i) == Some(j),
        spec_str_val(s, i, j) == s.subrange(i, j),
    decreases j - i,
{
    if i == j {
        assert(spec_str_val(s, i, j) =~= s.subrange(i, j));
    } else {
        lemma_str_plain(s, i + 1, j);
        assert(s.subrange(i, j) =~= seq![s[i]] + s.subrange(i + 1, j));
    }
}

proof fn lemma_scan_digits_end(s: Seq<char>, i: int, j: int)
    requires
        0 <= i <= j <= s.len(),
        forall|k: int| i <= k < j ==> is_digit(s[k]),
        j == s.len() || !is_digit(s[j]),
    ensures
        spec_scan_digits(s, i) == j,
    decreases j - i,
{
    if i < j {
        lemma_scan_digits_end(s, i + 1, j);
    }
}

/// A decimal rendering is nonempty and consists of digits.
proof fn lemma_dec_digits(n: nat)
    ensures
        spec_dec(n).len() >= 1,
        forall|k: int| 0 <= k < spec_dec(n).len() ==> is_digit(#[trigger] spec_dec(n)[k]),
    decreases n,
{
    if n >= 10 {
        lemma_dec_digits(n / 10);
    }
}

/// A decimal rendering of a nonzero number does not start with a zero.
proof fn lemma_dec_no_leading_zero(n: nat)
    ensures
        n >= 1 ==> spec_dec(n)[0] != '0',
    decreases n,
{
    if n >= 10 {
        lemma_dec_digits(n / 10);
        lemma_dec_no_leading_zero(n / 10);
    }
}

/// Reading a decimal rendering embedded in `s` gives back the number.
proof fn lemma_dec_val(s: Seq<char>, i: int, n: nat)
    requires
        0 <= i,
        i + spec_dec(n).len() <= s.len(),
        s.subrange(i, i + spec_dec(n).len() as int) == spec_dec(n),
    ensures
        spec_digits_val(s, i, i + spec_dec(n).len() as int) == n,
    decreases n,
{
    let d = spec_dec(n);
    if n < 10 {
        lemma_digit_char_val(n as int);
        assert(s.subrange(i, i + 1)[0] == d[0]);
        assert(spec_digits_val(s, i, i) == 0);
        assert(spec_digits_val(s, i, i + 1) == digit_val(s[i]));
    } else {
        let dprev = spec_dec(n / 10);
        let lp = dprev.len() as int;
        assert(d == dprev + seq![digit_char((n % 10) as int)]);
        assert(s.subrange(i, i + lp) =~= dprev);
        lemma_dec_val(s, i, n / 10);
        lemma_digit_char_val((n % 10) as int);
        assert(s.subrange(i, i + d.len() as int)[d.len() - 1] == d[d.len() - 1]);
        assert(s[i + d.len() - 1] == digit_char((n % 10) as int));
        assert(spec_digits_val(s, i, i + d.len() as int) == spec_digits_val(s, i, i + lp) * 10
            + digit_val(s[i + lp]));
    }
}

proof fn lemma_digit_char_val(dv: int)
    requires
        0 <= dv < 10,
    ensures
        digit_val(digit_char(dv)) == dv,
{
}

/// Round trip: a record written by `spec_encode` parses back to the same
/// key and chain id, for any key free of quote, backslash and control
/// characters (normalized hex keys always are; the codec writes keys
/// unescaped).
pub proof fn lemma_parse_encode(key: Seq<char>, chain_id: u64)
    requires
        forall|i: int|
            0 <= i < key.len() ==> key[i] != '"' && key[i] != '\\' && (key[i] as u32) >= 32,
    ensures
        spec_parse(spec_encode(key, chain_id)) == Some((key, chain_id)),
{
    reveal_strlit("{\n  ");
    reveal_strlit("\"");
    reveal_strlit("private_key");
    reveal_strlit(": ");
    reveal_strlit(",\n  ");
    reveal_strlit("chain_id");
    reveal_strlit("\n}");
    let pk = "private_key"@;
    let cid = "chain_id"@;
    let d = spec_dec(chain_id as nat);
    let s = spec_encode(key, chain_id);
    let l = key.len() as int;
    lemma_dec_digits(chain_id as nat);
    lemma_dec_no_leading_zero(chain_id as nat);
    let dd = d.len() as int;
    assert(s.len() == 39 + l + dd);
    assert(s[0] == '{');
    assert(s[1] == '\n');
    assert(s[2] == ' ');
    assert(s[3] == ' ');
    assert(s[4] == '"');
    assert(forall|k: int| 0 <= k < 11 ==> s[5 + k] == pk[k]);
    assert(s[16] == '"');
    assert(s[17] == ':');
    assert(s[18] == ' ');
    assert(s[19] == '"');
    assert(forall|k: int| 0 <= k < l ==> s[20 + k] == key[k]);
    assert(s[20 + l] == '"');
    assert(s[21 + l] == ',');
    assert(s[22 + l] == '\n');
    assert(s[23 + l] == ' ');
    assert(s[24 + l] == ' ');
    assert(s[25 + l] == '"');
    assert(forall|k: int| 0 <= k < 8 ==> s[26 + l + k] == cid[k]);
    assert(s[34 + l] == '"');
    assert(s[35 + l] == ':');
    assert(s[36 + l] == ' ');
    assert(forall|k: int| 0 <= k < dd ==> s[37 + l + k] == d[k]);
    assert(s[37 + l + dd] == '\n');
    assert(s[38 + l + dd] == '}');
    // opening brace, then whitespace up to the first member name
    assert(spec_skip_ws(s, 0) == 0);
    assert(spec_skip_ws(s, 4) == 4);
    assert(spec_skip_ws(s, 3) == 4);
    assert(spec_skip_ws(s, 2) == 4);
    assert(spec_skip_ws(s, 1) == 4);
    // the name token `"private_key"`
    assert(forall|k: int| 5 <= k < 16 ==> s[k] == pk[k - 5]);
    assert(forall|k: int| 0 <= k < 11 ==> pk[k] != '"' && pk[k] != '\\' && (pk[k] as u32) >= 32);
    lemma_str_plain(s, 5, 16);
    assert(s.subrange(5, 16) =~= pk);
    assert(spec_string_token(s, 4) == Some((pk, 17int)));
    // colon, whitespace, and the key value token
    assert(spec_skip_ws(s, 17) == 17);
    assert(spec_skip_ws(s, 19) == 19);
    assert(spec_skip_ws(s, 18) == 19);
    assert(forall|k: int| 20 <= k < 20 + l ==> s[k] != '"' && s[k] != '\\' && (s[k] as u32) >= 32);
    lemma_str_plain(s, 20, 20 + l);
    assert(s.subrange(20, 20 + l) =~= key);
    assert(spec_string_token(s, 19) == Some((key, 21 + l)));
    assert(spec_key_member(s, 17) == Some((key, 21 + l)));
    // comma and whitespace up to the second member name
    assert(spec_skip_ws(s, 21 + l) == 21 + l);
    assert(spec_skip_ws(s, 25 + l) == 25 + l);
    assert(spec_skip_ws(s, 24 + l) == 25 + l);
    assert(spec_skip_ws(s, 23 + l) == 25 + l);
    assert(spec_skip_ws(s, 22 + l) == 25 + l);
    // the name token `"chain_id"`
    assert(forall|k: int| 26 + l <= k < 34 + l ==> s[k] == cid[k - 26 - l]);
    assert(forall|k: int| 0 <= k < 8 ==> cid[k] != '"' && cid[k] != '\\' && (cid[k] as u32) >= 32);
    lemma_str_plain(s, 26 + l, 34 + l);
    assert(s.subrange(26 + l, 34 + l) =~= cid);
    assert(spec_string_token(s, 25 + l) == Some((cid, 35 + l)));
    // colon and the digits
    assert(spec_skip_ws(s, 35 + l) == 35 + l);
    assert(is_digit(s[37 + l]));
    assert(spec_skip_ws(s, 37 + l) == 37 + l);
    assert(spec_skip_ws(s, 36 + l) == 37 + l);
    lemma_scan_digits_end(s, 37 + l, 37 + l + dd);
    assert(s.subrange(37 + l, 37 + l + dd) =~= d);
    lemma_dec_val(s, 37 + l, chain_id as nat);
    assert(spec_digits_val(s, 37 + l, 37 + l + dd) == chain_id);
    assert(chain_id < 10 ==> dd == 1);
    assert(dd > 1 ==> s[37 + l] != '0');
    assert(spec_num_member(s, 35 + l) == Some((chain_id, 37 + l + dd)));
    // closing brace and the end
    assert(spec_skip_ws(s, 38 + l + dd) == 38 + l + dd);
    assert(spec_skip_ws(s, 37 + l + dd) == 38 + l + dd);
    assert(spec_skip_ws(s, 39 + l + dd) == 39 + l + dd);
    assert(spec_object_end(s, 37 + l + dd));
    assert(pk != cid);
    assert(spec_parse(s) == Some((key, chain_id)));
}

/// Serializes a record as pretty-printed JSON, exactly `spec_encode`.
pub fn encode_config(key: &str, chain_id: u64) -> (r: String)
    ensures
        r@ == spec_encode(key@, chain_id),
{
    let mut s = String::from_str("{\n  ");
    s.append("\"");
    s.append("private_key");
    s.append("\"");
    s.append(": ");
    s.append("\"");
    s.append(key);
    s.append("\"");
    s.append(",\n  ");
    s.append("\"");
    s.append("chain_id");
    s.append("\"");
    s.append(": ");
    let d = u64_to_dec(chain_id);
    s.append(d.as_str());
    s.append("\n}");
    proof {
        assert(s@ =~= spec_encode(key@, chain_id));
    }
    s
}

} // verus!
