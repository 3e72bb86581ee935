//! The wire format of an inbound frame: a JSON object carrying exactly the
//! three fields of a message payload,
//! `{"name": string, "message": string, "date": integer}`.
//!
//! The grammar accepted here, stated precisely by
//! [`spec_parse_message_pack`]: optional JSON whitespace around and between
//! tokens; the three required members in any order, none repeated; string
//! values with the one-character JSON escapes (`\" \\ \/ \b \f \n \r \t`)
//! and `\uXXXX` escapes, surrogate pairs included — so frames from
//! serializers that escape non-ASCII text decode to the characters they
//! mean; and an integer `date` in decimal with optional minus, no leading
//! zeros, within the signed 64-bit range. Anything else is malformed and
//! is rejected as a whole, never panicking: a malformed frame is dropped
//! before it reaches storage.
//!
//! Deliberate strictness, by design rather than accident: a frame with a
//! member other than the three is rejected whole, not silently stripped —
//! the wire shape is exactly the message payload, and anything else is
//! treated as a client error like any other malformed frame.

use vstd::prelude::*;

use crate::msg::MessagePack;
use crate::msg::MessagePackView;
use vstd::string::StrSliceExecFns;
use vstd::string::StringExecFns;

verus! {

/// JSON whitespace.
pub open spec fn is_ws(c: char) -> bool {
    c == ' ' || c == '\t' || c == '\n' || c == '\r'
}

/// A decimal digit (code points 48 through 57).
pub open spec fn is_digit(c: char) -> bool {
    48 <= c as u32 && c as u32 <= 57
}

/// Numeric value of a decimal digit.
pub open spec fn digit_val(c: char) -> int {
    c as u32 - 48
}

/// A Unicode scalar value: what a `char` may hold (the surrogate range is
/// excluded).
pub open spec fn is_scalar(u: int) -> bool {
    (0 <= u < 0xd800) || (0xe000 <= u <= 0x10ffff)
}

/// The character with code `u`, for a scalar value `u`.
pub open spec fn char_of(u: int) -> char
    recommends
        is_scalar(u),
{
    u as char
}

/// Value of a hex digit (both cases), or -1 for any other character.
pub open spec fn hex_val(c: char) -> int {
    let u = c as u32;
    if 48 <= u <= 57 {
        u - 48
    } else if 97 <= u <= 102 {
        u - 97 + 10
    } else if 65 <= u <= 70 {
        u - 65 + 10
    } else {
        -1
    }
}

/// Value of the four hex digits at `i`, or -1 if they are not there.
pub open spec fn hex4(s: Seq<char>, i: int) -> int {
    if 0 <= i && i + 4 <= s.len() && hex_val(s[i]) >= 0 && hex_val(s[i + 1]) >= 0 && hex_val(
        s[i + 2],
    ) >= 0 && hex_val(s[i + 3]) >= 0 {
        ((hex_val(s[i]) * 16 + hex_val(s[i + 1])) * 16 + hex_val(s[i + 2])) * 16 + hex_val(
            s[i + 3],
        )
    } else {
        -1
    }
}

/// The character a one-character JSON escape `\c` stands for, if `c` is a
/// valid escape (`\uXXXX` escapes are handled separately).
pub open spec fn unescape(c: char) -> Option<char> {
    if c == '"' {
        Some('"')
    } else if c == '\\' {
        Some('\\')
    } else if c == '/' {
        Some('/')
    } else if c == 'n' {
        Some('\n')
    } else if c == 't' {
        Some('\t')
    } else if c == 'r' {
        Some('\r')
    } else if c == 'b' {
        Some('\u{0008}')
    } else if c == 'f' {
        Some('\u{000C}')
    } else {
        None
    }
}

/// Index of the first non-whitespace character at or after `i`.
pub open spec fn spec_skip_ws(s: Seq<char>, i: int) -> int
    decreases s.len() - i,
{
    if 0 <= i < s.len() && is_ws(s[i]) {
        spec_skip_ws(s, i + 1)
    } else {
        i
    }
}

/// A `\uXXXX` escape whose backslash stands at `i`: the character it
/// stands for and the index after the escape. A high surrogate must be
/// followed immediately by a low-surrogate escape (the pair stands for one
/// supplementary character); a lone or misordered surrogate, or anything
/// but four hex digits, stands for nothing.
pub open spec fn spec_unicode_escape(s: Seq<char>, i: int) -> Option<(char, int)> {
    let u1 = hex4(s, i + 2);
    if u1 < 0 {
        None
    } else if 0xd800 <= u1 < 0xdc00 {
        if i + 12 <= s.len() && s[i + 6] == '\\' && s[i + 7] == 'u' {
            let u2 = hex4(s, i + 8);
            if 0xdc00 <= u2 < 0xe000 {
                Some((char_of(0x10000 + (u1 - 0xd800) * 0x400 + (u2 - 0xdc00)), i + 12))
            } else {
                None
            }
        } else {
            None
        }
    } else if 0xdc00 <= u1 < 0xe000 {
        None
    } else {
        Some((char_of(u1), i + 6))
    }
}

/// The rest of a JSON string whose opening quote stands before `i` and
/// whose decoded prefix so far is `acc`: the full decoded contents and the
/// index after the closing quote. Unterminated strings, invalid escapes and
/// raw control characters are malformed.
pub open spec fn spec_str_rest(s: Seq<char>, i: int, acc: Seq<char>) -> Option<(Seq<char>, int)>
    decreases s.len() - i,
{
    if i < 0 || i >= s.len() {
        None
    } else if s[i] == '"' {
        Some((acc, i + 1))
    } else if s[i] == '\\' {
        if i + 1 < s.len() {
            if s[i + 1] == 'u' {
                match spec_unicode_escape(s, i) {
                    Some((c, j)) => spec_str_rest(s, j, acc.push(c)),
                    None => None,
                }
            } else {
                match unescape(s[i + 1]) {
                    Some(c) => spec_str_rest(s, i + 2, acc.push(c)),
                    None => None,
                }
            }
        } else {
            None
        }
    } else if (s[i] as u32) < 32 {
        None
    } else {
        spec_str_rest(s, i + 1, acc.push(s[i]))
    }
}

/// A JSON string starting at `i` (at its opening quote): its decoded
/// characters and the index after the closing quote.
pub open spec fn spec_string(s: Seq<char>, i: int) -> Option<(Seq<char>, int)> {
    if 0 <= i < s.len() && s[i] == '"' {
        spec_str_rest(s, i + 1, Seq::empty())
    } else {
        None
    }
}

/// A run of decimal digits starting at `i`, read onto the accumulator
/// `acc`: the value and the index after the run. Magnitudes beyond 2^63
/// (the largest any signed 64-bit value can need) are malformed.
pub open spec fn spec_mag(s: Seq<char>, i: int, acc: int) -> Option<(int, int)>
    decreases s.len() - i,
{
    if 0 <= i < s.len() && is_digit(s[i]) {
        let acc2 = acc * 10 + digit_val(s[i]);
        if acc2 <= 0x8000_0000_0000_0000 {
            spec_mag(s, i + 1, acc2)
        } else {
            None
        }
    } else {
        Some((acc, i))
    }
}

/// A JSON integer at `i`: optional minus, at least one digit, no leading
/// zeros, value within the signed 64-bit range; its value and the index
/// after its last digit.
pub open spec fn spec_int(s: Seq<char>, i: int) -> Option<(int, int)> {
    let neg = 0 <= i < s.len() && s[i] == '-';
    let d: int = if neg {
        i + 1
    } else {
        i
    };
    if !(0 <= d < s.len() && is_digit(s[d])) {
        None
    } else if s[d] == '0' && d + 1 < s.len() && is_digit(s[d + 1]) {
        None
    } else {
        match spec_mag(s, d, 0) {
            Some((mag, j)) => if neg {
                Some((-mag, j))
            } else if mag < 0x8000_0000_0000_0000 {
                Some((mag, j))
            } else {
                None
            },
            None => None,
        }
    }
}

/// A member value of the wire object: a JSON string or a JSON integer.
pub enum JsonValue {
    Str(Seq<char>),
    Int(int),
}

/// A JSON value at `i`: a string if a quote stands there, else an integer.
pub open spec fn spec_value(s: Seq<char>, i: int) -> Option<(JsonValue, int)> {
    if 0 <= i < s.len() && s[i] == '"' {
        match spec_string(s, i) {
            Some((cs, j)) => Some((JsonValue::Str(cs), j)),
            None => None,
        }
    } else {
        match spec_int(s, i) {
            Some((v, j)) => Some((JsonValue::Int(v), j)),
            None => None,
        }
    }
}

/// An object member at `i`: key string, colon, value, with whitespace
/// between the tokens; the key, the value and the index after the value.
pub open spec fn spec_member(s: Seq<char>, i: int) -> Option<(Seq<char>, JsonValue, int)> {
    match spec_string(s, i) {
        Some((k, j)) => {
            let j2 = spec_skip_ws(s, j);
            if 0 <= j2 < s.len() && s[j2] == ':' {
                let j3 = spec_skip_ws(s, j2 + 1);
                match spec_value(s, j3) {
                    Some((v, j4)) => Some((k, v, j4)),
                    None => None,
                }
            } else {
                None
            }
        },
        None => None,
    }
}

/// The three fields of the wire object while they are being collected.
pub struct PartialPack {
    pub name: Option<Seq<char>>,
    pub message: Option<Seq<char>>,
    pub date: Option<int>,
}

/// Files one member into the collected fields: the key must be one of the
/// three field names, not yet seen, with a value of that field's type.
pub open spec fn spec_put(acc: PartialPack, k: Seq<char>, v: JsonValue) -> Option<PartialPack> {
    if k == "name"@ {
        match (acc.name, v) {
            (Option::None, JsonValue::Str(cs)) => Some(
                PartialPack { name: Some(cs), message: acc.message, date: acc.date },
            ),
            _ => None,
        }
    } else if k == "message"@ {
        match (acc.message, v) {
            (Option::None, JsonValue::Str(cs)) => Some(
                PartialPack { name: acc.name, message: Some(cs), date: acc.date },
            ),
            _ => None,
        }
    } else if k == "date"@ {
        match (acc.date, v) {
            (Option::None, JsonValue::Int(dt)) => Some(
                PartialPack { name: acc.name, message: acc.message, date: Some(dt) },
            ),
            _ => None,
        }
    } else {
        None
    }
}

/// What a frame's text decodes to, if it is well-formed: a JSON object with
/// exactly the members `name` (string), `message` (string) and `date`
/// (64-bit integer), in any order, and nothing but whitespace around them.
pub open spec fn spec_parse_message_pack(s: Seq<char>) -> Option<MessagePackView> {
    let i0 = spec_skip_ws(s, 0);
    if !(0 <= i0 < s.len() && s[i0] == '{') {
        None
    } else {
        let i1 = spec_skip_ws(s, i0 + 1);
        match spec_member(s, i1) {
            None => None,
            Some((k1, v1, a)) => {
                let a1 = spec_skip_ws(s, a);
                if !(0 <= a1 < s.len() && s[a1] == ',') {
                    None
                } else {
                    let a2 = spec_skip_ws(s, a1 + 1);
                    match spec_member(s, a2) {
                        None => None,
                        Some((k2, v2, b)) => {
                            let b1 = spec_skip_ws(s, b);
                            if !(0 <= b1 < s.len() && s[b1] == ',') {
                                None
                            } else {
                                let b2 = spec_skip_ws(s, b1 + 1);
                                match spec_member(s, b2) {
                                    None => None,
                                    Some((k3, v3, c)) => {
                                        let c1 = spec_skip_ws(s, c);
                                        if !(0 <= c1 < s.len() && s[c1] == '}') {
                                            None
                                        } else if spec_skip_ws(s, c1 + 1) != s.len() {
                                            None
                                        } else {
                                            spec_assemble(k1, v1, k2, v2, k3, v3)
                                        }
                                    },
                                }
                            }
                        },
                    }
                }
            },
        }
    }
}

/// Files the three members in order; all three fields must come out filled.
pub open spec fn spec_assemble(
    k1: Seq<char>,
    v1: JsonValue,
    k2: Seq<char>,
    v2: JsonValue,
    k3: Seq<char>,
    v3: JsonValue,
) -> Option<MessagePackView> {
    let acc0 = PartialPack { name: Option::None, message: Option::None, date: Option::None };
    match spec_put(acc0, k1, v1) {
        None => None,
        Some(acc1) => match spec_put(acc1, k2, v2) {
            None => None,
            Some(acc2) => match spec_put(acc2, k3, v3) {
                None => None,
                Some(acc3) => match (acc3.name, acc3.message, acc3.date) {
                    (Some(nm), Some(msg), Some(dt)) => Some(
                        MessagePackView { name: nm, message: msg, date: dt },
                    ),
                    _ => None,
                },
            },
        },
    }
}

/// Relies on `String::push`: appends exactly one character.
#[verifier::external_body]
pub(crate) fn push_char(s: &mut String, c: char)
    ensures
        final(s)@ == old(s)@.push(c),
{
    s.push(c);
}

/// Relies on `char::from_u32`: `Some` exactly on Unicode scalar values
/// (not a surrogate, at most 0x10FFFF), and the returned character carries
/// exactly the requested code.
#[verifier::external_body]
fn char_from_u32(u: u32) -> (r: Option<char>)
    ensures
        match r {
            Some(c) => is_scalar(u as int) && c as u32 == u,
            None => !is_scalar(u as int),
        },
{
    char::from_u32(u)
}

/// Hex digit value, executable twin of [`hex_val`].
fn hex_val_exec(c: char) -> (r: Option<u32>)
    ensures
        match r {
            Some(v) => hex_val(c) == v && v < 16,
            None => hex_val(c) < 0,
        },
{
    let u = c as u32;
    if 48 <= u && u <= 57 {
        Some(u - 48)
    } else if 97 <= u && u <= 102 {
        Some(u - 97 + 10)
    } else if 65 <= u && u <= 70 {
        Some(u - 65 + 10)
    } else {
        None
    }
}

/// Reads four hex digits; executable twin of [`hex4`].
fn read_hex4(s: &str, n: usize, i: usize) -> (r: Option<u32>)
    requires
        s@.len() == n,
        i <= n,
    ensures
        match r {
            Some(v) => hex4(s@, i as int) == v && v <= 0xffff,
            None => hex4(s@, i as int) < 0,
        },
{
    if n - i < 4 {
        return None;
    }
    let d0 = match hex_val_exec(s.get_char(i)) {
        Some(v) => v,
        None => {
            return None;
        },
    };
    let d1 = match hex_val_exec(s.get_char(i + 1)) {
        Some(v) => v,
        None => {
            return None;
        },
    };
    let d2 = match hex_val_exec(s.get_char(i + 2)) {
        Some(v) => v,
        None => {
            return None;
        },
    };
    let d3 = match hex_val_exec(s.get_char(i + 3)) {
        Some(v) => v,
        None => {
            return None;
        },
    };
    Some(((d0 * 16 + d1) * 16 + d2) * 16 + d3)
}

/// Reads a `\uXXXX` escape whose backslash stands at `k`; executable twin
/// of [`spec_unicode_escape`].
fn read_unicode_escape(s: &str, n: usize, k: usize) -> (r: Option<(char, usize)>)
    requires
        s@.len() == n,
        k <= n,
    ensures
        match spec_unicode_escape(s@, k as int) {
            Some((c, j)) => r matches Some(p) && p.0 == c && p.1 == j && k < p.1 <= n,
            None => r is None,
        },
{
    if n - k < 6 {
        return None;
    }
    let u1 = match read_hex4(s, n, k + 2) {
        Some(v) => v,
        None => {
            return None;
        },
    };
    proof {
        assert(hex4(s@, k as int + 2) >= 0);
        assert(k + 6 <= n);
    }
    if 0xd800 <= u1 && u1 < 0xdc00 {
        if n - k < 12 {
            return None;
        }
        if s.get_char(k + 6) != '\\' || s.get_char(k + 7) != 'u' {
            return None;
        }
        let u2 = match read_hex4(s, n, k + 8) {
            Some(v) => v,
            None => {
                return None;
            },
        };
        if !(0xdc00 <= u2 && u2 < 0xe000) {
            return None;
        }
        let code: u32 = 0x10000 + (u1 - 0xd800) * 0x400 + (u2 - 0xdc00);
        match char_from_u32(code) {
            Some(ch) => {
                proof {
                    vstd::utf8::char_u32_cast(ch, code);
                    assert(ch == char_of(code as int));
                }
                Some((ch, k + 12))
            },
            None => {
                proof {
                    assert(false);
                }
                None
            },
        }
    } else if 0xdc00 <= u1 && u1 < 0xe000 {
        None
    } else {
        match char_from_u32(u1) {
            Some(ch) => {
                proof {
                    vstd::utf8::char_u32_cast(ch, u1);
                    assert(ch == char_of(u1 as int));
                }
                Some((ch, k + 6))
            },
            None => {
                proof {
                    assert(false);
                }
                None
            },
        }
    }
}

/// Whitespace test, executable twin of [`is_ws`].
fn is_ws_exec(c: char) -> (r: bool)
    ensures
        r == is_ws(c),
{
    c == ' ' || c == '\t' || c == '\n' || c == '\r'
}

/// Digit test, executable twin of [`is_digit`].
pub(crate) fn is_digit_exec(c: char) -> (r: bool)
    ensures
        r == is_digit(c),
{
    let u = c as u32;
    48 <= u && u <= 57
}

/// Escape decoding, executable twin of [`unescape`].
fn unescape_exec(c: char) -> (r: Option<char>)
    ensures
        r == unescape(c),
{
    if c == '"' {
        Some('"')
    } else if c == '\\' {
        Some('\\')
    } else if c == '/' {
        Some('/')
    } else if c == 'n' {
        Some('\n')
    } else if c == 't' {
        Some('\t')
    } else if c == 'r' {
        Some('\r')
    } else if c == 'b' {
        Some('\u{0008}')
    } else if c == 'f' {
        Some('\u{000C}')
    } else {
        None
    }
}

/// Advances over whitespace.
fn skip_ws(s: &str, n: usize, i: usize) -> (r: usize)
    requires
        s@.len() == n,
        i <= n,
    ensures
        i <= r <= n,
        r == spec_skip_ws(s@, i as int),
    decreases n - i,
{
    if i < n && is_ws_exec(s.get_char(i)) {
        skip_ws(s, n, i + 1)
    } else {
        i
    }
}

/// Reads a JSON string at `i`.
fn parse_string(s: &str, n: usize, i: usize) -> (r: Option<(String, usize)>)
    requires
        s@.len() == n,
        i <= n,
    ensures
        match spec_string(s@, i as int) {
            Some((cs, j)) => r matches Some(p) && p.0@ == cs && p.1 == j && p.1 <= n,
            None => r is None,
        },
{
    if i >= n || s.get_char(i) != '"' {
        return None;
    }
    let mut acc = String::new();
    let mut k: usize = i + 1;
    loop
        invariant
            s@.len() == n,
            i < k <= n,
            spec_string(s@, i as int) == spec_str_rest(s@, k as int, acc@),
        decreases n - k,
    {
        if k >= n {
            return None;
        }
        let c = s.get_char(k);
        if c == '"' {
            return Some((acc, k + 1));
        }
        if c == '\\' {
            if k + 1 >= n {
                return None;
            }
            let e = s.get_char(k + 1);
            if e == 'u' {
                match read_unicode_escape(s, n, k) {
                    Some((d, j)) => {
                        push_char(&mut acc, d);
                        k = j;
                    },
                    None => {
                        return None;
                    },
                }
            } else {
                match unescape_exec(e) {
                    Some(d) => {
                        push_char(&mut acc, d);
                        k = k + 2;
                    },
                    None => {
                        return None;
                    },
                }
            }
        } else if (c as u32) < 32 {
            return None;
        } else {
            push_char(&mut acc, c);
            k = k + 1;
        }
    }
}

/// Reads a run of digits, accumulating its value; executable twin of
/// [`spec_mag`] started on an empty accumulator.
pub(crate) fn scan_mag(s: &str, n: usize, i: usize) -> (r: Option<(u64, usize)>)
    requires
        s@.len() == n,
        i <= n,
    ensures
        match spec_mag(s@, i as int, 0) {
            Some((mag, j)) => r matches Some(p) && p.0 as int == mag && p.1 == j && i <= p.1 <= n
                && p.0 <= 0x8000_0000_0000_0000u64,
            None => r is None,
        },
{
    let mut mag: u64 = 0;
    let mut k: usize = i;
    while k < n && is_digit_exec(s.get_char(k))
        invariant
            s@.len() == n,
            i <= k <= n,
            mag <= 0x8000_0000_0000_0000u64,
            spec_mag(s@, i as int, 0) == spec_mag(s@, k as int, mag as int),
        decreases n - k,
    {
        let dv: u32 = s.get_char(k) as u32 - 48;
        let next: u128 = (mag as u128) * 10 + (dv as u128);
        if next > 0x8000_0000_0000_0000u128 {
            return None;
        }
        mag = next as u64;
        k = k + 1;
    }
    Some((mag, k))
}

/// Reads a JSON integer at `i`.
fn parse_int(s: &str, n: usize, i: usize) -> (r: Option<(i64, usize)>)
    requires
        s@.len() == n,
        i <= n,
    ensures
        match spec_int(s@, i as int) {
            Some((v, j)) => r matches Some(p) && p.0 as int == v && p.1 == j && p.1 <= n,
            None => r is None,
        },
{
    let mut k: usize = i;
    let mut neg = false;
    if k < n && s.get_char(k) == '-' {
        neg = true;
        k = k + 1;
    }
    if k >= n {
        return None;
    }
    let c0 = s.get_char(k);
    if !is_digit_exec(c0) {
        return None;
    }
    if c0 == '0' && k + 1 < n && is_digit_exec(s.get_char(k + 1)) {
        return None;
    }
    match scan_mag(s, n, k) {
        Some((mag, j)) => {
            if neg {
                let v: i64 = if mag == 0x8000_0000_0000_0000u64 {
                    i64::MIN
                } else {
                    -(mag as i64)
                };
                Some((v, j))
            } else if mag < 0x8000_0000_0000_0000u64 {
                Some((mag as i64, j))
            } else {
                None
            }
        },
        None => None,
    }
}

/// A member value as read: string or 64-bit integer.
enum Json {
    S(String),
    I(i64),
}

impl View for Json {
    type V = JsonValue;

    closed spec fn view(&self) -> JsonValue {
        match self {
            Json::S(x) => JsonValue::Str(x@),
            Json::I(x) => JsonValue::Int(*x as int),
        }
    }
}

/// Reads a JSON value at `i`.
fn parse_value(s: &str, n: usize, i: usize) -> (r: Option<(Json, usize)>)
    requires
        s@.len() == n,
        i <= n,
    ensures
        match spec_value(s@, i as int) {
            Some((v, j)) => r matches Some(p) && p.0@ == v && p.1 == j && p.1 <= n,
            None => r is None,
        },
{
    if i < n && s.get_char(i) == '"' {
        match parse_string(s, n, i) {
            Some((cs, j)) => Some((Json::S(cs), j)),
            None => None,
        }
    } else {
        match parse_int(s, n, i) {
            Some((v, j)) => Some((Json::I(v), j)),
            None => None,
        }
    }
}

/// Reads one object member at `i`.
fn parse_member(s: &str, n: usize, i: usize) -> (r: Option<(String, Json, usize)>)
    requires
        s@.len() == n,
        i <= n,
    ensures
        match spec_member(s@, i as int) {
            Some((k, v, j)) => r matches Some(p) && p.0@ == k && p.1@ == v && p.2 == j && p.2
                <= n,
            None => r is None,
        },
{
    let key = match parse_string(s, n, i) {
        Some((k, j)) => (k, j),
        None => {
            return None;
        },
    };
    let j2 = skip_ws(s, n, key.1);
    if !(j2 < n) {
        return None;
    }
    if s.get_char(j2) != ':' {
        return None;
    }
    let j3 = skip_ws(s, n, j2 + 1);
    match parse_value(s, n, j3) {
        Some((v, j4)) => Some((key.0, v, j4)),
        None => None,
    }
}

/// The three fields as read so far.
struct Partial {
    name: Option<String>,
    message: Option<String>,
    date: Option<i64>,
}

impl View for Partial {
    type V = PartialPack;

    closed spec fn view(&self) -> PartialPack {
        PartialPack {
            name: match self.name {
                Some(ref x) => Some(x@),
                None => None,
            },
            message: match self.message {
                Some(ref x) => Some(x@),
                None => None,
            },
            date: match self.date {
                Some(x) => Some(x as int),
                None => None,
            },
        }
    }
}

/// Files one member into the fields read so far; executable twin of
/// [`spec_put`].
fn put(acc: Partial, k: &String, v: Json) -> (r: Option<Partial>)
    ensures
        match spec_put(acc@, k@, v@) {
            Some(p) => r matches Some(rp) && rp@ == p,
            None => r is None,
        },
{
    if k.eq(&String::from_str("name")) {
        match (acc.name, v) {
            (Option::None, Json::S(cs)) => Some(
                Partial { name: Some(cs), message: acc.message, date: acc.date },
            ),
            _ => None,
        }
    } else if k.eq(&String::from_str("message")) {
        match (acc.message, v) {
            (Option::None, Json::S(cs)) => Some(
                Partial { name: acc.name, message: Some(cs), date: acc.date },
            ),
            _ => None,
        }
    } else if k.eq(&String::from_str("date")) {
        match (acc.date, v) {
            (Option::None, Json::I(dt)) => Some(
                Partial { name: acc.name, message: acc.message, date: Some(dt) },
            ),
            _ => None,
        }
    } else {
        None
    }
}

/// Decodes one frame. Returns the payload exactly when the text matches
/// the wire grammar ([`spec_parse_message_pack`]), and `None` — never a
/// panic — on any malformed text.
pub fn parse_message_pack(s: &str) -> (r: Option<MessagePack>)
    ensures
        match spec_parse_message_pack(s@) {
            Some(v) => r matches Some(mp) && mp@ == v,
            None => r is None,
        },
{
    let n = s.unicode_len();
    let i0 = skip_ws(s, n, 0);
    if !(i0 < n) {
        return None;
    }
    if s.get_char(i0) != '{' {
        return None;
    }
    let i1 = skip_ws(s, n, i0 + 1);
    let (k1, v1, a) = match parse_member(s, n, i1) {
        Some(t) => t,
        None => {
            return None;
        },
    };
    let a1 = skip_ws(s, n, a);
    if !(a1 < n) {
        return None;
    }
    if s.get_char(a1) != ',' {
        return None;
    }
    let a2 = skip_ws(s, n, a1 + 1);
    let (k2, v2, b) = match parse_member(s, n, a2) {
        Some(t) => t,
        None => {
            return None;
        },
    };
    let b1 = skip_ws(s, n, b);
    if !(b1 < n) {
        return None;
    }
    if s.get_char(b1) != ',' {
        return None;
    }
    let b2 = skip_ws(s, n, b1 + 1);
    let (k3, v3, c) = match parse_member(s, n, b2) {
        Some(t) => t,
        None => {
            return None;
        },
    };
    let c1 = skip_ws(s, n, c);
    if !(c1 < n) {
        return None;
    }
    if s.get_char(c1) != '}' {
        return None;
    }
    if skip_ws(s, n, c1 + 1) != n {
        return None;
    }
    let acc0 = Partial { name: None, message: None, date: None };
    let acc1 = match put(acc0, &k1, v1) {
        Some(x) => x,
        None => {
            return None;
        },
    };
    let acc2 = match put(acc1, &k2, v2) {
        Some(x) => x,
        None => {
            return None;
        },
    };
    let acc3 = match put(acc2, &k3, v3) {
        Some(x) => x,
        None => {
            return None;
        },
    };
    match (acc3.name, acc3.message, acc3.date) {
        (Some(nm), Some(msg), Some(dt)) => Some(
            MessagePack { name: nm, message: msg, date: dt },
        ),
        _ => None,
    }
}

} // verus!
