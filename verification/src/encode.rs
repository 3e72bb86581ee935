//! The history response body: the rows of a query, newest first, as one
//! JSON array text, `[{"id":..,"message":"..","name":"..","date":..}, ...]`.
//!
//! [`spec_encode_history`] states the exact text: ids and dates in plain
//! decimal (minus sign for negatives), strings with the mandatory JSON
//! escapes (`"` and `\`), the short escapes for the common control
//! characters, and `\u00XX` for the rest — so the body is valid JSON for
//! any stored characters.

use vstd::prelude::*;

use crate::msg::ChatMessage;
use crate::msg::ChatMessageView;
use crate::wire::push_char;
use vstd::string::StrSliceExecFns;
use vstd::string::StringExecFns;

verus! {

/// The lower-case hex digit for a value below 16.
pub open spec fn hex_digit(d: int) -> char {
    if d == 0 {
        '0'
    } else if d == 1 {
        '1'
    } else if d == 2 {
        '2'
    } else if d == 3 {
        '3'
    } else if d == 4 {
        '4'
    } else if d == 5 {
        '5'
    } else if d == 6 {
        '6'
    } else if d == 7 {
        '7'
    } else if d == 8 {
        '8'
    } else if d == 9 {
        '9'
    } else if d == 10 {
        'a'
    } else if d == 11 {
        'b'
    } else if d == 12 {
        'c'
    } else if d == 13 {
        'd'
    } else if d == 14 {
        'e'
    } else {
        'f'
    }
}

/// The decimal digit for a value below 10.
pub open spec fn dec_digit(d: int) -> char {
    if d == 0 {
        '0'
    } else if d == 1 {
        '1'
    } else if d == 2 {
        '2'
    } else if d == 3 {
        '3'
    } else if d == 4 {
        '4'
    } else if d == 5 {
        '5'
    } else if d == 6 {
        '6'
    } else if d == 7 {
        '7'
    } else if d == 8 {
        '8'
    } else {
        '9'
    }
}

/// Decimal text of a non-negative value, no leading zeros.
pub open spec fn spec_dec_nat(n: int) -> Seq<char>
    decreases n,
{
    if n < 10 {
        seq![dec_digit(n)]
    } else {
        spec_dec_nat(n / 10).push(dec_digit(n % 10))
    }
}

/// Decimal text of a signed value.
pub open spec fn spec_dec(v: int) -> Seq<char> {
    if v < 0 {
        seq!['-'] + spec_dec_nat(-v)
    } else {
        spec_dec_nat(v)
    }
}

/// The JSON text standing for one character inside a string value.
pub open spec fn esc_char(c: char) -> Seq<char> {
    if c == '"' {
        seq!['\\', '"']
    } else if c == '\\' {
        seq!['\\', '\\']
    } else if c == '\n' {
        seq!['\\', 'n']
    } else if c == '\r' {
        seq!['\\', 'r']
    } else if c == '\t' {
        seq!['\\', 't']
    } else if c == '\u{0008}' {
        seq!['\\', 'b']
    } else if c == '\u{000C}' {
        seq!['\\', 'f']
    } else if (c as u32) < 32 {
        seq!['\\', 'u', '0', '0', hex_digit(c as u32 as int / 16), hex_digit(c as u32 as int % 16)]
    } else {
        seq![c]
    }
}

/// The JSON text of a whole string value (without its quotes).
pub open spec fn spec_escape(s: Seq<char>) -> Seq<char>
    decreases s.len(),
{
    if s.len() == 0 {
        Seq::empty()
    } else {
        esc_char(s.first()) + spec_escape(s.drop_first())
    }
}

/// The JSON object text of one history row, fields in the order the
/// endpoint has always answered with: id, message, name, date.
pub open spec fn spec_encode_row(m: ChatMessageView) -> Seq<char> {
    "{\"id\":"@ + spec_dec(m.id) + ",\"message\":\""@ + spec_escape(m.message) + "\",\"name\":\""@
        + spec_escape(m.name) + "\",\"date\":"@ + spec_dec(m.date) + "}"@
}

/// The comma-separated object texts of the rows, in order.
pub open spec fn spec_encode_rows(rows: Seq<ChatMessageView>) -> Seq<char>
    decreases rows.len(),
{
    if rows.len() == 0 {
        Seq::empty()
    } else if rows.len() == 1 {
        spec_encode_row(rows[0])
    } else {
        spec_encode_row(rows.first()) + seq![','] + spec_encode_rows(rows.drop_first())
    }
}

/// The full response body: the rows as one JSON array text.
pub open spec fn spec_encode_history(rows: Seq<ChatMessageView>) -> Seq<char> {
    seq!['['] + spec_encode_rows(rows) + seq![']']
}

/// Hex digit, executable twin of [`hex_digit`].
fn hex_digit_exec(d: u32) -> (c: char)
    requires
        d < 16,
    ensures
        c == hex_digit(d as int),
{
    if d == 0 {
        '0'
    } else if d == 1 {
        '1'
    } else if d == 2 {
        '2'
    } else if d == 3 {
        '3'
    } else if d == 4 {
        '4'
    } else if d == 5 {
        '5'
    } else if d == 6 {
        '6'
    } else if d == 7 {
        '7'
    } else if d == 8 {
        '8'
    } else if d == 9 {
        '9'
    } else if d == 10 {
        'a'
    } else if d == 11 {
        'b'
    } else if d == 12 {
        'c'
    } else if d == 13 {
        'd'
    } else if d == 14 {
        'e'
    } else {
        'f'
    }
}

/// Decimal digit, executable twin of [`dec_digit`].
fn dec_digit_exec(d: u64) -> (c: char)
    requires
        d < 10,
    ensures
        c == dec_digit(d as int),
{
    if d == 0 {
        '0'
    } else if d == 1 {
        '1'
    } else if d == 2 {
        '2'
    } else if d == 3 {
        '3'
    } else if d == 4 {
        '4'
    } else if d == 5 {
        '5'
    } else if d == 6 {
        '6'
    } else if d == 7 {
        '7'
    } else if d == 8 {
        '8'
    } else {
        '9'
    }
}

/// Decimal text of a magnitude.
fn encode_dec_u64(n: u64) -> (r: String)
    ensures
        r@ == spec_dec_nat(n as int),
    decreases n,
{
    if n < 10 {
        let mut s = String::new();
        push_char(&mut s, dec_digit_exec(n));
        proof {
            assert(s@ =~= seq![dec_digit(n as int)]);
        }
        s
    } else {
        let mut s = encode_dec_u64(n / 10);
        push_char(&mut s, dec_digit_exec(n % 10));
        s
    }
}

/// Decimal text of a signed value.
fn encode_dec_i64(v: i64) -> (r: String)
    ensures
        r@ == spec_dec(v as int),
{
    if v < 0 {
        let mag: u64 = ((-(v + 1)) as u64) + 1;
        let mut s = String::new();
        push_char(&mut s, '-');
        let digits = encode_dec_u64(mag);
        s.append(digits.as_str());
        proof {
            assert(mag as int == -(v as int));
            assert(s@ =~= seq!['-'] + spec_dec_nat(-(v as int)));
        }
        s
    } else {
        encode_dec_u64(v as u64)
    }
}

/// The escaped text of one string value.
fn escape_str(s: &str) -> (r: String)
    ensures
        r@ == spec_escape(s@),
{
    let n = s.unicode_len();
    let mut out = String::new();
    let mut i: usize = 0;
    proof {
        assert(s@.subrange(0, n as int) =~= s@);
        assert(out@ + spec_escape(s@) =~= spec_escape(s@));
    }
    while i < n
        invariant
            s@.len() == n,
            i <= n,
            spec_escape(s@) == out@ + spec_escape(s@.subrange(i as int, n as int)),
        decreases n - i,
    {
        let ghost old_out = out@;
        let ghost rem = s@.subrange(i as int, n as int);
        let c = s.get_char(i);
        let u = c as u32;
        if c == '"' {
            push_char(&mut out, '\\');
            push_char(&mut out, '"');
        } else if c == '\\' {
            push_char(&mut out, '\\');
            push_char(&mut out, '\\');
        } else if c == '\n' {
            push_char(&mut out, '\\');
            push_char(&mut out, 'n');
        } else if c == '\r' {
            push_char(&mut out, '\\');
            push_char(&mut out, 'r');
        } else if c == '\t' {
            push_char(&mut out, '\\');
            push_char(&mut out, 't');
        } else if u == 8 {
            push_char(&mut out, '\\');
            push_char(&mut out, 'b');
        } else if u == 12 {
            push_char(&mut out, '\\');
            push_char(&mut out, 'f');
        } else if u < 32 {
            push_char(&mut out, '\\');
            push_char(&mut out, 'u');
            push_char(&mut out, '0');
            push_char(&mut out, '0');
            push_char(&mut out, hex_digit_exec(u / 16));
            push_char(&mut out, hex_digit_exec(u % 16));
        } else {
            push_char(&mut out, c);
        }
        proof {
            assert(rem.first() == c);
            assert(rem.drop_first() =~= s@.subrange(i + 1, n as int));
            assert(out@ =~= old_out + esc_char(c));
            assert(old_out + (esc_char(c) + spec_escape(rem.drop_first())) =~= (old_out + esc_char(
                c,
            )) + spec_escape(rem.drop_first()));
        }
        i = i + 1;
    }
    proof {
        assert(s@.subrange(n as int, n as int) =~= Seq::<char>::empty());
        assert(out@ + Seq::<char>::empty() =~= out@);
    }
    out
}

/// The object text of one row.
fn encode_row(m: &ChatMessage) -> (r: String)
    ensures
        r@ == spec_encode_row(m@),
{
    let mut s = String::from_str("{\"id\":");
    let id_text = encode_dec_i64(m.id);
    s.append(id_text.as_str());
    s.append(",\"message\":\"");
    let message_text = escape_str(m.message.as_str());
    s.append(message_text.as_str());
    s.append("\",\"name\":\"");
    let name_text = escape_str(m.name.as_str());
    s.append(name_text.as_str());
    s.append("\",\"date\":");
    let date_text = encode_dec_i64(m.date);
    s.append(date_text.as_str());
    s.append("}");
    proof {
        assert(s@ =~= spec_encode_row(m@));
    }
    s
}

/// Appending one more row to the joined texts appends a comma (unless the
/// list was empty) and that row's text.
proof fn lemma_encode_rows_push(rows: Seq<ChatMessageView>, x: ChatMessageView)
    ensures
        spec_encode_rows(rows.push(x)) == if rows.len() == 0 {
            spec_encode_row(x)
        } else {
            spec_encode_rows(rows) + seq![','] + spec_encode_rows(seq![x])
        },
    decreases rows.len(),
{
    if rows.len() == 0 {
        assert(rows.push(x).len() == 1);
        assert(rows.push(x)[0] == x);
    } else {
        lemma_encode_rows_push(rows.drop_first(), x);
        let p = rows.push(x);
        assert(p.len() >= 2);
        assert(p.first() == rows.first());
        assert(p.drop_first() =~= rows.drop_first().push(x));
        if rows.len() == 1 {
            assert(rows.drop_first().len() == 0);
            assert(spec_encode_rows(p) == spec_encode_row(rows.first()) + seq![',']
                + spec_encode_rows(seq![x]));
            assert(spec_encode_rows(rows) == spec_encode_row(rows[0]));
        } else {
            assert(spec_encode_rows(p) == spec_encode_row(rows.first()) + seq![',']
                + spec_encode_rows(rows.drop_first().push(x)));
            assert(spec_encode_rows(rows.drop_first().push(x)) == spec_encode_rows(
                rows.drop_first(),
            ) + seq![','] + spec_encode_rows(seq![x]));
            assert((spec_encode_row(rows.first()) + seq![',']) + (spec_encode_rows(
                rows.drop_first(),
            ) + seq![','] + spec_encode_rows(seq![x])) =~= (spec_encode_row(rows.first())
                + seq![','] + spec_encode_rows(rows.drop_first())) + seq![','] + spec_encode_rows(
                seq![x],
            ));
        }
    }
}

/// Encodes one history page as the response body. The text is exactly
/// [`spec_encode_history`] of the rows, in the given (newest-first) order.
pub fn encode_history(rows: &Vec<ChatMessage>) -> (r: String)
    ensures
        r@ == spec_encode_history(rows@.map(|_j: int, m: ChatMessage| m@)),
{
    let ghost rvs = rows@.map(|_j: int, m: ChatMessage| m@);
    let mut out = String::new();
    push_char(&mut out, '[');
    let mut i: usize = 0;
    proof {
        assert(rvs.subrange(0, 0) =~= Seq::<ChatMessageView>::empty());
        assert(out@ =~= seq!['['] + spec_encode_rows(rvs.subrange(0, 0)));
    }
    while i < rows.len()
        invariant
            rvs == rows@.map(|_j: int, m: ChatMessage| m@),
            i <= rows.len(),
            out@ == seq!['['] + spec_encode_rows(rvs.subrange(0, i as int)),
        decreases rows.len() - i,
    {
        let ghost old_out = out@;
        let ghost done = rvs.subrange(0, i as int);
        if i > 0 {
            push_char(&mut out, ',');
        }
        let row_text = encode_row(&rows[i]);
        out.append(row_text.as_str());
        proof {
            assert(rvs.subrange(0, i + 1) =~= done.push(rvs[i as int]));
            lemma_encode_rows_push(done, rvs[i as int]);
            assert(spec_encode_rows(seq![rvs[i as int]]) == spec_encode_row(rvs[i as int]));
            if i > 0 {
                assert(out@ =~= ((old_out.push(',')) + spec_encode_row(rvs[i as int])));
                assert(((seq!['['] + spec_encode_rows(done)).push(',')) + spec_encode_row(
                    rvs[i as int],
                ) =~= seq!['['] + (spec_encode_rows(done) + seq![','] + spec_encode_rows(
                    seq![rvs[i as int]],
                )));
            } else {
                assert(done.len() == 0);
                assert(out@ =~= seq!['['] + spec_encode_row(rvs[i as int]));
            }
        }
        i = i + 1;
    }
    push_char(&mut out, ']');
    proof {
        assert(rvs.subrange(0, rows@.len() as int) =~= rvs);
        assert(out@ =~= seq!['['] + spec_encode_rows(rvs) + seq![']']);
    }
    out
}

} // verus!
