//! Compact JSON text built from string literals and unsigned numbers.
//!
//! Identity keys and hash inputs are the compact JSON encodings of small
//! tuples and records. The string literals come from `serde_json`; the
//! brackets, braces, commas and decimal numbers are written here.
use vstd::prelude::*;
use crate::text::{decimal, hex_digit, push_char, push_decimal, push_str};

verus! {

/// How `serde_json` writes one character inside a string literal (its
/// `ESCAPE` table and `write_char_escape`): the quote, the backslash and the
/// control characters below U+0020 are escaped, with the short escapes where
/// JSON has them and `\u00XX` in lower-case hex otherwise; every other
/// character stands for itself.
pub open spec fn escaped_char(c: char) -> Seq<char> {
    if c == '"' {
        seq!['\\', '"']
    } else if c == '\\' {
        seq!['\\', '\\']
    } else if c == '\u{8}' {
        seq!['\\', 'b']
    } else if c == '\t' {
        seq!['\\', 't']
    } else if c == '\n' {
        seq!['\\', 'n']
    } else if c == '\u{c}' {
        seq!['\\', 'f']
    } else if c == '\r' {
        seq!['\\', 'r']
    } else if (c as u32) < 32 {
        seq!['\\', 'u', '0', '0', hex_digit(((c as u32) / 16) as nat), hex_digit(((c as u32) % 16) as nat)]
    } else {
        seq![c]
    }
}

/// The characters of `s`, each escaped.
pub open spec fn escaped(s: Seq<char>) -> Seq<char>
    decreases s.len(),
{
    if s.len() == 0 {
        seq![]
    } else {
        escaped_char(s[0]) + escaped(s.drop_first())
    }
}

/// The JSON string literal that `serde_json::to_string` writes for `s`:
/// a quote, the escaped characters, a quote.
#[verifier::opaque]
pub open spec fn json_literal(s: Seq<char>) -> Seq<char> {
    seq!['"'] + escaped(s) + seq!['"']
}

proof fn lemma_hex_digit_injective(a: nat, b: nat)
    requires
        a < 16,
        b < 16,
        hex_digit(a) == hex_digit(b),
    ensures
        a == b,
{
    assert((hex_digit(a) as u32) == (hex_digit(b) as u32));
}

/// An escape never begins with a quote: it is a backslash sequence, or the
/// character itself, which is then neither a quote nor a backslash.
proof fn lemma_escaped_char_head(c: char)
    ensures
        escaped_char(c).len() >= 1,
        escaped_char(c)[0] != '"',
        escaped_char(c)[0] == '\\' || (escaped_char(c) == seq![c] && c != '\\'),
{
}

/// One escape followed by anything tells which character it was, and
/// where it ends.
proof fn lemma_escaped_char_prefix(c: char, d: char, u: Seq<char>, v: Seq<char>)
    requires
        escaped_char(c) + u == escaped_char(d) + v,
    ensures
        c == d,
        u == v,
{
    let ec = escaped_char(c);
    let ed = escaped_char(d);
    lemma_escaped_char_head(c);
    lemma_escaped_char_head(d);
    assert((ec + u)[0] == ec[0]);
    assert((ed + v)[0] == ed[0]);
    if ec[0] != '\\' {
        assert(ed[0] == c);
        assert(d == c);
    } else {
        assert((ec + u)[1] == ec[1]);
        assert((ed + v)[1] == ed[1]);
        if ec[1] == 'u' {
            assert((ec + u)[4] == ec[4] && (ed + v)[4] == ed[4]);
            assert((ec + u)[5] == ec[5] && (ed + v)[5] == ed[5]);
            lemma_hex_digit_injective(((c as u32) / 16) as nat, ((d as u32) / 16) as nat);
            lemma_hex_digit_injective(((c as u32) % 16) as nat, ((d as u32) % 16) as nat);
            assert((c as u32) == (d as u32));
        }
    }
    assert(ec == ed);
    assert((ec + u).skip(ec.len() as int) =~= u);
    assert((ed + v).skip(ed.len() as int) =~= v);
}

/// Escaped text followed by a quote ends at that quote: the text before it
/// and what follows it are both determined.
proof fn lemma_escaped_delimited(a: Seq<char>, b: Seq<char>, x: Seq<char>, y: Seq<char>)
    requires
        escaped(a) + seq!['"'] + x == escaped(b) + seq!['"'] + y,
    ensures
        a == b,
        x == y,
    decreases a.len(),
{
    let l = escaped(a) + seq!['"'] + x;
    let r = escaped(b) + seq!['"'] + y;
    if a.len() == 0 {
        assert(l[0] == '"');
        if b.len() > 0 {
            lemma_escaped_char_head(b[0]);
            assert(r[0] == escaped_char(b[0])[0]);
        }
        assert(l.skip(1) =~= x);
        assert(r.skip(1) =~= y);
    } else if b.len() == 0 {
        lemma_escaped_char_head(a[0]);
        assert(l[0] == escaped_char(a[0])[0]);
        assert(r[0] == '"');
    } else {
        let ta = escaped(a.drop_first()) + seq!['"'] + x;
        let tb = escaped(b.drop_first()) + seq!['"'] + y;
        assert(l =~= escaped_char(a[0]) + ta);
        assert(r =~= escaped_char(b[0]) + tb);
        lemma_escaped_char_prefix(a[0], b[0], ta, tb);
        lemma_escaped_delimited(a.drop_first(), b.drop_first(), x, y);
        assert(a =~= seq![a[0]] + a.drop_first());
        assert(b =~= seq![b[0]] + b.drop_first());
    }
}

/// A JSON string literal is self-delimiting: what it encodes, and what
/// follows it, are read back unambiguously. Every identity key built from
/// such literals, brackets and commas is therefore unambiguous.
pub proof fn lemma_json_literal_delimited(a: Seq<char>, b: Seq<char>, x: Seq<char>, y: Seq<char>)
    requires
        json_literal(a) + x == json_literal(b) + y,
    ensures
        a == b,
        x == y,
{
    reveal(json_literal);
    assert((json_literal(a) + x).drop_first() =~= escaped(a) + seq!['"'] + x);
    assert((json_literal(b) + y).drop_first() =~= escaped(b) + seq!['"'] + y);
    lemma_escaped_delimited(a, b, x, y);
}

/// Calls `serde_json::to_string` on a string slice. The contract claims that
/// the result is `json_literal` of the text, as serde_json's string
/// formatter writes it; serialising a `str` cannot fail, and the error arm is
/// never taken.
#[verifier::external_body]
fn json_string(s: &str) -> (r: String)
    ensures
        r@ == json_literal(s@),
{
    match serde_json::to_string(s) {
        Ok(t) => t,
        Err(_) => String::new(),
    }
}

/// Appends the JSON literal of `s`.
pub fn push_json_str(out: &mut String, s: &str)
    ensures
        final(out)@ == old(out)@ + json_literal(s@),
{
    let lit = json_string(s);
    push_str(out, lit.as_str());
}

/// Appends a JSON number.
pub fn push_json_uint(out: &mut String, n: u64)
    ensures
        final(out)@ == old(out)@ + decimal(n as nat),
{
    push_decimal(out, n);
}

/// Appends a single character of JSON structure (`[`, `]`, `{`, `}`, `,`, `:`).
pub fn push_mark(out: &mut String, c: char)
    ensures
        final(out)@ == old(out)@.push(c),
{
    push_char(out, c);
}

/// `"key":` followed by the JSON literal of `value`.
pub open spec fn json_field(key: Seq<char>, value: Seq<char>) -> Seq<char> {
    json_literal(key) + seq![':'] + value
}

/// Appends `"key":` and then the literal of `value`.
pub fn push_json_field_str(out: &mut String, key: &str, value: &str)
    ensures
        final(out)@ == old(out)@ + json_field(key@, json_literal(value@)),
{
    push_json_str(out, key);
    push_char(out, ':');
    push_json_str(out, value);
}

} // verus!
verus! {

/// String literals separated by commas.
pub open spec fn json_str_list(s: Seq<Seq<char>>) -> Seq<char>
    decreases s.len(),
{
    if s.len() == 0 {
        seq![]
    } else if s.len() == 1 {
        json_literal(s[0])
    } else {
        json_str_list(s.drop_last()) + seq![','] + json_literal(s.last())
    }
}

pub open spec fn string_views(v: Seq<String>) -> Seq<Seq<char>> {
    v.map_values(|s: String| s@)
}

/// Appends `[` the literals of `items` separated by commas `]`.
pub fn push_json_str_array(out: &mut String, items: &Vec<String>)
    ensures
        final(out)@ == old(out)@ + seq!['['] + json_str_list(string_views(items@)) + seq![']'],
{
    push_mark(out, '[');
    let ghost head = out@;
    let ghost sv = string_views(items@);
    let mut i: usize = 0;
    while i < items.len()
        invariant
            sv == string_views(items@),
            i <= items@.len(),
            out@ == head + json_str_list(sv.take(i as int)),
        decreases items.len() - i,
    {
        let ghost part = sv.take(i + 1);
        assert(part.drop_last() =~= sv.take(i as int));
        if i > 0 {
            push_mark(out, ',');
        }
        push_json_str(out, items[i].as_str());
        assert(out@ =~= head + json_str_list(part));
        i = i + 1;
    }
    assert(sv.take(i as int) =~= sv);
    push_mark(out, ']');
}

} // verus!
