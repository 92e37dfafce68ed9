//! JSON text building blocks for the control protocol's line encoders.
//!
//! Object layout and numbers are produced here; string escaping is done by
//! `serde_json`, whose escaping rule is stated here.

use vstd::prelude::*;
use crate::text::{append_str, dec_int, lemma_no_ctrl_concat, lemma_no_ctrl_no_nl, lemma_no_nl_concat, no_ctrl, no_nl, push_dec_i64};

verus! {

/// A lowercase hexadecimal digit (`0 <= d < 16`).
pub open spec fn hex_digit(d: int) -> char {
    if d < 10 {
        (48 + d) as char
    } else {
        (87 + d) as char
    }
}

/// How `serde_json` writes one character inside a string: `\"` and `\\` for
/// quote and backslash; `\b`, `\t`, `\n`, `\f`, `\r` for those controls; any
/// other character below U+0020 as `\u00` and two lowercase hex digits;
/// everything else unchanged.
pub open spec fn json_esc_char(c: char) -> Seq<char> {
    let u = c as u32;
    if c == '"' {
        seq!['\\', '"']
    } else if c == '\\' {
        seq!['\\', '\\']
    } else if u == 0x08 {
        seq!['\\', 'b']
    } else if u == 0x09 {
        seq!['\\', 't']
    } else if u == 0x0a {
        seq!['\\', 'n']
    } else if u == 0x0c {
        seq!['\\', 'f']
    } else if u == 0x0d {
        seq!['\\', 'r']
    } else if u < 0x20 {
        seq!['\\', 'u', '0', '0', hex_digit(u as int / 16), hex_digit(u as int % 16)]
    } else {
        seq![c]
    }
}

/// The characters `serde_json` writes between the quotes of a JSON string for
/// the text `s`: each character escaped by [`json_esc_char`].
pub open spec fn json_escaped(s: Seq<char>) -> Seq<char>
    decreases s.len(),
{
    if s.len() == 0 {
        Seq::empty()
    } else {
        json_escaped(s.drop_last()) + json_esc_char(s.last())
    }
}

/// `s` needs no escaping in JSON: no quote, no backslash, no control character.
pub open spec fn json_plain(s: Seq<char>) -> bool {
    forall|i: int|
        0 <= i < s.len() ==> #[trigger] s[i] != '"' && s[i] != '\\' && (s[i] as u32) >= 0x20
}

/// The JSON string literal for `s`, quotes included.
pub open spec fn json_string(s: Seq<char>) -> Seq<char> {
    seq!['"'] + json_escaped(s) + seq!['"']
}

/// Text that needs no escaping is written as it is.
pub proof fn lemma_plain_unescaped(s: Seq<char>)
    requires
        json_plain(s),
    ensures
        json_escaped(s) == s,
    decreases s.len(),
{
    if s.len() > 0 {
        assert(json_plain(s.drop_last())) by {
            assert forall|i: int| 0 <= i < s.drop_last().len() implies #[trigger] s.drop_last()[i] != '"'
                && s.drop_last()[i] != '\\' && (s.drop_last()[i] as u32) >= 0x20 by {
                assert(s.drop_last()[i] == s[i]);
            }
        }
        lemma_plain_unescaped(s.drop_last());
        let c = s[s.len() - 1];
        assert(c != '"' && c != '\\' && (c as u32) >= 0x20);
        assert(json_escaped(s) =~= s);
    }
}

/// Escaped text holds no control character (hence no line feed, no NUL).
pub proof fn lemma_escaped_no_ctrl(s: Seq<char>)
    ensures
        no_ctrl(json_escaped(s)),
    decreases s.len(),
{
    if s.len() > 0 {
        lemma_escaped_no_ctrl(s.drop_last());
        let c = s.last();
        let u = c as u32;
        assert(no_ctrl(json_esc_char(c))) by {
            if u < 0x20 && c != '"' && c != '\\' && u != 0x08 && u != 0x09 && u != 0x0a && u != 0x0c && u
                != 0x0d {
                let hi = u as int / 16;
                let lo = u as int % 16;
                assert(0 <= hi < 16 && 0 <= lo < 16);
                assert((hex_digit(hi) as u32) >= 48);
                assert((hex_digit(lo) as u32) >= 48);
            }
        }
        lemma_no_ctrl_concat(json_escaped(s.drop_last()), json_esc_char(c));
    }
}

/// A JSON string literal holds no control character.
pub proof fn lemma_json_string_no_ctrl(s: Seq<char>)
    ensures
        no_ctrl(json_string(s)),
        no_nl(json_string(s)),
{
    lemma_escaped_no_ctrl(s);
    lemma_no_ctrl_concat(seq!['"'], json_escaped(s));
    lemma_no_ctrl_concat(seq!['"'] + json_escaped(s), seq!['"']);
    lemma_no_ctrl_no_nl(json_string(s));
}

/// The value of a hexadecimal digit as JSON reads it.
pub open spec fn hex_val(c: char) -> int {
    let u = c as u32;
    if 48 <= u <= 57 {
        u - 48
    } else if 97 <= u <= 102 {
        u - 87
    } else if 65 <= u <= 70 {
        u - 55
    } else {
        0
    }
}

/// The character a two-character escape `\e` stands for in JSON.
pub open spec fn unescape_char(e: char) -> char {
    if e == 'b' {
        8u32 as char
    } else if e == 't' {
        9u32 as char
    } else if e == 'n' {
        10u32 as char
    } else if e == 'f' {
        12u32 as char
    } else if e == 'r' {
        13u32 as char
    } else {
        e
    }
}

/// The text a JSON string body `t` denotes, read left to right as a JSON
/// parser does: `\uXXXX` is the character with that code, `\"`, `\\`, `\/`,
/// `\b`, `\t`, `\n`, `\f`, `\r` the characters they name; an unescaped quote
/// ends the string.
pub open spec fn json_read(t: Seq<char>) -> Seq<char>
    decreases t.len(),
{
    if t.len() == 0 || t[0] == '"' {
        Seq::empty()
    } else if t[0] == '\\' && t.len() >= 2 {
        if t[1] == 'u' && t.len() >= 6 {
            seq![
                (hex_val(t[2]) * 4096 + hex_val(t[3]) * 256 + hex_val(t[4]) * 16 + hex_val(t[5])) as char,
            ] + json_read(t.skip(6))
        } else {
            seq![unescape_char(t[1])] + json_read(t.skip(2))
        }
    } else {
        seq![t[0]] + json_read(t.skip(1))
    }
}

proof fn lemma_escaped_front(c: char, r: Seq<char>)
    ensures
        json_escaped(seq![c] + r) == json_esc_char(c) + json_escaped(r),
    decreases r.len(),
{
    if r.len() == 0 {
        assert(seq![c] + r =~= seq![c]);
        assert(seq![c].drop_last() =~= Seq::<char>::empty());
        assert(json_escaped(seq![c]) == json_escaped(Seq::<char>::empty()) + json_esc_char(c));
        assert(json_escaped(seq![c] + r) =~= json_esc_char(c) + json_escaped(r));
    } else {
        lemma_escaped_front(c, r.drop_last());
        assert((seq![c] + r).drop_last() =~= seq![c] + r.drop_last());
        assert((seq![c] + r).last() == r.last());
        assert(json_escaped(seq![c] + r) =~= json_esc_char(c) + json_escaped(r));
    }
}

proof fn lemma_hex_round(d: int)
    requires
        0 <= d < 16,
    ensures
        hex_val(hex_digit(d)) == d,
{
}

proof fn lemma_read_one(c: char, rest: Seq<char>)
    ensures
        json_read(json_esc_char(c) + rest) == seq![c] + json_read(rest),
{
    let u = c as u32;
    let t = json_esc_char(c) + rest;
    if c == '"' || c == '\\' || u == 0x08 || u == 0x09 || u == 0x0a || u == 0x0c || u == 0x0d {
        assert(t.skip(2) =~= rest);
        assert(t[0] == '\\');
        assert(unescape_char(t[1]) == c);
    } else if u < 0x20 {
        let hi = u as int / 16;
        let lo = u as int % 16;
        lemma_hex_round(hi);
        lemma_hex_round(lo);
        assert(t.skip(6) =~= rest);
        assert(t[0] == '\\' && t[1] == 'u' && t[2] == '0' && t[3] == '0');
        assert(hex_val(t[2]) == 0 && hex_val(t[3]) == 0);
        assert(hex_val(t[4]) * 16 + hex_val(t[5]) == u);
        assert(((0 * 4096 + 0 * 256 + hex_val(t[4]) * 16 + hex_val(t[5])) as char) == c);
    } else {
        assert(t.skip(1) =~= rest);
        assert(t[0] == c);
    }
}

/// JSON escaping is exact: whatever the text, a JSON parser reads the
/// escaped body back as that text, and no quote in it ends the string early.
pub proof fn law_json_escape_reads_back(s: Seq<char>)
    ensures
        json_read(json_escaped(s)) == s,
    decreases s.len(),
{
    if s.len() > 0 {
        let c = s[0];
        let r = s.skip(1);
        assert(s =~= seq![c] + r);
        lemma_escaped_front(c, r);
        law_json_escape_reads_back(r);
        lemma_read_one(c, json_escaped(r));
        assert(seq![c] + r =~= s);
    } else {
        assert(json_escaped(s) =~= Seq::<char>::empty());
    }
}

/// `serde_json::to_string` on a string slice: the quoted literal, each
/// character escaped as [`json_esc_char`] says (the escape table and
/// `write_char_escape` in `serde_json::ser`). Serializing a `str` into memory
/// cannot fail.
#[verifier::external_body]
fn json_quote(s: &str) -> (r: String)
    ensures
        r@ == json_string(s@),
{
    match serde_json::to_string(s) {
        Ok(t) => t,
        Err(_) => String::new(),
    }
}

/// Appends the JSON string literal for `s`.
pub fn push_json_str(out: &mut Vec<char>, s: &str)
    ensures
        final(out)@ == old(out)@ + json_string(s@),
        no_nl(old(out)@) ==> no_nl(final(out)@),
        no_ctrl(old(out)@) ==> no_ctrl(final(out)@),
{
    let q = json_quote(s);
    append_str(out, q.as_str());
    proof {
        lemma_json_string_no_ctrl(s@);
        if no_ctrl(old(out)@) {
            lemma_no_ctrl_concat(old(out)@, q@);
        }
        if no_nl(old(out)@) {
            lemma_no_nl_concat(old(out)@, q@);
        }
    }
}

/// JSON rendering of an optional integer: `null` or its decimal form.
pub open spec fn json_opt_int(v: Option<int>) -> Seq<char> {
    match v {
        Some(n) => dec_int(n),
        None => "null"@,
    }
}

/// JSON rendering of a boolean.
pub open spec fn json_bool(b: bool) -> Seq<char> {
    if b {
        "true"@
    } else {
        "false"@
    }
}

/// Appends `true` or `false`.
pub fn push_json_bool(out: &mut Vec<char>, b: bool)
    ensures
        final(out)@ == old(out)@ + json_bool(b),
        no_nl(old(out)@) ==> no_nl(final(out)@),
        no_ctrl(old(out)@) ==> no_ctrl(final(out)@),
{
    proof {
        reveal_strlit("true");
        reveal_strlit("false");
        if no_ctrl(old(out)@) {
            lemma_no_ctrl_concat(old(out)@, json_bool(b));
        }
        if no_nl(old(out)@) {
            lemma_no_nl_concat(old(out)@, json_bool(b));
        }
    }
    if b {
        append_str(out, "true");
    } else {
        append_str(out, "false");
    }
}

/// Appends an optional `i32` as `null` or a decimal number.
pub fn push_opt_i32(out: &mut Vec<char>, v: Option<i32>)
    ensures
        final(out)@ == old(out)@ + json_opt_int(
            match v {
                Some(n) => Some(n as int),
                None => None,
            },
        ),
        no_nl(old(out)@) ==> no_nl(final(out)@),
        no_ctrl(old(out)@) ==> no_ctrl(final(out)@),
{
    proof {
        reveal_strlit("null");
        if no_ctrl(old(out)@) {
            lemma_no_ctrl_concat(old(out)@, "null"@);
        }
    }
    match v {
        Some(n) => push_dec_i64(out, n as i64),
        None => {
            append_str(out, "null");
            proof {
                if no_nl(old(out)@) {
                    lemma_no_nl_concat(old(out)@, "null"@);
                }
            }
        },
    }
}

/// Appends an optional `u16` as `null` or a decimal number.
pub fn push_opt_u16(out: &mut Vec<char>, v: Option<u16>)
    ensures
        final(out)@ == old(out)@ + json_opt_int(
            match v {
                Some(n) => Some(n as int),
                None => None,
            },
        ),
        no_nl(old(out)@) ==> no_nl(final(out)@),
        no_ctrl(old(out)@) ==> no_ctrl(final(out)@),
{
    proof {
        reveal_strlit("null");
        if no_ctrl(old(out)@) {
            lemma_no_ctrl_concat(old(out)@, "null"@);
        }
    }
    match v {
        Some(n) => push_dec_i64(out, n as i64),
        None => {
            append_str(out, "null");
            proof {
                if no_nl(old(out)@) {
                    lemma_no_nl_concat(old(out)@, "null"@);
                }
            }
        },
    }
}

} // verus!
