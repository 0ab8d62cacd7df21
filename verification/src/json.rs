//! JSON string encoding.
use crate::js::{hex_digit, read_body, utf16, utf16_text};
use vstd::prelude::*;

verus! {

/// How `c` is written inside a JSON string.
pub open spec fn json_char(c: char) -> Seq<char> {
    if c == '"' || c == '\\' {
        seq!['\\', c]
    } else if c == '\u{8}' {
        seq!['\\', 'b']
    } else if c == '\u{c}' {
        seq!['\\', 'f']
    } else if c == '\n' {
        seq!['\\', 'n']
    } else if c == '\r' {
        seq!['\\', 'r']
    } else if c == '\t' {
        seq!['\\', 't']
    } else if 32 > c as nat {
        seq!['\\', 'u', '0', '0', hex_digit(c as nat / 16), hex_digit(c as nat % 16)]
    } else {
        seq![c]
    }
}

/// The inside of the JSON string for `s`.
pub open spec fn json_body(s: Seq<char>) -> Seq<char>
    decreases s.len(),
{
    if s.len() == 0 {
        Seq::empty()
    } else {
        json_char(s[0]) + json_body(s.drop_first())
    }
}

/// The JSON string for `s`, quotes included.
pub open spec fn json_text(s: Seq<char>) -> Seq<char> {
    seq!['"'] + json_body(s) + seq!['"']
}

/// `serde_json::to_string` on a string: a quote, the characters with `"`, `\`
/// and the control characters below a space escaped, a quote. Writing a string
/// into memory has no way to fail.
#[verifier::external_body]
pub(crate) fn json_quote(s: &str) -> (r: Option<String>)
    ensures
        r is Some,
        r->0@ == json_text(s@),
{
    serde_json::to_string(s).ok()
}

/// A JSON string inside a script reads back as the text it was made of.
pub proof fn law_json_reads_back(s: Seq<char>)
    ensures
        read_body('"', json_body(s)) == Some(utf16_text(s)),
    decreases s.len(),
{
    if s.len() > 0 {
        let rest = json_body(s.drop_first());
        let c = s[0];
        let body = json_char(c) + rest;
        law_json_reads_back(s.drop_first());
        if c == '"' || c == '\\' || c == '\u{8}' || c == '\u{c}' || c == '\n' || c == '\r' || c
            == '\t' {
            assert(body.skip(2) == rest);
        } else if 32 > c as nat {
            assert(body.skip(6) == rest);
            assert(c as nat / 16 * 16 + c as nat % 16 == c as nat);
            assert(utf16(c) == seq![c as nat]);
        } else {
            assert(body.drop_first() == rest);
        }
    }
}

/// A JSON string is written character by character between two quotes.
pub proof fn law_json_by_character(x: Seq<char>, y: Seq<char>)
    ensures
        json_text(x) == seq!['"'] + json_body(x) + seq!['"'],
        json_body(x + y) == json_body(x) + json_body(y),
    decreases x.len(),
{
    if x.len() == 0 {
        assert(x + y =~= y);
        assert(json_body(x) + json_body(y) =~= json_body(y));
    } else {
        let rest = x.drop_first();
        law_json_by_character(rest, y);
        assert((x + y)[0] == x[0]);
        assert((x + y).drop_first() =~= rest + y);
        assert(json_char(x[0]) + (json_body(rest) + json_body(y)) =~= (json_char(x[0])
            + json_body(rest)) + json_body(y));
    }
}

/// Only quotes, backslashes and control characters are escaped.
pub proof fn law_json_keeps_plain_text(s: Seq<char>)
    requires
        forall|i: int|
            0 <= i < s.len() ==> #[trigger] s[i] as nat >= 32 && s[i] != '"' && s[i] != '\\',
    ensures
        json_text(s) == seq!['"'] + s + seq!['"'],
    decreases s.len(),
{
    if s.len() > 0 {
        let rest = s.drop_first();
        assert forall|i: int| 0 <= i < rest.len() implies #[trigger] rest[i] as nat >= 32 && rest[i]
            != '"' && rest[i] != '\\' by {
            assert(rest[i] == s[i + 1]);
        }
        law_json_keeps_plain_text(rest);
        lemma_plain_body(rest);
        assert(seq![s[0]] + rest =~= s);
    }
}

proof fn lemma_plain_body(s: Seq<char>)
    requires
        forall|i: int|
            0 <= i < s.len() ==> #[trigger] s[i] as nat >= 32 && s[i] != '"' && s[i] != '\\',
    ensures
        json_body(s) == s,
    decreases s.len(),
{
    if s.len() > 0 {
        let rest = s.drop_first();
        assert forall|i: int| 0 <= i < rest.len() implies #[trigger] rest[i] as nat >= 32 && rest[i]
            != '"' && rest[i] != '\\' by {
            assert(rest[i] == s[i + 1]);
        }
        lemma_plain_body(rest);
        assert(seq![s[0]] + rest =~= s);
    }
}

} // verus!
