//! JavaScript string literals.
//!
//! Text that comes from a user or a page is spliced into scripts as the body
//! of a string literal. Everything outside printable ASCII, and a double quote
//! that does not delimit the literal, is written as `\uXXXX` escapes of its
//! UTF-16 code units, so a script is pure ASCII
//! whatever was spliced into it, and the literal reads back as the text.
use crate::text::{push_str, to_chars, views};
use vstd::prelude::*;

verus! {

/// The UTF-16 code units of `c`.
pub open spec fn utf16(c: char) -> Seq<nat> {
    let v = c as nat;
    if v < 0x10000 {
        seq![v]
    } else {
        seq![0xd800 + (v - 0x10000) as nat / 0x400, 0xdc00 + (v - 0x10000) as nat % 0x400]
    }
}

/// The UTF-16 code units of `s`.
pub open spec fn utf16_text(s: Seq<char>) -> Seq<nat>
    decreases s.len(),
{
    if s.len() == 0 {
        Seq::empty()
    } else {
        utf16(s[0]) + utf16_text(s.drop_first())
    }
}

/// Printable ASCII, the space among it.
pub open spec fn printable(c: char) -> bool {
    ' ' <= c <= '~'
}

/// The lower-case hexadecimal digit for `d < 16`.
pub open spec fn hex_digit(d: nat) -> char {
    if d < 10 {
        ((d + 48) as u8) as char
    } else {
        ((d + 87) as u8) as char
    }
}

/// `\uXXXX` for a code unit.
pub open spec fn unit_escape(u: nat) -> Seq<char> {
    seq![
        '\\',
        'u',
        hex_digit(u / 0x1000 % 16),
        hex_digit(u / 0x100 % 16),
        hex_digit(u / 0x10 % 16),
        hex_digit(u % 16),
    ]
}

/// How `c` is written inside a literal that `quote` delimits.
pub open spec fn escaped_char(quote: char, c: char) -> Seq<char> {
    if c == quote || c == '\\' {
        seq!['\\', c]
    } else if c == '"' {
        unit_escape(0x22)
    } else if c == '\n' {
        seq!['\\', 'n']
    } else if c == '\r' {
        seq!['\\', 'r']
    } else if c == '\t' {
        seq!['\\', 't']
    } else if printable(c) {
        seq![c]
    } else if (c as nat) < 0x10000 {
        unit_escape(utf16(c)[0])
    } else {
        unit_escape(utf16(c)[0]) + unit_escape(utf16(c)[1])
    }
}

/// How `s` is written inside a literal that `quote` delimits.
pub open spec fn escaped(quote: char, s: Seq<char>) -> Seq<char>
    decreases s.len(),
{
    if s.len() == 0 {
        Seq::empty()
    } else {
        escaped_char(quote, s[0]) + escaped(quote, s.drop_first())
    }
}

/// The literal for `s`, quotes included.
pub open spec fn literal(quote: char, s: Seq<char>) -> Seq<char> {
    seq![quote] + escaped(quote, s) + seq![quote]
}

/// The double-quoted literals of `list`, separated by commas.
pub open spec fn literal_list(list: Seq<Seq<char>>) -> Seq<char>
    decreases list.len(),
{
    if list.len() == 0 {
        Seq::empty()
    } else if list.len() == 1 {
        literal('"', list[0])
    } else {
        literal_list(list.drop_last()) + seq![','] + literal('"', list.last())
    }
}

/// The array literal for `list`.
pub open spec fn array_literal(list: Seq<Seq<char>>) -> Seq<char> {
    seq!['['] + literal_list(list) + seq![']']
}

/// The value of a hexadecimal digit.
pub open spec fn hex_value(c: char) -> Option<nat> {
    if '0' <= c <= '9' {
        Some((c as nat - 48) as nat)
    } else if 'a' <= c <= 'f' {
        Some((c as nat - 87) as nat)
    } else if 'A' <= c <= 'F' {
        Some((c as nat - 55) as nat)
    } else {
        None
    }
}

/// What a script engine reads from the body of a string literal that `quote`
/// delimits: its UTF-16 code units. `None` if the body ends the literal early,
/// holds a raw control character or an incomplete escape.
pub open spec fn read_body(quote: char, body: Seq<char>) -> Option<Seq<nat>>
    decreases body.len(),
{
    if body.len() == 0 {
        Some(Seq::empty())
    } else if body[0] == quote || 32 > body[0] as nat {
        None
    } else if body[0] != '\\' {
        prepend(utf16(body[0]), read_body(quote, body.drop_first()))
    } else if body.len() < 2 {
        None
    } else if body[1] == 'u' {
        if body.len() < 6 {
            None
        } else {
            match (hex_value(body[2]), hex_value(body[3]), hex_value(body[4]), hex_value(body[5])) {
                (Some(a), Some(b), Some(c), Some(d)) => prepend(
                    seq![a * 0x1000 + b * 0x100 + c * 0x10 + d],
                    read_body(quote, body.skip(6)),
                ),
                _ => None,
            }
        }
    } else {
        let unit = if body[1] == 'n' {
            '\n'
        } else if body[1] == 'r' {
            '\r'
        } else if body[1] == 't' {
            '\t'
        } else if body[1] == 'b' {
            '\u{8}'
        } else if body[1] == 'f' {
            '\u{c}'
        } else {
            body[1]
        };
        prepend(utf16(unit), read_body(quote, body.skip(2)))
    }
}

/// `units` in front of what was read, if anything was.
pub open spec fn prepend(units: Seq<nat>, rest: Option<Seq<nat>>) -> Option<Seq<nat>> {
    match rest {
        Some(r) => Some(units + r),
        None => None,
    }
}

/// The two quotes that delimit literals.
pub open spec fn is_quote(c: char) -> bool {
    c == '"' || c == '\''
}

/// A hexadecimal digit has the value that it was made of.
proof fn lemma_hex(d: nat)
    requires
        d < 16,
    ensures
        hex_value(hex_digit(d)) == Some(d),
{
}

/// Four hexadecimal digits make a code unit.
proof fn lemma_four_digits(u: nat)
    requires
        u < 0x10000,
    ensures
        u / 0x1000 % 16 * 0x1000 + u / 0x100 % 16 * 0x100 + u / 0x10 % 16 * 0x10 + u % 16 == u,
{
    let v = u as u32;
    assert(v / 0x1000 % 16 * 0x1000 + v / 0x100 % 16 * 0x100 + v / 0x10 % 16 * 0x10 + v % 16 == v)
        by (bit_vector)
        requires
            v < 0x10000,
    ;
}

/// Four digits after `\u` read as one code unit.
proof fn lemma_read_unit(quote: char, a: nat, b: nat, c: nat, d: nat, rest: Seq<char>)
    requires
        is_quote(quote),
        a < 16,
        b < 16,
        c < 16,
        d < 16,
    ensures
        read_body(
            quote,
            seq!['\\', 'u', hex_digit(a), hex_digit(b), hex_digit(c), hex_digit(d)] + rest,
        ) == prepend(
            seq![a * 0x1000 + b * 0x100 + c * 0x10 + d],
            read_body(quote, rest),
        ),
{
    let body = seq!['\\', 'u', hex_digit(a), hex_digit(b), hex_digit(c), hex_digit(d)] + rest;
    lemma_hex(a);
    lemma_hex(b);
    lemma_hex(c);
    lemma_hex(d);
    assert(body.skip(6) == rest);
}

/// A `\uXXXX` escape reads as its code unit.
proof fn lemma_unit_escape(quote: char, u: nat, rest: Seq<char>)
    requires
        is_quote(quote),
        u < 0x10000,
    ensures
        read_body(quote, unit_escape(u) + rest) == prepend(seq![u], read_body(quote, rest)),
{
    lemma_four_digits(u);
    lemma_read_unit(quote, u / 0x1000 % 16, u / 0x100 % 16, u / 0x10 % 16, u % 16, rest);
}

/// An escaped character reads as the character.
proof fn lemma_escaped_char(quote: char, c: char, rest: Seq<char>)
    requires
        is_quote(quote),
    ensures
        read_body(quote, escaped_char(quote, c) + rest) == prepend(
            utf16(c),
            read_body(quote, rest),
        ),
{
    let e = escaped_char(quote, c);
    let body = e + rest;
    if c == quote || c == '\\' || c == '\n' || c == '\r' || c == '\t' {
        assert(body.skip(2) == rest);
    } else if c == '"' {
        lemma_unit_escape(quote, 0x22, rest);
    } else if printable(c) {
        assert(body.drop_first() == rest);
    } else if (c as nat) < 0x10000 {
        lemma_unit_escape(quote, utf16(c)[0], rest);
    } else {
        let tail = unit_escape(utf16(c)[1]) + rest;
        lemma_unit_escape(quote, utf16(c)[1], rest);
        lemma_unit_escape(quote, utf16(c)[0], tail);
        assert(body == unit_escape(utf16(c)[0]) + tail);
        if let Some(r) = read_body(quote, rest) {
            assert(seq![utf16(c)[0]] + (seq![utf16(c)[1]] + r) == utf16(c) + r);
        }
    }
}

/// The body of a literal never ends it early, and reads back as the text
/// that was escaped, in UTF-16.
pub proof fn law_literal_reads_back(quote: char, s: Seq<char>)
    requires
        is_quote(quote),
    ensures
        read_body(quote, escaped(quote, s)) == Some(utf16_text(s)),
    decreases s.len(),
{
    if s.len() > 0 {
        law_literal_reads_back(quote, s.drop_first());
        lemma_escaped_char(quote, s[0], escaped(quote, s.drop_first()));
    }
}

/// Text made of printable ASCII alone.
pub open spec fn all_printable(s: Seq<char>) -> bool {
    forall|i: int| 0 <= i < s.len() ==> printable(#[trigger] s[i])
}

proof fn lemma_printable_concat(x: Seq<char>, y: Seq<char>)
    requires
        all_printable(x),
        all_printable(y),
    ensures
        all_printable(x + y),
{
    assert forall|i: int| 0 <= i < (x + y).len() implies printable(#[trigger] (x + y)[i]) by {
        if i < x.len() {
            assert((x + y)[i] == x[i]);
        } else {
            assert((x + y)[i] == y[i - x.len()]);
        }
    }
}

/// Escaped text is printable ASCII whatever the input was.
pub proof fn law_escaped_is_ascii(quote: char, s: Seq<char>)
    requires
        is_quote(quote),
    ensures
        all_printable(escaped(quote, s)),
    decreases s.len(),
{
    if s.len() > 0 {
        law_escaped_is_ascii(quote, s.drop_first());
        assert(all_printable(escaped_char(quote, s[0])));
        lemma_printable_concat(escaped_char(quote, s[0]), escaped(quote, s.drop_first()));
    }
}

/// An array literal is printable ASCII whatever its members are.
pub proof fn law_array_is_ascii(list: Seq<Seq<char>>)
    ensures
        all_printable(array_literal(list)),
{
    lemma_list_is_ascii(list);
    lemma_printable_concat(seq!['['], literal_list(list));
    lemma_printable_concat(seq!['['] + literal_list(list), seq![']']);
}

proof fn lemma_list_is_ascii(list: Seq<Seq<char>>)
    ensures
        all_printable(literal_list(list)),
    decreases list.len(),
{
    if list.len() > 0 {
        let body = escaped('"', list.last());
        lemma_list_is_ascii(list.drop_last());
        law_escaped_is_ascii('"', list.last());
        lemma_printable_concat(seq!['"'], body);
        lemma_printable_concat(seq!['"'] + body, seq!['"']);
        let init = literal_list(list.drop_last());
        lemma_printable_concat(init, seq![',']);
        lemma_printable_concat(init + seq![','], literal('"', list.last()));
    }
}

/// Append the hexadecimal digit for `d`.
fn push_hex(out: &mut String, d: u32)
    requires
        d < 16,
    ensures
        final(out)@ == old(out)@.push(hex_digit(d as nat)),
{
    let b: u8 = d as u8;
    if b < 10 {
        out.push((b + 48) as char);
    } else {
        out.push((b + 87) as char);
    }
}

/// Append the `\uXXXX` escape of a code unit.
fn push_unit(out: &mut String, u: u32)
    requires
        u < 0x10000,
    ensures
        final(out)@ == old(out)@ + unit_escape(u as nat),
{
    let ghost before = out@;
    out.push('\\');
    out.push('u');
    push_hex(out, u / 0x1000 % 16);
    push_hex(out, u / 0x100 % 16);
    push_hex(out, u / 0x10 % 16);
    push_hex(out, u % 16);
    assert(out@ == before + unit_escape(u as nat));
}

/// Append `c` as it stands inside a literal that `quote` delimits.
fn push_escaped_char(out: &mut String, quote: char, c: char)
    ensures
        final(out)@ == old(out)@ + escaped_char(quote, c),
{
    let ghost before = out@;
    if c == quote || c == '\\' {
        out.push('\\');
        out.push(c);
    } else if c == '"' {
        push_unit(out, 0x22);
    } else if c == '\n' {
        out.push('\\');
        out.push('n');
    } else if c == '\r' {
        out.push('\\');
        out.push('r');
    } else if c == '\t' {
        out.push('\\');
        out.push('t');
    } else if ' ' <= c && c <= '~' {
        out.push(c);
    } else {
        let v: u32 = c as u32;
        assert(v <= 0x10ffff);
        if v < 0x10000 {
            push_unit(out, v);
        } else {
            push_unit(out, 0xd800 + (v - 0x10000) / 0x400);
            push_unit(out, 0xdc00 + (v - 0x10000) % 0x400);
        }
    }
    assert(out@ == before + escaped_char(quote, c));
}

/// Append `s` as it stands inside a literal that `quote` delimits.
pub fn push_escaped(out: &mut String, quote: char, s: &str)
    ensures
        final(out)@ == old(out)@ + escaped(quote, s@),
{
    let text = to_chars(s);
    let mut i: usize = 0;
    let ghost start = out@;
    assert(text@.skip(0) == text@);
    while i < text.len()
        invariant
            i <= text@.len(),
            text@ == s@,
            start + escaped(quote, s@) == out@ + escaped(quote, text@.skip(i as int)),
        decreases text@.len() - i,
    {
        let ghost before = out@;
        push_escaped_char(out, quote, text[i]);
        proof {
            let rest = text@.skip(i as int);
            let head = escaped_char(quote, rest[0]);
            assert(rest.drop_first() == text@.skip(i + 1));
            assert(out@ + escaped(quote, text@.skip(i + 1)) == before + (head + escaped(
                quote,
                text@.skip(i + 1),
            )));
        }
        i += 1;
    }
    assert(out@ + escaped(quote, text@.skip(i as int)) == out@);
}

/// `s` as the body of a single-quoted literal, without the quotes.
pub fn json_string_inner(s: &str) -> (r: String)
    ensures
        r@ == escaped('\'', s@),
{
    let mut out = String::new();
    push_escaped(&mut out, '\'', s);
    assert(Seq::<char>::empty() + escaped('\'', s@) == escaped('\'', s@));
    out
}

/// `s` as a double-quoted literal.
pub fn json_string_literal(s: &str) -> (r: String)
    ensures
        r@ == literal('"', s@),
{
    let mut out = String::new();
    out.push('"');
    push_escaped(&mut out, '"', s);
    out.push('"');
    assert(out@ == literal('"', s@));
    out
}

/// `list` as an array literal of double-quoted strings.
pub fn json_string_array(list: &[String]) -> (r: String)
    ensures
        r@ == array_literal(views(list@)),
{
    let mut out = String::new();
    out.push('[');
    let ghost items = views(list@);
    let mut i: usize = 0;
    while i < list.len()
        invariant
            i <= list@.len(),
            items == views(list@),
            out@ == seq!['['] + literal_list(items.take(i as int)),
        decreases list@.len() - i,
    {
        let ghost before = out@;
        let ghost next = items.take(i + 1);
        assert(next.drop_last() == items.take(i as int));
        assert(next.last() == list@[i as int]@);
        if i > 0 {
            out.push(',');
        }
        let item = json_string_literal(list[i].as_str());
        push_str(&mut out, item.as_str());
        proof {
            if i == 0 {
                assert(next[0] == next.last());
                assert(out@ == seq!['['] + literal_list(next));
            } else {
                assert(out@ == seq!['['] + literal_list(next));
            }
        }
        i += 1;
    }
    assert(items.take(list@.len() as int) == items);
    out.push(']');
    assert(out@ == array_literal(items));
    out
}

/// A text is escaped character by character.
pub proof fn law_escaping_by_character(quote: char, x: Seq<char>, y: Seq<char>)
    ensures
        escaped(quote, x + y) == escaped(quote, x) + escaped(quote, y),
    decreases x.len(),
{
    if x.len() == 0 {
        assert(x + y =~= y);
        assert(escaped(quote, x) + escaped(quote, y) =~= escaped(quote, y));
    } else {
        let rest = x.drop_first();
        law_escaping_by_character(quote, rest, y);
        assert((x + y)[0] == x[0]);
        assert((x + y).drop_first() =~= rest + y);
        assert(escaped_char(quote, x[0]) + (escaped(quote, rest) + escaped(quote, y)) =~= (
        escaped_char(quote, x[0]) + escaped(quote, rest)) + escaped(quote, y));
    }
}

/// How a single character is written: the delimiter and the backslash after a
/// backslash, line breaks and tabs by their letters, other printable ASCII as
/// it is, and everything else by its code units.
pub proof fn law_escaping_one_character(quote: char, c: char)
    requires
        quote == '"' || quote == '\'',
    ensures
        ({
            let e = escaped(quote, seq![c]);
            let v = c as nat;
            &&& c == quote || c == '\\' ==> e == seq!['\\', c]
            &&& c == '\n' ==> e == seq!['\\', 'n']
            &&& c == '\r' ==> e == seq!['\\', 'r']
            &&& c == '\t' ==> e == seq!['\\', 't']
            &&& ' ' <= c <= '~' && c != '"' && c != quote && c != '\\' ==> e == seq![c]
            &&& c == '"' && quote == '\'' ==> e == seq!['\\', 'u', '0', '0', '2', '2']
            &&& v < 32 && c != '\n' && c != '\r' && c != '\t' ==> e == unit_escape(v)
            &&& 127 <= v < 0x10000 ==> e == unit_escape(v)
            &&& v >= 0x10000 ==> e == unit_escape(
                0xd800 + (v - 0x10000) as nat / 0x400,
            ) + unit_escape(0xdc00 + (v - 0x10000) as nat % 0x400)
        }),
{
    let none = Seq::<char>::empty();
    assert(seq![c].drop_first() =~= none);
    assert(escaped(quote, none).len() == 0);
    assert(escaped(quote, seq![c]) =~= escaped_char(quote, c));
    if c == '"' {
        assert(0x22nat / 0x1000 % 16 == 0 && 0x22nat / 0x100 % 16 == 0 && 0x22nat / 0x10 % 16 == 2
            && 0x22nat % 16 == 2);
    }
}

/// A code unit is written by four lower-case hexadecimal digits, which have
/// its value.
pub proof fn law_unit_is_four_digits(u: nat)
    requires
        u < 0x10000,
    ensures
        unit_escape(u).len() == 6,
        unit_escape(u)[0] == '\\',
        unit_escape(u)[1] == 'u',
        exists|a: nat, b: nat, c: nat, d: nat|
            a < 16 && b < 16 && c < 16 && d < 16 && u == a * 0x1000 + b * 0x100 + c * 0x10 + d
                && #[trigger] digits_at(unit_escape(u), a, b, c, d),
{
    let a = u / 0x1000 % 16;
    let b = u / 0x100 % 16;
    let c = u / 0x10 % 16;
    let d = u % 16;
    lemma_four_digits(u);
    reveal_strlit("0123456789abcdef");
    assert(digits_at(unit_escape(u), a, b, c, d));
}

/// Whether these four digits stand after the `\\u` of an escape.
pub open spec fn digits_at(e: Seq<char>, a: nat, b: nat, c: nat, d: nat) -> bool {
    &&& e[2] == "0123456789abcdef"@[a as int]
    &&& e[3] == "0123456789abcdef"@[b as int]
    &&& e[4] == "0123456789abcdef"@[c as int]
    &&& e[5] == "0123456789abcdef"@[d as int]
}

/// A literal stands between its delimiters; an array literal holds the
/// double-quoted literals of its members in order, separated by commas.
pub proof fn law_array_is_its_members(quote: char, list: Seq<Seq<char>>, last: Seq<char>)
    ensures
        literal(quote, last) == seq![quote] + escaped(quote, last) + seq![quote],
        array_literal(Seq::empty()) == seq!['[', ']'],
        array_literal(seq![last]) == seq!['[', '"'] + escaped('"', last) + seq!['"', ']'],
        list.len() > 0 ==> array_literal(list + seq![last]) == array_literal(list).drop_last()
            + seq![',', '"'] + escaped('"', last) + seq!['"', ']'],
{
    assert((list + seq![last]).drop_last() =~= list);
    assert((list + seq![last]).last() == last);
}

} // verus!
