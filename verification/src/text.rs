//! Text primitives shared by the parsers and script builders.
//!
//! Every routine works on sequences of characters: a `str` is unpacked into
//! a `Vec<char>`, processed, and packed again with [`from_chars`].
use vstd::prelude::*;

verus! {

/// `String::push` appends one character to the end of the string.
pub assume_specification[ String::push ](s: &mut String, c: char)
    ensures
        final(s)@ == old(s)@.push(c),
;

/// The Unicode `White_Space` property.
pub open spec fn white_space(c: char) -> bool {
    ||| '\u{9}' <= c <= '\u{d}'
    ||| c == ' '
    ||| c == '\u{85}'
    ||| c == '\u{a0}'
    ||| c == '\u{1680}'
    ||| '\u{2000}' <= c <= '\u{200a}'
    ||| c == '\u{2028}'
    ||| c == '\u{2029}'
    ||| c == '\u{202f}'
    ||| c == '\u{205f}'
    ||| c == '\u{3000}'
}

/// `s` without its leading white space.
pub open spec fn trim_start(s: Seq<char>) -> Seq<char>
    decreases s.len(),
{
    if s.len() > 0 && white_space(s[0]) {
        trim_start(s.drop_first())
    } else {
        s
    }
}

/// `s` without its trailing white space.
pub open spec fn trim_end(s: Seq<char>) -> Seq<char>
    decreases s.len(),
{
    if s.len() > 0 && white_space(s.last()) {
        trim_end(s.drop_last())
    } else {
        s
    }
}

/// `s` without leading and trailing white space.
pub open spec fn trimmed(s: Seq<char>) -> Seq<char> {
    trim_end(trim_start(s))
}

/// Length of the run of non-white-space characters at the start of `s`.
pub open spec fn word_len(s: Seq<char>) -> nat
    decreases s.len(),
{
    if s.len() > 0 && !white_space(s[0]) {
        1 + word_len(s.drop_first())
    } else {
        0
    }
}

/// The words of `s`: its maximal runs of non-white-space characters.
pub open spec fn words(s: Seq<char>) -> Seq<Seq<char>>
    decreases s.len(),
{
    if s.len() == 0 {
        Seq::empty()
    } else if white_space(s[0]) {
        words(s.drop_first())
    } else {
        proof {
            lemma_word_len(s);
        }
        seq![s.take(word_len(s) as int)] + words(s.skip(word_len(s) as int))
    }
}

/// A word is no longer than the text that it starts.
pub proof fn lemma_word_len(s: Seq<char>)
    ensures
        word_len(s) <= s.len(),
        s.len() > 0 && !white_space(s[0]) ==> word_len(s) > 0,
    decreases s.len(),
{
    if s.len() > 0 && !white_space(s[0]) {
        lemma_word_len(s.drop_first());
    }
}

/// `list` joined by single spaces.
pub open spec fn joined(list: Seq<Seq<char>>) -> Seq<char>
    decreases list.len(),
{
    if list.len() == 0 {
        Seq::empty()
    } else if list.len() == 1 {
        list[0]
    } else {
        joined(list.drop_last()) + seq![' '] + list.last()
    }
}

/// What follows the first occurrence of `mark` in `s`, if there is one.
pub open spec fn after_first(s: Seq<char>, mark: Seq<char>) -> Option<Seq<char>>
    decreases s.len(),
{
    if mark.is_prefix_of(s) {
        Some(s.skip(mark.len() as int))
    } else if s.len() == 0 {
        None
    } else {
        after_first(s.drop_first(), mark)
    }
}

/// `s` with every occurrence of `mark` replaced by `with`, scanning from the
/// left and never looking inside what was inserted.
pub open spec fn replaced(s: Seq<char>, mark: Seq<char>, with: Seq<char>) -> Seq<char>
    decreases s.len(),
{
    if mark.len() == 0 || s.len() < mark.len() {
        s
    } else if mark.is_prefix_of(s) {
        with + replaced(s.skip(mark.len() as int), mark, with)
    } else {
        seq![s[0]] + replaced(s.drop_first(), mark, with)
    }
}

/// The views of a list of strings.
pub open spec fn views(list: Seq<String>) -> Seq<Seq<char>> {
    Seq::new(list.len(), |i: int| list[i]@)
}

/// The decimal digits of `n`, most significant first.
pub open spec fn decimal(n: nat) -> Seq<char>
    decreases n,
{
    if n < 10 {
        seq![digit(n)]
    } else {
        decimal(n / 10).push(digit(n % 10))
    }
}

/// The decimal digit for `n < 10`.
pub open spec fn digit(n: nat) -> char {
    ((n + 48) as u8) as char
}

/// The decimal rendering of a signed number.
pub open spec fn signed_decimal(n: int) -> Seq<char> {
    if n < 0 {
        seq!['-'] + decimal((-n) as nat)
    } else {
        decimal(n as nat)
    }
}

/// Whether `c` is white space.
pub fn is_white_space(c: char) -> (r: bool)
    ensures
        r == white_space(c),
{
    ('\u{9}' <= c && c <= '\u{d}') || c == ' ' || c == '\u{85}' || c == '\u{a0}' || c == '\u{1680}'
        || ('\u{2000}' <= c && c <= '\u{200a}') || c == '\u{2028}' || c == '\u{2029}' || c
        == '\u{202f}' || c == '\u{205f}' || c == '\u{3000}'
}

/// The characters of `s`.
pub fn to_chars(s: &str) -> (r: Vec<char>)
    ensures
        r@ == s@,
{
    let mut out: Vec<char> = Vec::new();
    for c in it: s.chars()
        invariant
            out@ == it.seq().take(it.index() as int),
            it.seq() == s@,
    {
        out.push(c);
    }
    out
}

/// The string made of `chars`.
pub fn from_chars(chars: &[char]) -> (r: String)
    ensures
        r@ == chars@,
{
    let mut out = String::new();
    for i in 0..chars.len()
        invariant
            out@ == chars@.take(i as int),
    {
        out.push(chars[i]);
    }
    assert(chars@.take(chars@.len() as int) == chars@);
    out
}

/// The string made of `chars[from..to]`.
pub fn slice_string(chars: &[char], from: usize, to: usize) -> (r: String)
    requires
        from <= to <= chars@.len(),
    ensures
        r@ == chars@.subrange(from as int, to as int),
{
    let mut out = String::new();
    let mut i: usize = from;
    while i < to
        invariant
            from <= i <= to <= chars@.len(),
            out@ == chars@.subrange(from as int, i as int),
        decreases to - i,
    {
        out.push(chars[i]);
        assert(chars@.subrange(from as int, i + 1) == chars@.subrange(from as int, i as int).push(
            chars@[i as int],
        ));
        i += 1;
    }
    out
}

/// Append `s` to `out`.
pub fn push_str(out: &mut String, s: &str)
    ensures
        final(out)@ == old(out)@ + s@,
{
    out.append(s);
}

/// Whether two strings hold the same characters.
pub fn same_text(a: &str, b: &str) -> (r: bool)
    ensures
        r == (a@ == b@),
{
    let x = to_chars(a);
    let y = to_chars(b);
    same_chars(x.as_slice(), y.as_slice())
}

/// Whether `s` holds no character.
pub fn is_empty_text(s: &str) -> (r: bool)
    ensures
        r == (s@.len() == 0),
{
    let chars = to_chars(s);
    chars.len() == 0
}

/// Whether two character slices are equal.
pub fn same_chars(a: &[char], b: &[char]) -> (r: bool)
    ensures
        r == (a@ == b@),
{
    if a.len() != b.len() {
        return false;
    }
    let mut i: usize = 0;
    while i < a.len()
        invariant
            i <= a@.len() == b@.len(),
            forall|j: int| 0 <= j < i ==> a@[j] == b@[j],
        decreases a@.len() - i,
    {
        if a[i] != b[i] {
            return false;
        }
        i += 1;
    }
    assert(a@ =~= b@);
    true
}

/// Whether `mark` stands at position `at` of `s`.
pub fn occurs_at(s: &[char], at: usize, mark: &[char]) -> (r: bool)
    requires
        at <= s@.len(),
    ensures
        r == mark@.is_prefix_of(s@.skip(at as int)),
{
    let n: usize = s.len();
    if mark.len() > n - at {
        return false;
    }
    let mut i: usize = 0;
    while i < mark.len()
        invariant
            at <= n == s@.len(),
            i <= mark@.len() <= n - at,
            forall|j: int| 0 <= j < i ==> s@[at + j] == mark@[j],
        decreases mark@.len() - i,
    {
        if s[at + i] != mark[i] {
            assert(s@.skip(at as int)[i as int] != mark@[i as int]);
            assert(s@.skip(at as int).subrange(0, mark@.len() as int)[i as int] == s@.skip(
                at as int,
            )[i as int]);
            return false;
        }
        i += 1;
    }
    assert(s@.skip(at as int).subrange(0, mark@.len() as int) =~= mark@);
    true
}

/// Whether `s` begins with `prefix`.
pub fn starts_with(s: &str, prefix: &str) -> (r: bool)
    ensures
        r == prefix@.is_prefix_of(s@),
{
    let x = to_chars(s);
    let y = to_chars(prefix);
    assert(x@.skip(0) == x@);
    occurs_at(x.as_slice(), 0, y.as_slice())
}

/// What follows the first occurrence of `mark` in `s`.
pub fn find_after(s: &str, mark: &str) -> (r: Option<String>)
    ensures
        match r {
            Some(t) => after_first(s@, mark@) == Some(t@),
            None => after_first(s@, mark@) is None,
        },
{
    let text = to_chars(s);
    let m = to_chars(mark);
    let n: usize = text.len();
    let mut i: usize = 0;
    assert(text@.skip(0) == text@);
    while i < n
        invariant
            i <= n == text@.len(),
            text@ == s@,
            m@ == mark@,
            after_first(s@, mark@) == after_first(text@.skip(i as int), mark@),
        decreases n - i,
    {
        if occurs_at(text.as_slice(), i, m.as_slice()) {
            assert(text@.skip(i as int).skip(m@.len() as int) == text@.subrange(
                i + m@.len(),
                n as int,
            ));
            return Some(slice_string(text.as_slice(), i + m.len(), n));
        }
        assert(text@.skip(i as int).drop_first() == text@.skip(i + 1));
        i += 1;
    }
    if occurs_at(text.as_slice(), n, m.as_slice()) {
        assert(text@.skip(n as int).skip(m@.len() as int) == text@.subrange(n as int, n as int));
        return Some(slice_string(text.as_slice(), n, n));
    }
    None
}

/// `s` with every occurrence of `mark` replaced by `with`.
pub fn replace_all(s: &str, mark: &str, with: &str) -> (r: String)
    requires
        mark@.len() > 0,
    ensures
        r@ == replaced(s@, mark@, with@),
{
    let text = to_chars(s);
    let m = to_chars(mark);
    let n: usize = text.len();
    let mut out = String::new();
    let mut i: usize = 0;
    assert(text@.skip(0) == text@);
    while i < n
        invariant
            i <= n == text@.len(),
            text@ == s@,
            m@ == mark@,
            m@.len() > 0,
            replaced(s@, mark@, with@) == out@ + replaced(text@.skip(i as int), mark@, with@),
        decreases n - i,
    {
        if occurs_at(text.as_slice(), i, m.as_slice()) {
            let ghost before = out@;
            push_str(&mut out, with);
            assert(text@.skip(i as int).skip(m@.len() as int) == text@.skip(i + m@.len()));
            assert(out@ + replaced(text@.skip(i + m@.len()), mark@, with@) == before + (with@
                + replaced(text@.skip(i + m@.len()), mark@, with@)));
            i += m.len();
        } else {
            let ghost before = out@;
            out.push(text[i]);
            assert(text@.skip(i as int).drop_first() == text@.skip(i + 1));
            proof {
                let rest = text@.skip(i as int);
                if rest.len() < mark@.len() {
                    assert(text@.skip(i + 1).len() < mark@.len());
                    assert(seq![rest[0]] + rest.drop_first() == rest);
                }
                assert(replaced(rest, mark@, with@) == seq![rest[0]] + replaced(
                    rest.drop_first(),
                    mark@,
                    with@,
                ));
                assert(out@ + replaced(text@.skip(i + 1), mark@, with@) == before + (seq![
                    text@[i as int],
                ] + replaced(text@.skip(i + 1), mark@, with@)));
            }
            i += 1;
        }
    }
    assert(out@ + text@.skip(n as int) == out@);
    out
}

/// `s` without leading and trailing white space.
pub fn trim(s: &str) -> (r: String)
    ensures
        r@ == trimmed(s@),
{
    let text = to_chars(s);
    let n: usize = text.len();
    let mut from: usize = 0;
    assert(text@.skip(0) == text@);
    while from < n && is_white_space(text[from])
        invariant
            from <= n == text@.len(),
            text@ == s@,
            trim_start(s@) == trim_start(text@.skip(from as int)),
        decreases n - from,
    {
        assert(text@.skip(from as int).drop_first() == text@.skip(from + 1));
        from += 1;
    }
    let mut to: usize = n;
    assert(trim_start(s@) == text@.skip(from as int));
    assert(text@.subrange(from as int, n as int) == text@.skip(from as int));
    while from < to && is_white_space(text[to - 1])
        invariant
            from <= to <= n == text@.len(),
            trimmed(s@) == trim_end(text@.subrange(from as int, to as int)),
        decreases to - from,
    {
        assert(text@.subrange(from as int, to as int).drop_last() == text@.subrange(
            from as int,
            to - 1,
        ));
        to -= 1;
    }
    slice_string(text.as_slice(), from, to)
}

/// The words of `s`.
pub fn split_words(s: &str) -> (r: Vec<String>)
    ensures
        views(r@) == words(s@),
{
    let text = to_chars(s);
    let n: usize = text.len();
    let mut out: Vec<String> = Vec::new();
    let mut i: usize = 0;
    assert(text@.skip(0) == text@);
    assert(views(out@) + words(text@) == words(text@));
    while i < n
        invariant
            i <= n == text@.len(),
            text@ == s@,
            words(s@) == views(out@) + words(text@.skip(i as int)),
        decreases n - i,
    {
        if is_white_space(text[i]) {
            assert(text@.skip(i as int).drop_first() == text@.skip(i + 1));
            i += 1;
        } else {
            let ghost rest = text@.skip(i as int);
            let mut j: usize = i;
            while j < n && !is_white_space(text[j])
                invariant
                    i <= j <= n == text@.len(),
                    rest == text@.skip(i as int),
                    word_len(rest) == (j - i) + word_len(text@.skip(j as int)),
                decreases n - j,
            {
                assert(text@.skip(j as int).drop_first() == text@.skip(j + 1));
                j += 1;
            }
            let ghost before = out@;
            let word = slice_string(text.as_slice(), i, j);
            out.push(word);
            proof {
                assert(word_len(rest) == j - i);
                assert(rest.take(j - i) == text@.subrange(i as int, j as int));
                assert(rest.skip(j - i) == text@.skip(j as int));
                assert(views(out@) == views(before).push(word@));
                assert(views(out@) + words(text@.skip(j as int)) == views(before) + (seq![word@]
                    + words(text@.skip(j as int))));
            }
            i = j;
        }
    }
    assert(views(out@) + words(text@.skip(n as int)) == views(out@));
    out
}

/// `list[from..]` joined by single spaces.
pub fn join_words(list: &Vec<String>, from: usize) -> (r: String)
    requires
        from <= list@.len(),
    ensures
        r@ == joined(views(list@).skip(from as int)),
{
    let mut out = String::new();
    let mut i: usize = from;
    let ghost tail = views(list@).skip(from as int);
    assert(tail.take(0) == Seq::<Seq<char>>::empty());
    while i < list.len()
        invariant
            from <= i <= list@.len(),
            tail == views(list@).skip(from as int),
            out@ == joined(tail.take(i - from)),
        decreases list@.len() - i,
    {
        assert(tail.take(i + 1 - from).drop_last() == tail.take(i - from));
        if i > from {
            out.push(' ');
        }
        push_str(&mut out, list[i].as_str());
        assert(tail.take(i + 1 - from).last() == list@[i as int]@);
        proof {
            if i == from {
                assert(out@ == list@[i as int]@);
            }
        }
        i += 1;
    }
    assert(tail.take(list@.len() - from) == tail);
    out
}

/// Append the decimal rendering of `n` to `out`.
pub fn push_decimal(out: &mut String, n: u64)
    ensures
        final(out)@ == old(out)@ + decimal(n as nat),
    decreases n,
{
    if n >= 10 {
        push_decimal(out, n / 10);
    }
    let d: u8 = (n % 10) as u8;
    out.push((d + 48) as char);
}

/// Append the decimal rendering of a signed number to `out`.
pub fn push_signed(out: &mut String, n: i64)
    requires
        n > i64::MIN,
    ensures
        final(out)@ == old(out)@ + signed_decimal(n as int),
{
    if n < 0 {
        let ghost before = out@;
        out.push('-');
        push_decimal(out, (-n) as u64);
        assert(out@ == before + (seq!['-'] + decimal((-n) as nat)));
    } else {
        push_decimal(out, n as u64);
    }
}

/// Position of the first line feed, or the length of the text.
pub open spec fn line_len(s: Seq<char>) -> nat
    decreases s.len(),
{
    if s.len() == 0 || s[0] == '\n' {
        0
    } else {
        1 + line_len(s.drop_first())
    }
}

/// A line as it is read: a carriage return before the line feed is not part
/// of it.
pub open spec fn without_return(line: Seq<char>) -> Seq<char> {
    if line.len() > 0 && line.last() == '\r' {
        line.drop_last()
    } else {
        line
    }
}

/// The lines of `s`. A line feed at the end starts no further line.
pub open spec fn lines(s: Seq<char>) -> Seq<Seq<char>>
    decreases s.len(),
{
    let n = line_len(s) as int;
    if s.len() == 0 {
        Seq::empty()
    } else if n >= s.len() {
        seq![s]
    } else {
        seq![without_return(s.take(n))] + lines(s.skip(n + 1))
    }
}

/// The lines of `s`.
pub fn split_lines(s: &str) -> (r: Vec<String>)
    ensures
        views(r@) == lines(s@),
{
    let text = to_chars(s);
    let n: usize = text.len();
    let mut out: Vec<String> = Vec::new();
    let mut i: usize = 0;
    assert(text@.skip(0) == text@);
    assert(views(out@) + lines(text@) == lines(text@));
    while i < n
        invariant
            i <= n == text@.len(),
            text@ == s@,
            lines(s@) == views(out@) + lines(text@.skip(i as int)),
        decreases n - i,
    {
        let ghost rest = text@.skip(i as int);
        let mut j: usize = i;
        while j < n && text[j] != '\n'
            invariant
                i <= j <= n == text@.len(),
                rest == text@.skip(i as int),
                line_len(rest) == (j - i) + line_len(text@.skip(j as int)),
            decreases n - j,
        {
            assert(text@.skip(j as int).drop_first() == text@.skip(j + 1));
            j += 1;
        }
        assert(line_len(rest) == j - i);
        let ghost before = out@;
        if j == n {
            let line = slice_string(text.as_slice(), i, n);
            out.push(line);
            proof {
                assert(line@ == rest);
                assert(views(out@) == views(before).push(line@));
                assert(views(before) + seq![line@] == views(out@) + lines(text@.skip(n as int)));
            }
            i = n;
        } else {
            let end: usize = if j > i && text[j - 1] == '\r' {
                j - 1
            } else {
                j
            };
            let line = slice_string(text.as_slice(), i, end);
            out.push(line);
            proof {
                assert(rest.take(j - i) == text@.subrange(i as int, j as int));
                assert(line@ == without_return(rest.take(j - i)));
                assert(rest.skip(j - i + 1) == text@.skip(j + 1));
                assert(views(out@) == views(before).push(line@));
                assert(views(out@) + lines(text@.skip(j + 1)) == views(before) + (seq![line@] + lines(
                    text@.skip(j + 1),
                )));
            }
            i = j + 1;
        }
    }
    assert(views(out@) + lines(text@.skip(n as int)) == views(out@));
    out
}

} // verus!
