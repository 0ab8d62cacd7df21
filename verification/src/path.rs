//! File names at the end of paths, by the rules of each platform.
//!
//! On Windows a path may start with a prefix that is no part of it: a drive
//! (`C:`), a share (`\\server\share`), a device (`\\.\COM1`), or a verbatim
//! prefix (`\\?\` and what follows), after which only the backslash separates.
use crate::platform::Platform;
use crate::text::{same_text, slice_string, to_chars};
use vstd::prelude::*;

verus! {

/// What separates the parts of a path.
#[derive(Debug, Clone, Copy, PartialEq, Eq, Structural)]
pub enum Separators {
    /// `/` alone.
    Slash,
    /// `/` and `\`.
    Both,
    /// `\` alone, as in a verbatim path.
    Backslash,
}

/// Whether `c` separates.
pub open spec fn separates(style: Separators, c: char) -> bool {
    match style {
        Separators::Slash => c == '/',
        Separators::Both => c == '/' || c == '\\',
        Separators::Backslash => c == '\\',
    }
}

/// Whether a Windows path is verbatim.
pub open spec fn is_verbatim(path: Seq<char>) -> bool {
    path.len() >= 4 && path[0] == '\\' && path[1] == '\\' && path[2] == '?' && path[3] == '\\'
}

/// What separates the parts of this path.
pub open spec fn separators(platform: Platform, path: Seq<char>) -> Separators {
    match platform {
        Platform::Windows => if is_verbatim(path) {
            Separators::Backslash
        } else {
            Separators::Both
        },
        _ => Separators::Slash,
    }
}

/// Length of the first part of a path: what stands before its first
/// separator.
pub open spec fn part_len(style: Separators, path: Seq<char>) -> nat
    decreases path.len(),
{
    if path.len() == 0 || separates(style, path[0]) {
        0
    } else {
        1 + part_len(style, path.drop_first())
    }
}

/// Whether a text starts with a drive.
pub open spec fn has_drive(s: Seq<char>) -> bool {
    s.len() >= 2 && ('a' <= s[0] <= 'z' || 'A' <= s[0] <= 'Z') && s[1] == ':'
}

/// Length of the second part of a path, whose first part has `first`
/// characters.
pub open spec fn second_len(style: Separators, path: Seq<char>, first: nat) -> nat {
    if first < path.len() {
        part_len(style, path.skip(first as int + 1))
    } else {
        0
    }
}

/// Length of the prefix of a verbatim path.
pub open spec fn verbatim_len(path: Seq<char>) -> int {
    let rest = path.skip(4);
    if rest.len() >= 4 && rest[0] == 'U' && rest[1] == 'N' && rest[2] == 'C' && separates(
        Separators::Both,
        rest[3],
    ) {
        let share = rest.skip(4);
        let server = part_len(Separators::Backslash, share);
        let name = second_len(Separators::Backslash, share, server);
        if name > 0 {
            8 + server + 1 + name as int
        } else {
            8 + server as int
        }
    } else if has_drive(rest) && (rest.len() == 2 || separates(Separators::Both, rest[2])) {
        6
    } else {
        4 + part_len(Separators::Backslash, rest) as int
    }
}

/// Length of the prefix of a Windows path.
pub open spec fn prefix_len(path: Seq<char>) -> int {
    if is_verbatim(path) {
        verbatim_len(path)
    } else if path.len() >= 2 && separates(Separators::Both, path[0]) && separates(
        Separators::Both,
        path[1],
    ) {
        let share = path.skip(2);
        let server = part_len(Separators::Both, share);
        let name = second_len(Separators::Both, share, server);
        if server > 0 && name > 0 {
            2 + server + 1 + name as int
        } else {
            0
        }
    } else if has_drive(path) {
        2
    } else {
        0
    }
}

/// Length of the last part of a path: what follows its last separator.
pub open spec fn last_part_len(style: Separators, path: Seq<char>) -> nat
    decreases path.len(),
{
    if path.len() == 0 || separates(style, path.last()) {
        0
    } else {
        1 + last_part_len(style, path.drop_last())
    }
}

/// The last part of a path without a prefix, empty parts and `.` parts left
/// aside. There is none if that part is `..`, or if it is a `.` in a verbatim
/// path, where it stands for itself.
pub open spec fn last_name(style: Separators, path: Seq<char>) -> Option<Seq<char>>
    decreases path.len(),
{
    if path.len() == 0 {
        None
    } else {
        proof {
            lemma_last_part_len(style, path);
        }
        let n = last_part_len(style, path) as int;
        let part = path.skip(path.len() - n);
        if n == 0 {
            last_name(style, path.drop_last())
        } else if part == "."@ {
            if n == path.len() || style == Separators::Backslash {
                None
            } else {
                last_name(style, path.take(path.len() - n - 1))
            }
        } else if part == ".."@ {
            None
        } else {
            Some(part)
        }
    }
}

/// The file name at the end of a path.
pub open spec fn file_name(platform: Platform, path: Seq<char>) -> Option<Seq<char>> {
    match platform {
        Platform::Windows => last_name(separators(platform, path), path.skip(prefix_len(path))),
        _ => last_name(separators(platform, path), path),
    }
}

/// A name that is one part of a path: not empty, without a separator, and
/// neither `.` nor `..`.
pub open spec fn plain_name(style: Separators, name: Seq<char>) -> bool {
    &&& name.len() > 0
    &&& forall|i: int| 0 <= i < name.len() ==> !separates(style, #[trigger] name[i])
    &&& name != "."@
    &&& name != ".."@
}

/// The last part of a path is no longer than the path, holds no separator and
/// follows one.
pub proof fn lemma_last_part_len(style: Separators, path: Seq<char>)
    ensures
        last_part_len(style, path) <= path.len(),
        forall|i: int|
            path.len() - last_part_len(style, path) <= i < path.len() ==> !separates(
                style,
                #[trigger] path[i],
            ),
        last_part_len(style, path) < path.len() ==> separates(
            style,
            path[path.len() - last_part_len(style, path) - 1],
        ),
    decreases path.len(),
{
    if path.len() > 0 && !separates(style, path.last()) {
        lemma_last_part_len(style, path.drop_last());
        assert forall|i: int|
            path.len() - last_part_len(style, path) <= i < path.len() implies !separates(
            style,
            #[trigger] path[i],
        ) by {
            if i < path.len() - 1 {
                assert(path[i] == path.drop_last()[i]);
            }
        }
    }
}

proof fn lemma_last_name(style: Separators, path: Seq<char>)
    ensures
        last_name(style, path) matches Some(f) ==> plain_name(style, f),
    decreases path.len(),
{
    if path.len() > 0 {
        lemma_last_part_len(style, path);
        let n = last_part_len(style, path) as int;
        let part = path.skip(path.len() - n);
        assert forall|i: int| 0 <= i < part.len() implies !separates(style, #[trigger] part[i]) by {
            assert(part[i] == path[path.len() - n + i]);
        }
        if n == 0 {
            lemma_last_name(style, path.drop_last());
        } else if part == "."@ && n < path.len() {
            lemma_last_name(style, path.take(path.len() - n - 1));
        }
    }
}

/// A file name is one part of its path.
pub proof fn law_file_name_is_plain(platform: Platform, path: Seq<char>)
    ensures
        file_name(platform, path) matches Some(f) ==> plain_name(separators(platform, path), f),
{
    match platform {
        Platform::Windows => lemma_last_name(
            separators(platform, path),
            path.skip(prefix_len(path)),
        ),
        _ => lemma_last_name(separators(platform, path), path),
    }
}

/// Whether `c` separates.
fn is_separator(style: Separators, c: char) -> (r: bool)
    ensures
        r == separates(style, c),
{
    match style {
        Separators::Slash => c == '/',
        Separators::Both => c == '/' || c == '\\',
        Separators::Backslash => c == '\\',
    }
}

/// Where the part that starts at `from` ends.
fn part_end(style: Separators, text: &[char], from: usize) -> (r: usize)
    requires
        from <= text@.len(),
    ensures
        from <= r <= text@.len(),
        r == from + part_len(style, text@.skip(from as int)),
{
    let mut i: usize = from;
    while i < text.len() && !is_separator(style, text[i])
        invariant
            from <= i <= text@.len(),
            from + part_len(style, text@.skip(from as int)) == i + part_len(
                style,
                text@.skip(i as int),
            ),
        decreases text@.len() - i,
    {
        assert(text@.skip(i as int).drop_first() == text@.skip(i + 1));
        i += 1;
    }
    i
}

/// Where the second part of what starts at `from` ends, whose first part ends
/// at `first`.
fn second_end(style: Separators, text: &[char], from: usize, first: usize) -> (r: Option<usize>)
    requires
        from <= first <= text@.len(),
    ensures
        match r {
            Some(end) => first < end <= text@.len() && second_len(
                style,
                text@.skip(from as int),
                (first - from) as nat,
            ) == end - first - 1 && end - first - 1 > 0,
            None => second_len(style, text@.skip(from as int), (first - from) as nat) == 0,
        },
{
    if first < text.len() {
        assert(text@.skip(from as int).skip(first - from + 1) == text@.skip(first + 1));
        let end = part_end(style, text, first + 1);
        if end > first + 1 {
            return Some(end);
        }
    }
    None
}

/// Whether a drive starts at `from`.
fn drive_at(text: &[char], from: usize) -> (r: bool)
    requires
        from <= text@.len(),
    ensures
        r == has_drive(text@.skip(from as int)),
{
    if text.len() - from < 2 {
        return false;
    }
    let c = text[from];
    (('a' <= c && c <= 'z') || ('A' <= c && c <= 'Z')) && text[from + 1] == ':'
}

/// Whether a Windows path is verbatim.
fn verbatim(text: &[char]) -> (r: bool)
    ensures
        r == is_verbatim(text@),
{
    text.len() >= 4 && text[0] == '\\' && text[1] == '\\' && text[2] == '?' && text[3] == '\\'
}

/// Where the prefix of a verbatim path ends.
fn verbatim_end(text: &[char]) -> (r: usize)
    requires
        is_verbatim(text@),
    ensures
        r <= text@.len(),
        r == verbatim_len(text@),
{
    let n: usize = text.len();
    if n >= 8 && text[4] == 'U' && text[5] == 'N' && text[6] == 'C' && is_separator(
        Separators::Both,
        text[7],
    ) {
        assert(text@.skip(4).skip(4) == text@.skip(8));
        let server = part_end(Separators::Backslash, text, 8);
        match second_end(Separators::Backslash, text, 8, server) {
            Some(end) => end,
            None => server,
        }
    } else if drive_at(text, 4) && (n == 6 || is_separator(Separators::Both, text[6])) {
        6
    } else {
        part_end(Separators::Backslash, text, 4)
    }
}

/// Where the prefix of a Windows path ends.
fn prefix_end(text: &[char]) -> (r: usize)
    ensures
        r <= text@.len(),
        r == prefix_len(text@),
{
    let n: usize = text.len();
    assert(text@.skip(0) == text@);
    if verbatim(text) {
        verbatim_end(text)
    } else if n >= 2 && is_separator(Separators::Both, text[0]) && is_separator(
        Separators::Both,
        text[1],
    ) {
        let server = part_end(Separators::Both, text, 2);
        if server > 2 {
            match second_end(Separators::Both, text, 2, server) {
                Some(end) => end,
                None => 0,
            }
        } else {
            0
        }
    } else if drive_at(text, 0) {
        2
    } else {
        0
    }
}

/// The last part of what stands in `text` from `from` on.
fn last_name_from(style: Separators, text: &[char], from: usize) -> (r: Option<String>)
    requires
        from <= text@.len(),
    ensures
        match r {
            Some(f) => last_name(style, text@.skip(from as int)) == Some(f@),
            None => last_name(style, text@.skip(from as int)) is None,
        },
{
    let ghost path = text@.skip(from as int);
    let mut end: usize = text.len();
    assert(path.take(end - from) == path);
    while end > from
        invariant
            from <= end <= text@.len(),
            path == text@.skip(from as int),
            last_name(style, path) == last_name(style, path.take(end - from)),
        decreases end,
    {
        let ghost here = path.take(end - from);
        let mut start: usize = end;
        assert(here.take(start - from) == here);
        while start > from && !is_separator(style, text[start - 1])
            invariant
                from <= start <= end <= text@.len(),
                path == text@.skip(from as int),
                here == path.take(end - from),
                last_part_len(style, here) == (end - start) + last_part_len(
                    style,
                    here.take(start - from),
                ),
            decreases start,
        {
            assert(here.take(start - from).last() == text@[start - 1]);
            assert(here.take(start - from).drop_last() == here.take(start - from - 1));
            start -= 1;
        }
        if start > from {
            assert(here.take(start - from).last() == text@[start - 1]);
        }
        assert(last_part_len(style, here) == end - start);
        assert(here.skip(start - from) == text@.subrange(start as int, end as int));
        if start == end {
            assert(here.drop_last() == path.take(end - from - 1));
            end -= 1;
        } else {
            let name = slice_string(text, start, end);
            if same_text(name.as_str(), ".") {
                if start == from || style == Separators::Backslash {
                    return None;
                }
                assert(here.take(start - from - 1) == path.take(start - from - 1));
                end = start - 1;
            } else if same_text(name.as_str(), "..") {
                return None;
            } else {
                return Some(name);
            }
        }
    }
    None
}

/// The file name at the end of a path.
pub fn path_file_name(platform: Platform, path: &str) -> (r: Option<String>)
    ensures
        match r {
            Some(f) => file_name(platform, path@) == Some(f@),
            None => file_name(platform, path@) is None,
        },
{
    let text = to_chars(path);
    assert(text@.skip(0) == text@);
    match platform {
        Platform::Windows => {
            let from = prefix_end(text.as_slice());
            let style = if verbatim(text.as_slice()) {
                Separators::Backslash
            } else {
                Separators::Both
            };
            last_name_from(style, text.as_slice(), from)
        },
        _ => last_name_from(Separators::Slash, text.as_slice(), 0),
    }
}

/// What separates: a slash everywhere, on Windows a backslash too, and in a
/// verbatim path, one that starts with `\\?\`, the backslash alone.
pub proof fn law_separators(platform: Platform, path: Seq<char>, c: char)
    ensures
        platform != Platform::Windows ==> (separates(separators(platform, path), c) <==> c == '/'),
        platform == Platform::Windows && seq!['\\', '\\', '?', '\\'].is_prefix_of(path) ==> (
        separates(separators(platform, path), c) <==> c == '\\'),
        platform == Platform::Windows && !seq!['\\', '\\', '?', '\\'].is_prefix_of(path) ==> (
        separates(separators(platform, path), c) <==> c == '/' || c == '\\'),
{
    let mark = seq!['\\', '\\', '?', '\\'];
    if mark.is_prefix_of(path) {
        assert(path.subrange(0, 4) == mark);
        assert(path[0] == mark[0] && path[1] == mark[1] && path[2] == mark[2] && path[3]
            == mark[3]);
    } else if is_verbatim(path) {
        assert(path.subrange(0, 4) =~= mark);
    }
}

/// The file name is the last part of the path: a name at the end is found,
/// whatever directories stand before it.
pub proof fn law_last_name_is_found(style: Separators, dir: Seq<char>, name: Seq<char>)
    requires
        dir.len() > 0 ==> separates(style, dir[dir.len() - 1]),
        name.len() > 0,
        forall|i: int| 0 <= i < name.len() ==> !separates(style, #[trigger] name[i]),
        name != "."@,
        name != ".."@,
    ensures
        last_name(style, dir + name) == Some(name),
{
    lemma_last_part(style, dir, name);
    assert((dir + name).skip(dir.len() as int) =~= name);
}

/// Separators at the end do not count; neither does a `.` in a path that is
/// not verbatim, unless it is all there is.
pub proof fn law_trailing_parts_do_not_count(style: Separators, dir: Seq<char>, c: char)
    requires
        separates(style, c),
    ensures
        last_name(style, dir + seq![c]) == last_name(style, dir),
        style != Separators::Backslash ==> last_name(style, dir + seq![c] + "."@) == last_name(
            style,
            dir,
        ),
{
    reveal_strlit(".");
    let d = dir + seq![c];
    assert(d.drop_last() =~= dir);
    if style != Separators::Backslash {
        assert(!separates(style, "."@[0]));
        lemma_last_part(style, d, "."@);
        assert((d + "."@).skip(d.len() as int) =~= "."@);
        assert((d + "."@).take(d.len() - 1) =~= dir);
    }
}

/// There is no name in an empty path, nor at the end of one that ends in `..`,
/// nor in `.`, nor at the end of a verbatim path that ends in `.`.
pub proof fn law_no_name(style: Separators, dir: Seq<char>)
    requires
        dir.len() > 0 ==> separates(style, dir[dir.len() - 1]),
    ensures
        last_name(style, Seq::empty()) is None,
        last_name(style, "."@) is None,
        last_name(style, dir + ".."@) is None,
        style == Separators::Backslash ==> last_name(style, dir + "."@) is None,
{
    reveal_strlit(".");
    reveal_strlit("..");
    assert(!separates(style, "."@[0]));
    assert(!separates(style, ".."@[0]));
    assert(!separates(style, ".."@[1]));
    lemma_last_part(style, dir, ".."@);
    assert((dir + ".."@).skip(dir.len() as int) =~= ".."@);
    lemma_last_part(style, dir, "."@);
    assert((dir + "."@).skip(dir.len() as int) =~= "."@);
    lemma_last_part(style, Seq::empty(), "."@);
    assert(Seq::empty() + "."@ =~= "."@);
    assert("."@.skip(0) =~= "."@);
}

proof fn lemma_last_part(style: Separators, dir: Seq<char>, part: Seq<char>)
    requires
        dir.len() > 0 ==> separates(style, dir[dir.len() - 1]),
        forall|i: int| 0 <= i < part.len() ==> !separates(style, #[trigger] part[i]),
    ensures
        last_part_len(style, dir + part) == part.len(),
    decreases part.len(),
{
    if part.len() == 0 {
        assert(dir + part =~= dir);
    } else {
        let front = part.drop_last();
        assert forall|i: int| 0 <= i < front.len() implies !separates(style, #[trigger] front[i]) by {
            assert(front[i] == part[i]);
        }
        lemma_last_part(style, dir, front);
        assert((dir + part).last() == part[part.len() - 1]);
        assert((dir + part).drop_last() =~= dir + front);
    }
}

proof fn lemma_part(style: Separators, part: Seq<char>, rest: Seq<char>)
    requires
        forall|i: int| 0 <= i < part.len() ==> !separates(style, #[trigger] part[i]),
        rest.len() > 0 ==> separates(style, rest[0]),
    ensures
        part_len(style, part + rest) == part.len(),
    decreases part.len(),
{
    if part.len() == 0 {
        assert(part + rest =~= rest);
    } else {
        let tail = part.drop_first();
        assert forall|i: int| 0 <= i < tail.len() implies !separates(style, #[trigger] tail[i]) by {
            assert(tail[i] == part[i + 1]);
        }
        lemma_part(style, tail, rest);
        assert((part + rest)[0] == part[0]);
        assert((part + rest).drop_first() =~= tail + rest);
    }
}

/// Only Windows paths have a prefix; elsewhere the whole path counts.
pub proof fn law_prefixes_are_for_windows(path: Seq<char>)
    ensures
        file_name(Platform::Linux, path) == last_name(Separators::Slash, path),
        file_name(Platform::MacOs, path) == last_name(Separators::Slash, path),
{
}

/// A Windows path that starts with neither a drive nor two separators has no
/// prefix, and a drive is one: what follows it counts.
pub proof fn law_drives_are_prefixes(letter: char, path: Seq<char>)
    ensures
        (path.len() < 2 || path[1] != ':' || !('a' <= path[0] <= 'z' || 'A' <= path[0] <= 'Z')) && (
        path.len() < 2 || !(path[0] == '/' || path[0] == '\\') || !(path[1] == '/' || path[1]
            == '\\')) ==> file_name(Platform::Windows, path) == last_name(Separators::Both, path),
        'a' <= letter <= 'z' || 'A' <= letter <= 'Z' ==> file_name(
            Platform::Windows,
            seq![letter, ':'] + path,
        ) == last_name(Separators::Both, path),
{
    assert(path.skip(0) =~= path);
    assert((seq![letter, ':'] + path).skip(2) =~= path);
}

/// A share is a prefix: two separators, the server, a separator and the name
/// of the share, neither of them empty. What follows it counts. Without a
/// server or a name there is no prefix.
pub proof fn law_shares_are_prefixes(
    a: char,
    b: char,
    server: Seq<char>,
    c: char,
    share: Seq<char>,
    rest: Seq<char>,
)
    requires
        separates(Separators::Both, a),
        separates(Separators::Both, b),
        separates(Separators::Both, c),
        forall|i: int| 0 <= i < server.len() ==> !separates(Separators::Both, #[trigger] server[i]),
        forall|i: int| 0 <= i < share.len() ==> !separates(Separators::Both, #[trigger] share[i]),
        rest.len() > 0 ==> separates(Separators::Both, rest[0]),
        !(a == '\\' && b == '\\' && server == seq!['?'] && c == '\\'),
    ensures
        file_name(Platform::Windows, seq![a, b] + server + seq![c] + share + rest) == if server.len()
            > 0 && share.len() > 0 {
            last_name(Separators::Both, rest)
        } else {
            last_name(Separators::Both, seq![a, b] + server + seq![c] + share + rest)
        },
{
    let path = seq![a, b] + server + seq![c] + share + rest;
    let after = seq![c] + share + rest;
    assert(path.skip(2) =~= server + after);
    lemma_part(Separators::Both, server, after);
    assert((server + after).skip(server.len() as int + 1) =~= share + rest);
    lemma_part(Separators::Both, share, rest);
    if is_verbatim(path) {
        if server.len() == 0 {
            assert(path[2] == c);
        } else {
            assert(path[2] == server[0]);
            if server.len() == 1 {
                assert(path[3] == c);
                assert(server =~= seq!['?']);
            } else {
                assert(path[3] == server[1]);
            }
        }
    }
    assert(path.skip(0) =~= path);
    assert(path.skip(2 + server.len() + 1 + share.len() as int) =~= rest);
}

/// Two separators and a server alone are no prefix.
pub proof fn law_servers_are_no_prefixes(a: char, b: char, server: Seq<char>)
    requires
        separates(Separators::Both, a),
        separates(Separators::Both, b),
        forall|i: int| 0 <= i < server.len() ==> !separates(Separators::Both, #[trigger] server[i]),
    ensures
        file_name(Platform::Windows, seq![a, b] + server) == last_name(
            Separators::Both,
            seq![a, b] + server,
        ),
{
    let path = seq![a, b] + server;
    assert(path.skip(2) =~= server);
    lemma_part(Separators::Both, server, Seq::empty());
    assert(server + Seq::empty() =~= server);
    if is_verbatim(path) {
        assert(path[3] == server[1]);
    }
    assert(path.skip(0) =~= path);
}

/// A drive after the mark of a verbatim path is its prefix if a separator or
/// nothing follows it.
pub proof fn law_verbatim_drives(letter: char, rest: Seq<char>)
    requires
        'a' <= letter <= 'z' || 'A' <= letter <= 'Z',
        rest.len() > 0 ==> separates(Separators::Both, rest[0]),
    ensures
        file_name(
            Platform::Windows,
            seq!['\\', '\\', '?', '\\', letter, ':'] + rest,
        ) == last_name(Separators::Backslash, rest),
{
    let p = seq!['\\', '\\', '?', '\\', letter, ':'] + rest;
    assert(p.skip(4) =~= seq![letter, ':'] + rest);
    assert(p.skip(4)[0] == letter);
    assert(p.skip(6) =~= rest);
}

/// A share after `UNC` and a separator is the prefix of a verbatim path, as
/// far as it is given: the server, and the name of the share after it.
pub proof fn law_verbatim_shares(sep: char, server: Seq<char>, share: Seq<char>, rest: Seq<char>)
    requires
        separates(Separators::Both, sep),
        forall|i: int| 0 <= i < server.len() ==> #[trigger] server[i] != '\\',
        forall|i: int| 0 <= i < share.len() ==> #[trigger] share[i] != '\\',
        rest.len() > 0 ==> rest[0] == '\\',
    ensures
        file_name(
            Platform::Windows,
            seq!['\\', '\\', '?', '\\', 'U', 'N', 'C', sep] + server + seq!['\\'] + share + rest,
        ) == if share.len() > 0 {
            last_name(Separators::Backslash, rest)
        } else {
            last_name(Separators::Backslash, seq!['\\'] + rest)
        },
        file_name(
            Platform::Windows,
            seq!['\\', '\\', '?', '\\', 'U', 'N', 'C', sep] + server,
        ) is None,
{
    let style = Separators::Backslash;
    let unc = seq!['\\', '\\', '?', '\\', 'U', 'N', 'C', sep];
    let none = Seq::<char>::empty();
    let after = seq!['\\'] + share + rest;
    let u = unc + server + seq!['\\'] + share + rest;
    assert(u.skip(4).skip(4) =~= server + after);
    assert(u.skip(4)[0] == 'U' && u.skip(4)[1] == 'N' && u.skip(4)[2] == 'C' && u.skip(4)[3]
        == sep);
    lemma_part(style, server, after);
    assert((server + after).skip(server.len() as int + 1) =~= share + rest);
    lemma_part(style, share, rest);
    if share.len() > 0 {
        assert(u.skip(8 + server.len() + 1 + share.len() as int) =~= rest);
    } else {
        assert(u.skip(8 + server.len() as int) =~= seq!['\\'] + rest);
    }
    let v = unc + server;
    assert(v.skip(4).skip(4) =~= server);
    assert(v.skip(4)[0] == 'U' && v.skip(4)[1] == 'N' && v.skip(4)[2] == 'C' && v.skip(4)[3]
        == sep);
    lemma_part(style, server, none);
    assert(server + none =~= server);
    assert(v.skip(8 + server.len() as int) =~= none);
}

/// Any other part after the mark of a verbatim path is its prefix as a whole.
pub proof fn law_verbatim_parts(part: Seq<char>, rest: Seq<char>)
    requires
        forall|i: int| 0 <= i < part.len() ==> #[trigger] part[i] != '\\',
        rest.len() > 0 ==> rest[0] == '\\',
        !(part.len() >= 2 && ('a' <= part[0] <= 'z' || 'A' <= part[0] <= 'Z') && part[1] == ':' && (
        part.len() == 2 || part[2] == '/')),
        !(part.len() >= 3 && part[0] == 'U' && part[1] == 'N' && part[2] == 'C' && (part.len() > 3
            ==> part[3] == '/') && (part.len() == 3 ==> rest.len() > 0)),
    ensures
        file_name(Platform::Windows, seq!['\\', '\\', '?', '\\'] + part + rest) == last_name(
            Separators::Backslash,
            rest,
        ),
{
    let q = seq!['\\', '\\', '?', '\\'] + part + rest;
    let t = part + rest;
    assert(q.skip(4) =~= t);
    lemma_part(Separators::Backslash, part, rest);
    assert(q.skip(4 + part.len() as int) =~= rest);
    assert forall|i: int| 0 <= i < t.len() && i <= part.len() implies #[trigger] t[i] == if i
        < part.len() {
        part[i]
    } else {
        '\\'
    } by {}
}

} // verus!
