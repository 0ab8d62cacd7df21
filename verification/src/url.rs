//! The parts of a URL that stand for a page without a title.
use crate::text::{slice_string, to_chars};
use vstd::prelude::*;

verus! {

/// Ends the host of a URL.
pub open spec fn ends_host(c: char) -> bool {
    c == '/' || c == '?' || c == '#'
}

/// Length of the run at the start of `s` that holds neither what ends a host
/// nor, if `colon` is set, a colon.
pub open spec fn run_len(s: Seq<char>, colon: bool) -> nat
    decreases s.len(),
{
    if s.len() == 0 || ends_host(s[0]) || (colon && s[0] == ':') {
        0
    } else {
        1 + run_len(s.drop_first(), colon)
    }
}

/// The scheme of a URL: what stands before its first colon, if anything does
/// and the colon is not part of a path, a query or a fragment.
pub open spec fn scheme(url: Seq<char>) -> Option<Seq<char>> {
    let n = run_len(url, true) as int;
    if 0 < n < url.len() && url[n] == ':' {
        Some(url.take(n))
    } else {
        None
    }
}

/// Length of what follows the last `@`, or of the whole text without one.
pub open spec fn after_at_len(s: Seq<char>) -> nat
    decreases s.len(),
{
    if s.len() == 0 || s.last() == '@' {
        0
    } else {
        1 + after_at_len(s.drop_last())
    }
}

/// The host of a URL, with its port: what stands between `://` and the next
/// `/`, `?` or `#`, without a user name and password in front of it, if
/// anything is left.
pub open spec fn host(url: Seq<char>) -> Option<Seq<char>> {
    match scheme(url) {
        Some(s) => {
            let rest = url.skip(s.len() as int);
            let authority = rest.skip(3).take(run_len(rest.skip(3), false) as int);
            let n = after_at_len(authority) as int;
            if rest.len() > 3 && rest[1] == '/' && rest[2] == '/' && n > 0 {
                Some(authority.skip(authority.len() - n))
            } else {
                None
            }
        },
        None => None,
    }
}

/// What stands for a page in short: the host of its URL, else the scheme, else
/// the URL as it is.
pub open spec fn short_name(url: Seq<char>) -> Seq<char> {
    match (host(url), scheme(url)) {
        (Some(h), _) => h,
        (None, Some(s)) => s,
        (None, None) => url,
    }
}

/// A run is no longer than the text that it starts.
proof fn lemma_run_len(s: Seq<char>, colon: bool)
    ensures
        run_len(s, colon) <= s.len(),
    decreases s.len(),
{
    if s.len() > 0 {
        lemma_run_len(s.drop_first(), colon);
    }
}

/// What follows the last `@` is no longer than the text.
proof fn lemma_after_at_len(s: Seq<char>)
    ensures
        after_at_len(s) <= s.len(),
    decreases s.len(),
{
    if s.len() > 0 {
        lemma_after_at_len(s.drop_last());
    }
}

/// Where the run that starts at `from` ends.
fn run_end(text: &[char], from: usize, colon: bool) -> (r: usize)
    requires
        from <= text@.len(),
    ensures
        from <= r <= text@.len(),
        r == from + run_len(text@.skip(from as int), colon),
{
    let mut i: usize = from;
    while i < text.len() && !(text[i] == '/' || text[i] == '?' || text[i] == '#' || (colon
        && text[i] == ':'))
        invariant
            from <= i <= text@.len(),
            from + run_len(text@.skip(from as int), colon) == i + run_len(
                text@.skip(i as int),
                colon,
            ),
        decreases text@.len() - i,
    {
        assert(text@.skip(i as int).drop_first() == text@.skip(i + 1));
        i += 1;
    }
    i
}

/// What stands for a page in short.
pub fn short_name_of(url: &str) -> (r: String)
    ensures
        r@ == short_name(url@),
{
    let text = to_chars(url);
    let n: usize = text.len();
    assert(text@.skip(0) == text@);
    let colon = run_end(text.as_slice(), 0, true);
    if colon == 0 || colon == n || text[colon] != ':' {
        return slice_string(text.as_slice(), 0, n);
    }
    let ghost rest = text@.skip(colon as int);
    if n - colon > 3 && text[colon + 1] == '/' && text[colon + 2] == '/' {
        let start: usize = colon + 3;
        let end = run_end(text.as_slice(), start, false);
        assert(rest.skip(3) == text@.skip(start as int));
        let ghost authority = text@.subrange(start as int, end as int);
        assert(text@.skip(start as int).take(end - start) == authority);
        assert(authority.take(end - start) == authority);
        let mut at: usize = end;
        while at > start && text[at - 1] != '@'
            invariant
                start <= at <= end <= text@.len(),
                authority == text@.subrange(start as int, end as int),
                after_at_len(authority) == (end - at) + after_at_len(authority.take(at - start)),
            decreases at,
        {
            assert(authority.take(at - start).last() == text@[at - 1]);
            assert(authority.take(at - start).drop_last() == authority.take(at - start - 1));
            at -= 1;
        }
        if at > start {
            assert(authority.take(at - start).last() == text@[at - 1]);
        }
        assert(after_at_len(authority) == end - at);
        if end > at {
            assert(authority.skip(at - start) == text@.subrange(at as int, end as int));
            return slice_string(text.as_slice(), at, end);
        }
    }
    slice_string(text.as_slice(), 0, colon)
}

/// The host and the scheme of a URL are parts of it, and neither is empty; so
/// a page with a URL never goes without a name.
pub proof fn law_short_name_is_part_of_the_url(url: Seq<char>)
    requires
        url.len() > 0,
    ensures
        short_name(url).len() > 0,
        exists|at: int|
            0 <= at <= url.len() && #[trigger] short_name(url).is_prefix_of(url.skip(at)),
{
    lemma_run_len(url, true);
    match (host(url), scheme(url)) {
        (Some(h), _) => {
            let start: int = scheme(url)->0.len() as int + 3;
            let rest = url.skip(start);
            lemma_run_len(rest, false);
            assert(url.skip(scheme(url)->0.len() as int).skip(3) == rest);
            let authority = rest.take(run_len(rest, false) as int);
            lemma_after_at_len(authority);
            let at: int = start + authority.len() - h.len();
            assert(h == authority.skip(authority.len() - h.len()));
            assert(url.skip(at).subrange(0, h.len() as int) == h);
            assert(h.is_prefix_of(url.skip(at)));
        },
        (None, Some(s)) => {
            assert(url.skip(0) == url);
            assert(s.is_prefix_of(url.skip(0)));
        },
        (None, None) => {
            assert(url.skip(0) == url);
            assert(url.is_prefix_of(url.skip(0)));
        },
    }
}

/// A page with a host is called after it: what stands between the `://` after
/// the scheme and the next `/`, `?` or `#`, port included, without a user name
/// and password up to the last `@`.
pub proof fn law_host_names_the_page(
    scheme_text: Seq<char>,
    user: Seq<char>,
    name: Seq<char>,
    rest: Seq<char>,
)
    requires
        scheme_text.len() > 0,
        forall|i: int|
            0 <= i < scheme_text.len() ==> #[trigger] scheme_text[i] != ':' && scheme_text[i] != '/'
                && scheme_text[i] != '?' && scheme_text[i] != '#',
        forall|i: int|
            0 <= i < user.len() ==> #[trigger] user[i] != '/' && user[i] != '?' && user[i] != '#',
        user.len() > 0 ==> user[user.len() - 1] == '@',
        name.len() > 0,
        forall|i: int|
            0 <= i < name.len() ==> #[trigger] name[i] != '/' && name[i] != '?' && name[i] != '#'
                && name[i] != '@',
        rest.len() > 0 ==> rest[0] == '/' || rest[0] == '?' || rest[0] == '#',
    ensures
        short_name(scheme_text + seq![':', '/', '/'] + user + name + rest) == name,
{
    let url = scheme_text + seq![':', '/', '/'] + user + name + rest;
    let after = seq![':', '/', '/'] + user + name + rest;
    assert(url =~= scheme_text + after);
    lemma_run(scheme_text, after, true);
    let n = scheme_text.len() as int;
    assert(url[n] == ':');
    assert(url.take(n) =~= scheme_text);
    assert(url.skip(n) =~= after);
    let authority = user + name;
    assert(after.skip(3) =~= authority + rest);
    assert forall|i: int| 0 <= i < authority.len() implies !ends_host(#[trigger] authority[i]) by {
        if i < user.len() {
            assert(authority[i] == user[i]);
        } else {
            assert(authority[i] == name[i - user.len()]);
        }
    }
    lemma_run(authority, rest, false);
    assert((authority + rest).take(authority.len() as int) =~= authority);
    lemma_after_at(user, name);
    assert(authority.skip(authority.len() - name.len()) =~= name);
}

/// A page with a scheme but no host is called after the scheme: nothing like
/// `//` follows the colon, or nothing is left between it and the next `/`, `?`
/// or `#` but a user name.
pub proof fn law_scheme_names_the_page(scheme_text: Seq<char>, user: Seq<char>, rest: Seq<char>)
    requires
        scheme_text.len() > 0,
        forall|i: int|
            0 <= i < scheme_text.len() ==> #[trigger] scheme_text[i] != ':' && scheme_text[i] != '/'
                && scheme_text[i] != '?' && scheme_text[i] != '#',
        forall|i: int|
            0 <= i < user.len() ==> #[trigger] user[i] != '/' && user[i] != '?' && user[i] != '#',
        user.len() > 0 ==> user[user.len() - 1] == '@',
    ensures
        rest.len() < 2 || rest[0] != '/' || rest[1] != '/' ==> short_name(
            scheme_text + seq![':'] + rest,
        ) == scheme_text,
        rest.len() == 0 || rest[0] == '/' || rest[0] == '?' || rest[0] == '#' ==> short_name(
            scheme_text + seq![':', '/', '/'] + user + rest,
        ) == scheme_text,
{
    let n = scheme_text.len() as int;
    if rest.len() < 2 || rest[0] != '/' || rest[1] != '/' {
        let url = scheme_text + seq![':'] + rest;
        let after = seq![':'] + rest;
        assert(url =~= scheme_text + after);
        lemma_run(scheme_text, after, true);
        assert(url.take(n) =~= scheme_text);
        assert(url.skip(n) =~= after);
    }
    if rest.len() == 0 || rest[0] == '/' || rest[0] == '?' || rest[0] == '#' {
        let url = scheme_text + seq![':', '/', '/'] + user + rest;
        let after = seq![':', '/', '/'] + user + rest;
        assert(url =~= scheme_text + after);
        lemma_run(scheme_text, after, true);
        assert(url[n] == ':');
        assert(url.take(n) =~= scheme_text);
        assert(url.skip(n) =~= after);
        assert(after.skip(3) =~= user + rest);
        lemma_run(user, rest, false);
        assert((user + rest).take(user.len() as int) =~= user);
        lemma_after_at(user, Seq::empty());
        assert(user + Seq::empty() =~= user);
    }
}

/// A page whose URL has no scheme, because no colon stands in it before a `/`,
/// `?` or `#`, or because it starts with one, is called by the whole URL.
pub proof fn law_other_urls_name_themselves(front: Seq<char>, rest: Seq<char>)
    requires
        forall|i: int|
            0 <= i < front.len() ==> #[trigger] front[i] != ':' && front[i] != '/' && front[i] != '?'
                && front[i] != '#',
        rest.len() > 0 ==> rest[0] == '/' || rest[0] == '?' || rest[0] == '#' || (front.len() == 0
            && rest[0] == ':'),
    ensures
        short_name(front + rest) == front + rest,
{
    lemma_run(front, rest, true);
    if rest.len() > 0 {
        assert((front + rest)[front.len() as int] == rest[0]);
    }
}

proof fn lemma_run(run: Seq<char>, rest: Seq<char>, colon: bool)
    requires
        forall|i: int|
            0 <= i < run.len() ==> !ends_host(#[trigger] run[i]) && !(colon && run[i] == ':'),
        rest.len() > 0 ==> ends_host(rest[0]) || (colon && rest[0] == ':'),
    ensures
        run_len(run + rest, colon) == run.len(),
    decreases run.len(),
{
    if run.len() == 0 {
        assert(run + rest =~= rest);
    } else {
        let tail = run.drop_first();
        assert forall|i: int| 0 <= i < tail.len() implies !ends_host(#[trigger] tail[i]) && !(colon
            && tail[i] == ':') by {
            assert(tail[i] == run[i + 1]);
        }
        lemma_run(tail, rest, colon);
        assert((run + rest)[0] == run[0]);
        assert((run + rest).drop_first() =~= tail + rest);
    }
}

proof fn lemma_after_at(user: Seq<char>, name: Seq<char>)
    requires
        user.len() > 0 ==> user[user.len() - 1] == '@',
        forall|i: int| 0 <= i < name.len() ==> #[trigger] name[i] != '@',
    ensures
        after_at_len(user + name) == name.len(),
    decreases name.len(),
{
    if name.len() == 0 {
        assert(user + name =~= user);
    } else {
        let front = name.drop_last();
        assert forall|i: int| 0 <= i < front.len() implies #[trigger] front[i] != '@' by {
            assert(front[i] == name[i]);
        }
        lemma_after_at(user, front);
        assert((user + name).last() == name[name.len() - 1]);
        assert((user + name).drop_last() =~= user + front);
    }
}

} // verus!
