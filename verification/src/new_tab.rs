//! The new-tab page, served in pieces.
use vstd::prelude::*;
use vstd::slice::slice_subrange;

verus! {

/// URL of a new tab.
pub const NEW_TAB_URL: &'static str = "buffr://new";

/// Scheme of the built-in pages.
pub const SCHEME: &'static str = "buffr";

/// The new-tab page.
pub const NEW_TAB_HTML: &'static str = "<!doctype html>
<html lang='en'>
<head>
<meta charset='utf-8'>
<title>New Tab</title>
<style>
  html, body { height: 100%; margin: 0; background: #16181d; color: #d7dae0; }
  body { display: flex; align-items: center; justify-content: center; font: 16px sans-serif; }
  kbd { padding: 0 4px; border: 1px solid #3b4048; border-radius: 3px; font: 14px monospace; }
  dl { display: grid; grid-template-columns: auto 1fr; gap: 8px 16px; }
  dd { margin: 0; }
</style>
</head>
<body>
<main>
<h1>buffr</h1>
<dl>
  <dt><kbd>o</kbd></dt><dd>open a page</dd>
  <dt><kbd>t</kbd></dt><dd>new tab</dd>
  <dt><kbd>f</kbd></dt><dd>follow a link</dd>
  <dt><kbd>/</kbd></dt><dd>find in page</dd>
  <dt><kbd>:</kbd></dt><dd>command line</dd>
</dl>
</main>
</body>
</html>
";

/// A page and how far it was read.
#[derive(Debug, Clone, Copy)]
pub struct PageReader<'a> {
    page: &'a [u8],
    pos: usize,
}

/// How many bytes a read hands out: none at the end or if none are asked for.
pub open spec fn read_len(len: nat, pos: nat, wanted: i32) -> nat {
    if pos >= len || wanted <= 0 {
        0
    } else if len - pos <= wanted {
        (len - pos) as nat
    } else {
        wanted as nat
    }
}

/// How far a page of this length is read after reads of these sizes.
pub open spec fn pos_after(len: nat, sizes: Seq<i32>) -> nat
    decreases sizes.len(),
{
    if sizes.len() == 0 {
        0
    } else {
        let pos = pos_after(len, sizes.drop_last());
        pos + read_len(len, pos, sizes.last())
    }
}

/// What reads of these sizes hand out together.
pub open spec fn delivered(page: Seq<u8>, sizes: Seq<i32>) -> Seq<u8>
    decreases sizes.len(),
{
    if sizes.len() == 0 {
        Seq::empty()
    } else {
        let pos = pos_after(page.len(), sizes.drop_last()) as int;
        delivered(page, sizes.drop_last()) + page.subrange(
            pos,
            pos + read_len(page.len(), pos as nat, sizes.last()),
        )
    }
}

impl<'a> PageReader<'a> {
    /// The page.
    pub closed spec fn content(self) -> Seq<u8> {
        self.page@
    }

    /// How far it was read.
    pub closed spec fn position(self) -> nat {
        self.pos as nat
    }

    #[verifier::type_invariant]
    spec fn wf(self) -> bool {
        self.pos <= self.page@.len()
    }

    /// The start of a page.
    pub fn new(page: &'a [u8]) -> (r: Self)
        ensures
            r.content() == page@,
            r.position() == 0,
    {
        PageReader { page, pos: 0 }
    }

    /// Length of the page.
    pub fn len(&self) -> (r: usize)
        ensures
            r == self.content().len(),
    {
        self.page.len()
    }

    /// The next bytes of the page, at most `bytes_to_read`. Empty at its end.
    pub fn read(&mut self, bytes_to_read: i32) -> (r: &'a [u8])
        ensures
            r@ == old(self).content().subrange(
                old(self).position() as int,
                (old(self).position() + read_len(
                    old(self).content().len(),
                    old(self).position(),
                    bytes_to_read,
                )) as int,
            ),
            final(self).content() == old(self).content(),
            final(self).position() == old(self).position() + read_len(
                old(self).content().len(),
                old(self).position(),
                bytes_to_read,
            ),
            final(self).position() <= final(self).content().len(),
    {
        proof {
            use_type_invariant(&*self);
        }
        let len: usize = self.page.len();
        let pos: usize = self.pos;
        if pos >= len || bytes_to_read <= 0 {
            let r = slice_subrange(self.page, pos, pos);
            return r;
        }
        let wanted: usize = bytes_to_read as usize;
        let remaining: usize = len - pos;
        let n: usize = if remaining <= wanted {
            remaining
        } else {
            wanted
        };
        let r = slice_subrange(self.page, pos, pos + n);
        self.pos = pos + n;
        r
    }
}

/// Reads hand out the page from its start, each byte once and in order, as far
/// as it was read; and a read of at least one byte makes progress until the
/// end.
pub proof fn law_reads_deliver_the_page(page: Seq<u8>, sizes: Seq<i32>, next: i32)
    ensures
        pos_after(page.len(), sizes) <= page.len(),
        delivered(page, sizes) == page.take(pos_after(page.len(), sizes) as int),
        next > 0 && pos_after(page.len(), sizes) < page.len() ==> read_len(
            page.len(),
            pos_after(page.len(), sizes),
            next,
        ) > 0,
    decreases sizes.len(),
{
    if sizes.len() > 0 {
        law_reads_deliver_the_page(page, sizes.drop_last(), next);
        let pos = pos_after(page.len(), sizes.drop_last()) as int;
        let n = read_len(page.len(), pos as nat, sizes.last()) as int;
        assert(page.take(pos) + page.subrange(pos, pos + n) == page.take(pos + n));
    }
}

/// A read hands out as many bytes as were asked for, or as many as are left if
/// those are fewer, and none if none were asked for.
pub proof fn law_read_sizes(len: nat, pos: nat, wanted: i32)
    requires
        pos <= len,
    ensures
        wanted <= 0 ==> read_len(len, pos, wanted) == 0,
        wanted > 0 && pos + wanted <= len ==> read_len(len, pos, wanted) == wanted,
        wanted > 0 && pos + wanted > len ==> read_len(len, pos, wanted) == len - pos,
{
}

} // verus!
