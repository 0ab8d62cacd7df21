//! What the text primitives promise of every text.
use crate::text::{
    after_first, decimal, joined, line_len, lines, replaced, signed_decimal, trim_end, trim_start,
    trimmed, views, white_space, word_len, words,
};
use vstd::prelude::*;

verus! {

/// The code points that are white space.
pub proof fn law_white_space(c: char)
    ensures
        white_space(c) <==> (9 <= c as u32 <= 13 || c as u32 == 32 || c as u32 == 0x85 || c as u32
            == 0xa0 || c as u32 == 0x1680 || 0x2000 <= c as u32 <= 0x200a || c as u32 == 0x2028
            || c as u32 == 0x2029 || c as u32 == 0x202f || c as u32 == 0x205f || c as u32
            == 0x3000),
{
}

/// Trimming takes the white space off both ends and leaves what stands between
/// alone.
pub proof fn law_trimming(before: Seq<char>, core: Seq<char>, after: Seq<char>)
    requires
        forall|i: int| 0 <= i < before.len() ==> white_space(#[trigger] before[i]),
        forall|i: int| 0 <= i < after.len() ==> white_space(#[trigger] after[i]),
        core.len() > 0 ==> !white_space(core[0]) && !white_space(core[core.len() - 1]),
    ensures
        trimmed(before + core + after) == core,
{
    if core.len() == 0 {
        let all = before + after;
        assert(before + core + after =~= all);
        assert forall|i: int| 0 <= i < all.len() implies white_space(#[trigger] all[i]) by {
            if i < before.len() {
                assert(all[i] == before[i]);
            } else {
                assert(all[i] == after[i - before.len()]);
            }
        }
        lemma_trim_start(all, Seq::empty());
        assert(all + Seq::empty() =~= all);
    } else {
        assert(before + core + after =~= before + (core + after));
        assert((core + after)[0] == core[0]);
        lemma_trim_start(before, core + after);
        lemma_trim_end(core, after);
    }
}

proof fn lemma_trim_start(before: Seq<char>, rest: Seq<char>)
    requires
        forall|i: int| 0 <= i < before.len() ==> white_space(#[trigger] before[i]),
        rest.len() > 0 ==> !white_space(rest[0]),
    ensures
        trim_start(before + rest) == rest,
    decreases before.len(),
{
    if before.len() == 0 {
        assert(before + rest =~= rest);
    } else {
        let tail = before.drop_first();
        assert forall|i: int| 0 <= i < tail.len() implies white_space(#[trigger] tail[i]) by {
            assert(tail[i] == before[i + 1]);
        }
        lemma_trim_start(tail, rest);
        assert((before + rest)[0] == before[0]);
        assert((before + rest).drop_first() =~= tail + rest);
    }
}

proof fn lemma_trim_end(rest: Seq<char>, after: Seq<char>)
    requires
        forall|i: int| 0 <= i < after.len() ==> white_space(#[trigger] after[i]),
        rest.len() > 0 ==> !white_space(rest[rest.len() - 1]),
    ensures
        trim_end(rest + after) == rest,
    decreases after.len(),
{
    if after.len() == 0 {
        assert(rest + after =~= rest);
    } else {
        let front = after.drop_last();
        assert forall|i: int| 0 <= i < front.len() implies white_space(#[trigger] front[i]) by {
            assert(front[i] == after[i]);
        }
        lemma_trim_end(rest, front);
        assert((rest + after).last() == after[after.len() - 1]);
        assert((rest + after).drop_last() =~= rest + front);
    }
}

/// An empty text has no words, and a text without white space is its only
/// word.
pub proof fn law_single_word(word: Seq<char>)
    requires
        forall|i: int| 0 <= i < word.len() ==> !white_space(#[trigger] word[i]),
    ensures
        words(word) == if word.len() == 0 {
            Seq::empty()
        } else {
            seq![word]
        },
{
    if word.len() > 0 {
        lemma_whole_word(word);
        assert(word.take(word.len() as int) =~= word);
        assert(word.skip(word.len() as int).len() == 0);
        assert(words(word.skip(word.len() as int)) =~= Seq::empty());
        assert(words(word) =~= seq![word]);
    }
}

proof fn lemma_whole_word(word: Seq<char>)
    requires
        forall|i: int| 0 <= i < word.len() ==> !white_space(#[trigger] word[i]),
    ensures
        word_len(word) == word.len(),
    decreases word.len(),
{
    if word.len() > 0 {
        let tail = word.drop_first();
        assert forall|i: int| 0 <= i < tail.len() implies !white_space(#[trigger] tail[i]) by {
            assert(tail[i] == word[i + 1]);
        }
        lemma_whole_word(tail);
    }
}

/// White space separates: the words of a text are those before any white space
/// in it, then those after it.
pub proof fn law_white_space_separates(x: Seq<char>, c: char, y: Seq<char>)
    requires
        white_space(c),
    ensures
        words(x + seq![c] + y) == words(x) + words(y),
    decreases x.len(),
{
    let s = x + seq![c] + y;
    if x.len() == 0 {
        assert(s[0] == c);
        assert(s.drop_first() =~= y);
        assert(words(x) + words(y) =~= words(y));
    } else {
        assert(s[0] == x[0]);
        if white_space(x[0]) {
            assert(s.drop_first() =~= x.drop_first() + seq![c] + y);
            law_white_space_separates(x.drop_first(), c, y);
        } else {
            crate::text::lemma_word_len(x);
            crate::text::lemma_word_len(s);
            lemma_word_stops(x, c, y);
            let n = word_len(x) as int;
            assert(s.take(n) =~= x.take(n));
            assert(s.skip(n) =~= x.skip(n) + seq![c] + y);
            law_white_space_separates(x.skip(n), c, y);
            assert(words(s) == seq![s.take(n)] + words(s.skip(n)));
            assert(words(x) == seq![x.take(n)] + words(x.skip(n)));
            assert(words(x) + words(y) =~= seq![x.take(n)] + (words(x.skip(n)) + words(y)));
        }
    }
}

proof fn lemma_word_stops(x: Seq<char>, c: char, y: Seq<char>)
    requires
        white_space(c),
    ensures
        word_len(x + seq![c] + y) == word_len(x),
    decreases x.len(),
{
    let s = x + seq![c] + y;
    if x.len() == 0 {
        assert(s[0] == c);
    } else {
        assert(s[0] == x[0]);
        if !white_space(x[0]) {
            assert(s.drop_first() =~= x.drop_first() + seq![c] + y);
            lemma_word_stops(x.drop_first(), c, y);
        }
    }
}

/// Joining puts one space between neighbours and nothing else.
pub proof fn law_joining(list: Seq<Seq<char>>, word: Seq<char>)
    ensures
        joined(Seq::empty()).len() == 0,
        joined(seq![word]) == word,
        list.len() > 0 ==> joined(list + seq![word]) == joined(list) + seq![' '] + word,
{
    assert((list + seq![word]).drop_last() =~= list);
    assert((list + seq![word]).last() == word);
}

/// Words that are joined are found again.
pub proof fn law_joined_words_are_found(list: Seq<Seq<char>>)
    requires
        forall|k: int|
            0 <= k < list.len() ==> (#[trigger] list[k]).len() > 0 && forall|i: int|
                0 <= i < list[k].len() ==> !white_space(#[trigger] list[k][i]),
    ensures
        words(joined(list)) == list,
    decreases list.len(),
{
    if list.len() == 1 {
        law_single_word(list[0]);
        assert(list =~= seq![list[0]]);
    } else if list.len() > 1 {
        let front = list.drop_last();
        assert forall|k: int| 0 <= k < front.len() implies (#[trigger] front[k]).len() > 0
            && forall|i: int| 0 <= i < front[k].len() ==> !white_space(#[trigger] front[k][i]) by {
            assert(front[k] == list[k]);
        }
        law_joined_words_are_found(front);
        let last = list[list.len() - 1];
        law_single_word(last);
        law_white_space_separates(joined(front), ' ', last);
        assert(front + seq![last] =~= list);
    }
}

/// What follows a mark is what follows its first occurrence.
pub proof fn law_after_the_first_mark(s: Seq<char>, mark: Seq<char>, k: int)
    requires
        0 <= k <= s.len(),
        mark.is_prefix_of(s.skip(k)),
        forall|j: int| 0 <= j < k ==> !mark.is_prefix_of(#[trigger] s.skip(j)),
    ensures
        after_first(s, mark) == Some(s.skip(k + mark.len())),
    decreases k,
{
    assert(s.skip(0) =~= s);
    if k == 0 {
    } else {
        assert(!mark.is_prefix_of(s.skip(0)));
        let t = s.drop_first();
        assert(t.skip(k - 1) =~= s.skip(k));
        assert forall|j: int| 0 <= j < k - 1 implies !mark.is_prefix_of(#[trigger] t.skip(j)) by {
            assert(t.skip(j) =~= s.skip(j + 1));
        }
        law_after_the_first_mark(t, mark, k - 1);
        assert(t.skip(k - 1 + mark.len()) =~= s.skip(k + mark.len()));
    }
}

/// Nothing follows a mark that does not occur.
pub proof fn law_no_mark_nothing_after(s: Seq<char>, mark: Seq<char>)
    requires
        forall|j: int| 0 <= j <= s.len() ==> !mark.is_prefix_of(#[trigger] s.skip(j)),
    ensures
        after_first(s, mark) is None,
    decreases s.len(),
{
    assert(s.skip(0) =~= s);
    assert(!mark.is_prefix_of(s.skip(0)));
    if s.len() > 0 {
        let t = s.drop_first();
        assert forall|j: int| 0 <= j <= t.len() implies !mark.is_prefix_of(#[trigger] t.skip(j)) by {
            assert(t.skip(j) =~= s.skip(j + 1));
        }
        law_no_mark_nothing_after(t, mark);
    }
}

/// Replacing swaps the first occurrence of the mark and goes on behind it; what
/// stands before it stays.
pub proof fn law_replacing_from_the_left(s: Seq<char>, mark: Seq<char>, with: Seq<char>, k: int)
    requires
        mark.len() > 0,
        0 <= k <= s.len(),
        mark.is_prefix_of(s.skip(k)),
        forall|j: int| 0 <= j < k ==> !mark.is_prefix_of(#[trigger] s.skip(j)),
    ensures
        replaced(s, mark, with) == s.take(k) + with + replaced(s.skip(k + mark.len()), mark, with),
    decreases k,
{
    assert(s.skip(0) =~= s);
    assert(s.skip(k).len() >= mark.len());
    if k == 0 {
        assert(s.take(0) + with =~= with);
    } else {
        assert(!mark.is_prefix_of(s.skip(0)));
        let t = s.drop_first();
        assert(t.skip(k - 1) =~= s.skip(k));
        assert forall|j: int| 0 <= j < k - 1 implies !mark.is_prefix_of(#[trigger] t.skip(j)) by {
            assert(t.skip(j) =~= s.skip(j + 1));
        }
        law_replacing_from_the_left(t, mark, with, k - 1);
        assert(t.skip(k - 1 + mark.len()) =~= s.skip(k + mark.len()));
        let rest = replaced(s.skip(k + mark.len()), mark, with);
        assert(seq![s[0]] + (t.take(k - 1) + with + rest) =~= s.take(k) + with + rest);
    }
}

/// A text without the mark stays as it is.
pub proof fn law_no_mark_no_change(s: Seq<char>, mark: Seq<char>, with: Seq<char>)
    requires
        forall|j: int| 0 <= j <= s.len() ==> !mark.is_prefix_of(#[trigger] s.skip(j)),
    ensures
        replaced(s, mark, with) == s,
    decreases s.len(),
{
    assert(s.skip(0) =~= s);
    assert(!mark.is_prefix_of(s.skip(0)));
    if s.len() > 0 {
        let t = s.drop_first();
        assert forall|j: int| 0 <= j <= t.len() implies !mark.is_prefix_of(#[trigger] t.skip(j)) by {
            assert(t.skip(j) =~= s.skip(j + 1));
        }
        law_no_mark_no_change(t, mark, with);
        assert(seq![s[0]] + t =~= s);
    }
}

/// The digits of a number: one digit below ten, and one more digit for the
/// remainder by ten from there on, so no number starts with a zero but zero.
pub proof fn law_decimal_digits(n: nat, d: nat)
    requires
        d < 10,
    ensures
        decimal(0) == "0"@,
        decimal(1) == "1"@,
        decimal(2) == "2"@,
        decimal(3) == "3"@,
        decimal(4) == "4"@,
        decimal(5) == "5"@,
        decimal(6) == "6"@,
        decimal(7) == "7"@,
        decimal(8) == "8"@,
        decimal(9) == "9"@,
        n > 0 ==> decimal(10 * n + d) == decimal(n) + decimal(d),
{
    reveal_strlit("0");
    reveal_strlit("1");
    reveal_strlit("2");
    reveal_strlit("3");
    reveal_strlit("4");
    reveal_strlit("5");
    reveal_strlit("6");
    reveal_strlit("7");
    reveal_strlit("8");
    reveal_strlit("9");
    if n > 0 {
        vstd::arithmetic::div_mod::lemma_fundamental_div_mod_converse(
            (10 * n + d) as int,
            10,
            n as int,
            d as int,
        );
    }
}

/// A negative number has a sign before its digits, any other has none.
pub proof fn law_signed_digits(n: int)
    ensures
        n >= 0 ==> signed_decimal(n) == decimal(n as nat),
        n < 0 ==> signed_decimal(n) == "-"@ + decimal((-n) as nat),
{
    reveal_strlit("-");
    assert("-"@ =~= seq!['-']);
}

/// A line ends at a line feed, which is no part of it, nor is a carriage
/// return before that; the rest of the text follows line by line.
pub proof fn law_line_feed_ends_a_line(line: Seq<char>, rest: Seq<char>)
    requires
        forall|i: int| 0 <= i < line.len() ==> #[trigger] line[i] != '\n',
    ensures
        lines(line + seq!['\n'] + rest) == (if line.len() > 0 && line[line.len() - 1] == '\r' {
            seq![line.take(line.len() - 1)]
        } else {
            seq![line]
        }) + lines(rest),
{
    let s = line + seq!['\n'] + rest;
    lemma_line_len(line, seq!['\n'] + rest);
    assert(s =~= line + (seq!['\n'] + rest));
    let n = line.len() as int;
    assert(s.take(n) =~= line);
    assert(s.skip(n + 1) =~= rest);
    if n > 0 && line[n - 1] == '\r' {
        assert(line.drop_last() =~= line.take(n - 1));
    }
}

/// A text without a line feed is its only line, and an empty text has none.
pub proof fn law_last_line(line: Seq<char>)
    requires
        forall|i: int| 0 <= i < line.len() ==> #[trigger] line[i] != '\n',
    ensures
        lines(line) == if line.len() == 0 {
            Seq::empty()
        } else {
            seq![line]
        },
{
    lemma_line_len(line, Seq::empty());
    assert(line + Seq::empty() =~= line);
}

proof fn lemma_line_len(line: Seq<char>, rest: Seq<char>)
    requires
        forall|i: int| 0 <= i < line.len() ==> #[trigger] line[i] != '\n',
        rest.len() > 0 ==> rest[0] == '\n',
    ensures
        line_len(line + rest) == line.len(),
    decreases line.len(),
{
    if line.len() == 0 {
        assert(line + rest =~= rest);
    } else {
        let tail = line.drop_first();
        assert forall|i: int| 0 <= i < tail.len() implies #[trigger] tail[i] != '\n' by {
            assert(tail[i] == line[i + 1]);
        }
        lemma_line_len(tail, rest);
        assert((line + rest)[0] == line[0]);
        assert((line + rest).drop_first() =~= tail + rest);
    }
}

/// A list of strings is read off string by string.
pub proof fn law_strings_are_read_off(list: Seq<String>, i: int)
    requires
        0 <= i < list.len(),
    ensures
        views(list).len() == list.len(),
        views(list)[i] == list[i]@,
{
}

} // verus!
