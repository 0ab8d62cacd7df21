//! Numeration of hint labels.
//!
//! Labels are the words over an alphabet, numbered breadth first: the empty
//! word is number 0 and the children of word `i` (the word extended by one
//! character) are numbers `a * i + 1 ..= a * i + a`, in alphabet order. A
//! label set is a window of consecutive numbers that starts at the first word
//! that was not extended, so no member is a prefix of another.
use vstd::arithmetic::div_mod::{
    lemma_div_is_ordered, lemma_div_nonincreasing, lemma_fundamental_div_mod,
    lemma_fundamental_div_mod_converse, lemma_mod_bound,
};
use vstd::arithmetic::power::{lemma_pow0, lemma_pow_positive, pow};
use vstd::prelude::*;

verus! {

/// Word number `j` over `alpha` in breadth-first order.
pub open spec fn label(alpha: Seq<char>, j: nat) -> Seq<char>
    decreases j,
{
    if j == 0 || alpha.len() == 0 {
        Seq::empty()
    } else {
        proof {
            lemma_div_nonincreasing(j - 1, alpha.len() as int);
        }
        label(alpha, parent(alpha.len(), j)).push(alpha[child_rank(alpha.len(), j)])
    }
}

/// The number of the word that word `j` extends.
pub open spec fn parent(a: nat, j: nat) -> nat {
    ((j - 1) / (a as int)) as nat
}

/// The alphabet position of the last character of word `j`.
pub open spec fn child_rank(a: nat, j: nat) -> int {
    (j - 1) % (a as int)
}

/// An alphabet: at least two characters, none repeated.
pub open spec fn valid_alphabet(alpha: Seq<char>) -> bool {
    alpha.len() >= 2 && alpha.no_duplicates()
}

/// Quotient rounded up.
pub open spec fn ceil_div(x: int, d: int) -> int {
    (x + d - 1) / d
}

/// Number of unextended words once the first `k` words were extended.
pub open spec fn leaves(a: nat, k: int) -> int {
    1 + k * (a - 1)
}

/// How many words are extended to make room for `count` labels.
pub open spec fn extended(a: nat, count: nat) -> int {
    ceil_div(count - 1, a - 1)
}

/// The number of the first word of a set of `count` labels.
pub open spec fn first_label(a: nat, count: nat) -> int {
    if count <= a {
        1
    } else {
        extended(a, count)
    }
}

/// The labels that a request for `count` yields: exactly that many.
pub open spec fn label_set(alpha: Seq<char>, count: nat) -> Seq<Seq<char>> {
    Seq::new(count, |i: int| label(alpha, (first_label(alpha.len(), count) + i) as nat))
}

/// Position of `c` in the alphabet.
pub open spec fn rank(alpha: Seq<char>, c: char) -> int {
    alpha.index_of(c)
}

/// Label order: shorter first, then by alphabet position at the first
/// difference.
pub open spec fn label_before(alpha: Seq<char>, x: Seq<char>, y: Seq<char>) -> bool {
    ||| x.len() < y.len()
    ||| x.len() == y.len() && exists|d: int| #[trigger] first_difference(alpha, x, y, d)
}

/// `x` and `y` agree before position `d`, where `x` has the earlier character.
pub open spec fn first_difference(alpha: Seq<char>, x: Seq<char>, y: Seq<char>, d: int) -> bool {
    &&& 0 <= d < x.len()
    &&& d < y.len()
    &&& x.take(d) == y.take(d)
    &&& rank(alpha, x[d]) < rank(alpha, y[d])
}

/// Number of words shorter than `n` characters.
pub open spec fn shorter_words(a: nat, n: nat) -> int
    decreases n,
{
    if n == 0 {
        0
    } else {
        a * shorter_words(a, (n - 1) as nat) + 1
    }
}

/// `ceil_div(x, d)` is the least multiplier of `d` that reaches `x`.
pub proof fn lemma_ceil_div(x: int, d: int, k: int)
    requires
        d > 0,
    ensures
        k * d >= x <==> k >= ceil_div(x, d),
{
    let q = ceil_div(x, d);
    lemma_fundamental_div_mod(x + d - 1, d);
    lemma_mod_bound(x + d - 1, d);
    assert(q * d == d * q) by (nonlinear_arith);
    assert(q * d <= x + d - 1 < q * d + d);
    if k >= q {
        assert(k * d >= q * d) by (nonlinear_arith)
            requires
                k >= q,
                d > 0,
        ;
    } else {
        assert(k * d <= q * d - d) by (nonlinear_arith)
            requires
                k <= q - 1,
                d > 0,
        ;
    }
}

/// A word other than the empty one has an earlier parent and a last character
/// inside the alphabet, and is found again from the two.
pub proof fn lemma_parent(a: nat, j: nat)
    requires
        a > 0,
        j > 0,
    ensures
        0 <= (j - 1) / (a as int) < j,
        0 <= child_rank(a, j) < a,
        j == a * parent(a, j) + 1 + child_rank(a, j),
{
    lemma_div_nonincreasing(j - 1, a as int);
    lemma_fundamental_div_mod(j - 1, a as int);
    lemma_mod_bound(j - 1, a as int);
    assert(0 <= (j - 1) / (a as int)) by (nonlinear_arith)
        requires
            a > 0,
            j > 0,
    ;
}

/// Child `c` of word `i` is word `a * i + 1 + c`.
pub proof fn lemma_child(a: nat, i: nat, c: int)
    requires
        a > 0,
        0 <= c < a,
    ensures
        0 < a * i + 1 + c,
        parent(a, (a * i + 1 + c) as nat) == i,
        child_rank(a, (a * i + 1 + c) as nat) == c,
{
    assert(a * i >= 0) by (nonlinear_arith)
        requires
            a > 0,
            i >= 0,
    ;
    assert(a * i == i * a) by (nonlinear_arith);
    lemma_fundamental_div_mod_converse(a * i + c, a as int, i as int, c);
}

/// Parents keep the order of their children.
pub proof fn lemma_parent_ordered(a: nat, i: nat, j: nat)
    requires
        a > 0,
        0 < i <= j,
    ensures
        parent(a, i) <= parent(a, j),
{
    lemma_parent(a, i);
    lemma_parent(a, j);
    lemma_div_is_ordered(i - 1, j - 1, a as int);
}

/// Only word 0 is empty, and the words are built from alphabet characters.
pub proof fn lemma_label_chars(alpha: Seq<char>, j: nat)
    requires
        alpha.len() > 0,
    ensures
        label(alpha, j).len() == 0 <==> j == 0,
        forall|k: int| 0 <= k < label(alpha, j).len() ==> alpha.contains(#[trigger] label(alpha, j)[k]),
    decreases j,
{
    if j > 0 {
        lemma_parent(alpha.len(), j);
        lemma_label_chars(alpha, parent(alpha.len(), j));
        let word = label(alpha, j);
        let stem = label(alpha, parent(alpha.len(), j));
        assert forall|k: int| 0 <= k < word.len() implies alpha.contains(#[trigger] word[k]) by {
            if k < stem.len() {
                assert(word[k] == stem[k]);
            } else {
                assert(word[k] == alpha[child_rank(alpha.len(), j)]);
            }
        }
    }
}

/// Different numbers name different words.
pub proof fn lemma_label_injective(alpha: Seq<char>, i: nat, j: nat)
    requires
        valid_alphabet(alpha),
        label(alpha, i) == label(alpha, j),
    ensures
        i == j,
    decreases i,
{
    lemma_label_chars(alpha, i);
    lemma_label_chars(alpha, j);
    if i > 0 && j > 0 {
        let a = alpha.len();
        lemma_parent(a, i);
        lemma_parent(a, j);
        let x = label(alpha, parent(a, i));
        let y = label(alpha, parent(a, j));
        assert(label(alpha, i).drop_last() == x);
        assert(label(alpha, j).drop_last() == y);
        assert(label(alpha, i).last() == alpha[child_rank(a, i)]);
        assert(label(alpha, j).last() == alpha[child_rank(a, j)]);
        lemma_label_injective(alpha, parent(a, i), parent(a, j));
    }
}

/// Later words are no shorter.
pub proof fn lemma_label_len_ordered(alpha: Seq<char>, i: nat, j: nat)
    requires
        alpha.len() > 0,
        i <= j,
    ensures
        label(alpha, i).len() <= label(alpha, j).len(),
    decreases i,
{
    if i > 0 {
        lemma_parent(alpha.len(), i);
        lemma_parent_ordered(alpha.len(), i, j);
        lemma_label_len_ordered(alpha, parent(alpha.len(), i), parent(alpha.len(), j));
    }
}

/// Breadth-first order is label order.
pub proof fn lemma_label_ordered(alpha: Seq<char>, i: nat, j: nat)
    requires
        valid_alphabet(alpha),
        i < j,
    ensures
        label_before(alpha, label(alpha, i), label(alpha, j)),
    decreases i,
{
    let a = alpha.len();
    let x = label(alpha, i);
    let y = label(alpha, j);
    lemma_label_len_ordered(alpha, i, j);
    lemma_label_chars(alpha, i);
    lemma_label_chars(alpha, j);
    if x.len() == y.len() {
        lemma_parent(a, i);
        lemma_parent(a, j);
        lemma_parent_ordered(a, i, j);
        let px = label(alpha, parent(a, i));
        let py = label(alpha, parent(a, j));
        if parent(a, i) < parent(a, j) {
            lemma_label_ordered(alpha, parent(a, i), parent(a, j));
            let d = choose|d: int| first_difference(alpha, px, py, d);
            assert(x.take(d) == px.take(d));
            assert(y.take(d) == py.take(d));
            assert(first_difference(alpha, x, y, d));
        } else {
            let d = px.len() as int;
            assert(x.take(d) == px);
            assert(y.take(d) == py);
            lemma_rank(alpha, child_rank(a, i));
            lemma_rank(alpha, child_rank(a, j));
            assert(first_difference(alpha, x, y, d));
        }
    }
}

/// The rank of the character at position `r` is `r`.
pub proof fn lemma_rank(alpha: Seq<char>, r: int)
    requires
        alpha.no_duplicates(),
        0 <= r < alpha.len(),
    ensures
        rank(alpha, alpha[r]) == r,
{
    assert(alpha.contains(alpha[r]));
}

/// A word that begins with word `i` descends from it: its parent is not
/// before `i`.
pub proof fn lemma_prefix_is_ancestor(alpha: Seq<char>, i: nat, j: nat)
    requires
        valid_alphabet(alpha),
        label(alpha, i).is_prefix_of(label(alpha, j)),
        i != j,
    ensures
        j > 0,
        i <= parent(alpha.len(), j),
    decreases j,
{
    let a = alpha.len();
    let x = label(alpha, i);
    let y = label(alpha, j);
    lemma_label_chars(alpha, i);
    lemma_label_chars(alpha, j);
    if x.len() == y.len() {
        assert(x == y);
        lemma_label_injective(alpha, i, j);
    } else {
        lemma_parent(a, j);
        let p = parent(a, j);
        let py = label(alpha, p);
        assert(y.subrange(0, x.len() as int) == py.subrange(0, x.len() as int));
        if i > p {
            lemma_label_len_ordered(alpha, p, i);
            assert(x == py);
            lemma_label_injective(alpha, i, p);
        }
    }
}

/// Words of length `n` are those numbered from `shorter_words(a, n)` up to
/// `shorter_words(a, n + 1)`.
pub proof fn lemma_label_len(alpha: Seq<char>, j: nat, n: nat)
    requires
        alpha.len() >= 2,
    ensures
        label(alpha, j).len() == n <==> shorter_words(alpha.len(), n) <= j < shorter_words(
            alpha.len(),
            n + 1,
        ),
    decreases n,
{
    let a = alpha.len();
    lemma_label_chars(alpha, j);
    assert(shorter_words(a, n + 1) == a * shorter_words(a, n) + 1);
    if n == 0 {
    } else if j > 0 {
        let m = (n - 1) as nat;
        let p = parent(a, j);
        lemma_parent(a, j);
        lemma_label_len(alpha, p, m);
        let low = shorter_words(a, m);
        let high = shorter_words(a, n);
        let r = child_rank(a, j);
        assert(p >= low <==> a * p + 1 + r >= a * low + 1) by (nonlinear_arith)
            requires
                a >= 2,
                0 <= r < a,
        ;
        assert(p < high <==> a * p + 1 + r < a * high + 1) by (nonlinear_arith)
            requires
                a >= 2,
                0 <= r < a,
        ;
    } else {
        lemma_shorter_words_positive(a, n);
    }
}

proof fn lemma_shorter_words_positive(a: nat, n: nat)
    requires
        n > 0,
    ensures
        shorter_words(a, n) > 0,
    decreases n,
{
    let m = (n - 1) as nat;
    if m > 0 {
        lemma_shorter_words_positive(a, m);
    }
    let w = shorter_words(a, m);
    assert(a * w >= 0) by (nonlinear_arith)
        requires
            w >= 0,
    ;
}

/// The number of words of length `n` exceeds that of all shorter words,
/// `a - 1` times over, by one.
pub proof fn lemma_power_words(a: nat, n: nat)
    requires
        a >= 2,
    ensures
        pow(a as int, n) == 1 + (a - 1) * shorter_words(a, n),
    decreases n,
{
    if n == 0 {
        lemma_pow0(a as int);
        assert((a - 1) * 0 == 0) by (nonlinear_arith);
    } else {
        let m = (n - 1) as nat;
        lemma_power_words(a, m);
        reveal(pow);
        let w = shorter_words(a, m);
        assert(a * (1 + (a - 1) * w) == 1 + (a - 1) * (a * w + 1)) by (nonlinear_arith);
    }
}

/// Where the window of a label set lies: from word 1 on, and not past the
/// last child of the last extended word.
pub proof fn lemma_window(a: nat, count: nat)
    requires
        a >= 2,
        count > 0,
    ensures
        first_label(a, count) >= 1,
        first_label(a, count) + count - 1 <= a * first_label(a, count),
{
    if count > a {
        let k = extended(a, count);
        lemma_ceil_div(count - 1, a - 1, 0);
        lemma_ceil_div(count - 1, a - 1, k);
        assert(k >= 1);
        assert(k * (a - 1) == a * k - k) by (nonlinear_arith);
    }
}

/// Every label of a set is different from every other.
pub proof fn law_labels_unique(alpha: Seq<char>, count: nat, i: int, j: int)
    requires
        valid_alphabet(alpha),
        0 <= i < label_set(alpha, count).len(),
        0 <= j < label_set(alpha, count).len(),
        i != j,
    ensures
        label_set(alpha, count)[i] != label_set(alpha, count)[j],
{
    if count > 0 {
        lemma_window(alpha.len(), count);
    }
    let first = first_label(alpha.len(), count);
    if label_set(alpha, count)[i] == label_set(alpha, count)[j] {
        lemma_label_injective(alpha, (first + i) as nat, (first + j) as nat);
    }
}

/// No label of a set is a prefix of another.
pub proof fn law_labels_prefix_free(alpha: Seq<char>, count: nat, i: int, j: int)
    requires
        valid_alphabet(alpha),
        0 <= i < label_set(alpha, count).len(),
        0 <= j < label_set(alpha, count).len(),
        i != j,
    ensures
        !label_set(alpha, count)[i].is_prefix_of(label_set(alpha, count)[j]),
{
    let a = alpha.len();
    if count > 0 {
        lemma_window(a, count);
    }
    let first = first_label(a, count);
    let x = (first + i) as nat;
    let y = (first + j) as nat;
    if label(alpha, x).is_prefix_of(label(alpha, y)) {
        lemma_prefix_is_ancestor(alpha, x, y);
        let p = parent(a, y);
        lemma_parent(a, y);
        assert(a * p >= a * first) by (nonlinear_arith)
            requires
                p >= first,
                a >= 2,
        ;
        assert(false);
    }
}

/// Labels are words of one character or more, all of them from the alphabet.
pub proof fn law_labels_use_alphabet(alpha: Seq<char>, count: nat, i: int)
    requires
        valid_alphabet(alpha),
        0 <= i < label_set(alpha, count).len(),
    ensures
        label_set(alpha, count)[i].len() > 0,
        forall|k: int|
            0 <= k < label_set(alpha, count)[i].len() ==> alpha.contains(
                #[trigger] label_set(alpha, count)[i][k],
            ),
{
    if count > 0 {
        lemma_window(alpha.len(), count);
    }
    lemma_label_chars(alpha, (first_label(alpha.len(), count) + i) as nat);
}

/// The set comes in label order, so the first targets get the shortest
/// labels.
pub proof fn law_short_labels_first(alpha: Seq<char>, count: nat, i: int, j: int)
    requires
        valid_alphabet(alpha),
        0 <= i < j < label_set(alpha, count).len(),
    ensures
        label_before(alpha, label_set(alpha, count)[i], label_set(alpha, count)[j]),
        label_set(alpha, count)[i].len() <= label_set(alpha, count)[j].len(),
{
    if count > 0 {
        lemma_window(alpha.len(), count);
    }
    let first = first_label(alpha.len(), count);
    lemma_label_ordered(alpha, (first + i) as nat, (first + j) as nat);
}

/// Labels are as short as the number of targets allows: if `count` lies above
/// `a^(n-1)` and not above `a^n`, every label has `n` or `n - 1` characters
/// and the last one has `n`.
pub proof fn law_label_lengths(alpha: Seq<char>, count: nat, n: nat)
    requires
        valid_alphabet(alpha),
        n > 0,
        pow(alpha.len() as int, (n - 1) as nat) < count <= pow(alpha.len() as int, n),
    ensures
        forall|i: int|
            0 <= i < count ==> n - 1 <= (#[trigger] label_set(alpha, count)[i]).len() <= n,
        label_set(alpha, count)[count - 1].len() == n,
{
    let a = alpha.len();
    let m = (n - 1) as nat;
    lemma_pow_positive(a as int, m);
    lemma_window(a, count);
    lemma_power_words(a, m);
    lemma_power_words(a, n);
    let low = shorter_words(a, m);
    let high = shorter_words(a, n);
    let first = first_label(a, count);
    assert(high == a * low + 1);
    assert(shorter_words(a, n + 1) == a * high + 1);
    if n > 1 {
        lemma_shorter_words_positive(a, m);
    }
    assert((a - 1) * low == low * (a - 1)) by (nonlinear_arith);
    assert((a - 1) * high == high * (a - 1)) by (nonlinear_arith);
    // The window starts past the last word of length `n - 2` that is extended
    // and not after the first word of length `n`.
    if count <= a {
        if n > 1 {
            assert(low >= 1);
            assert(low * (a - 1) >= a - 1) by (nonlinear_arith)
                requires
                    low >= 1,
                    a >= 2,
            ;
        }
        assert(n == 1);
        assert(first == 1 && low == 0 && high == 1) by {
            assert(a * 0 == 0) by (nonlinear_arith);
        }
    } else {
        lemma_ceil_div(count - 1, a - 1, high);
        lemma_ceil_div(count - 1, a - 1, low);
        lemma_ceil_div(count - 1, a - 1, first - 1);
    }
    assert(low < first <= high);
    assert(a * first <= a * high) by (nonlinear_arith)
        requires
            first <= high,
            a >= 2,
    ;
    assert forall|i: int| 0 <= i < count implies n - 1 <= (#[trigger] label_set(
        alpha,
        count,
    )[i]).len() <= n by {
        let j = (first + i) as nat;
        lemma_len_between(alpha, j, m);
    }
    let last = (first + count - 1) as nat;
    lemma_len_between(alpha, last, m);
    lemma_label_len(alpha, last, n);
    if count > a {
        // Fewer extended words would not have made room for `count`.
        assert((first - 1) * (a - 1) == a * (first - 1) - (first - 1)) by (nonlinear_arith);
        assert(last >= a * (first - 1) + 2);
        assert(a * (first - 1) >= a * low) by (nonlinear_arith)
            requires
                first - 1 >= low,
                a >= 2,
        ;
        assert(last >= high);
    }
}

/// A word numbered past the words shorter than `m` and before those longer
/// than `m + 1` has `m` or `m + 1` characters.
proof fn lemma_len_between(alpha: Seq<char>, j: nat, m: nat)
    requires
        alpha.len() >= 2,
        shorter_words(alpha.len(), m) <= j < shorter_words(alpha.len(), m + 2),
    ensures
        m <= label(alpha, j).len() <= m + 1,
{
    lemma_label_len(alpha, j, m);
    lemma_label_len(alpha, j, m + 1);
}

/// The words in breadth-first order: the empty word first, and the words that
/// extend word `i` by one letter are numbers `a * i + 1` to `a * i + a`, in
/// alphabet order.
pub proof fn law_words_by_number(alpha: Seq<char>, i: nat, c: int)
    requires
        0 <= c < alpha.len(),
    ensures
        label(alpha, 0).len() == 0,
        label(alpha, (alpha.len() * i + 1 + c) as nat) == label(alpha, i) + seq![alpha[c]],
{
    lemma_child(alpha.len(), i, c);
    assert(label(alpha, i).push(alpha[c]) =~= label(alpha, i) + seq![alpha[c]]);
}

/// A few labels are the single letters of the alphabet in order. For more, as
/// few words as possible are extended: with `k` of them extended `k * (a - 1)
/// + 1` words are left, the first of them is word `k`, and the labels are that
/// one and those after it.
pub proof fn law_labels_are_consecutive(alpha: Seq<char>, count: nat, k: nat, i: int)
    requires
        alpha.len() >= 2,
        0 <= i < count,
    ensures
        label_set(alpha, count).len() == count,
        count <= alpha.len() ==> label_set(alpha, count)[i] == seq![alpha[i]],
        count > alpha.len() && k * (alpha.len() - 1) + 1 >= count && k > 0 && (k - 1) * (alpha.len()
            - 1) + 1 < count ==> label_set(alpha, count)[i] == label(alpha, (k + i) as nat),
{
    let a = alpha.len();
    if count <= a {
        law_words_by_number(alpha, 0, i);
        assert(a * 0 == 0) by (nonlinear_arith);
        assert(label(alpha, 0) + seq![alpha[i]] =~= seq![alpha[i]]);
    } else {
        lemma_ceil_div(count - 1, a - 1, k as int);
        lemma_ceil_div(count - 1, a - 1, k - 1);
    }
}

} // verus!
