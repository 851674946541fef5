//! The slug of a task: the file name under which a task is stored, made from its
//! title in lower case, with everything but letters, digits and white space
//! dropped, and the remaining words joined by hyphens.

use vstd::prelude::*;
use crate::text::{
    is_white_space,
    is_alphanumeric,
    unicode_lowercase,
    all_ascii,
    ascii_lowercase,
    ascii_lower,
    is_ascii_alphanumeric,
    char_is_whitespace,
    char_is_alphanumeric,
    str_to_lowercase,
    push_char,
    chars_of,
};
use crate::task::Task;

verus! {

broadcast use vstd::seq_lib::group_seq_properties;

/// A character that survives into a slug (letters, digits) or separates words
/// (white space).
pub open spec fn kept(c: char) -> bool {
    is_alphanumeric(c) || is_white_space(c)
}

/// `kept` as a predicate on characters.
pub open spec fn kept_pred() -> spec_fn(char) -> bool {
    |c: char| kept(c)
}

/// The words of `s`: its maximal runs of characters that are not white space,
/// in order.
pub open spec fn words(s: Seq<char>) -> Seq<Seq<char>>
    decreases s.len(),
{
    if s.len() == 0 {
        seq![]
    } else {
        let w = words(s.drop_last());
        let c = s.last();
        if is_white_space(c) {
            w
        } else if s.len() >= 2 && !is_white_space(s[s.len() - 2]) {
            w.update(w.len() - 1, w.last().push(c))
        } else {
            w.push(seq![c])
        }
    }
}

/// The words joined by hyphens.
pub open spec fn join_words(w: Seq<Seq<char>>) -> Seq<char>
    decreases w.len(),
{
    if w.len() == 0 {
        seq![]
    } else if w.len() == 1 {
        w[0]
    } else {
        join_words(w.drop_last()).push('-') + w.last()
    }
}

/// The slug of a text already in lower case.
pub open spec fn slug_of_lowercase(s: Seq<char>) -> Seq<char> {
    join_words(words(s.filter(kept_pred())))
}

/// The slug of a title.
pub open spec fn slug(title: Seq<char>) -> Seq<char> {
    slug_of_lowercase(unicode_lowercase(title))
}

/// The shape of every slug: letters and digits (that are not white space) and
/// single hyphens between them, no hyphen at either end.
pub open spec fn is_slug_shaped(s: Seq<char>) -> bool {
    &&& forall|i: int|
        0 <= i < s.len() ==> (#[trigger] s[i] == '-' || (is_alphanumeric(s[i])
            && !is_white_space(s[i])))
    &&& s.len() > 0 ==> s[0] != '-' && s.last() != '-'
    &&& forall|i: int| 0 <= i < s.len() - 1 ==> !(#[trigger] s[i] == '-' && s[i + 1] == '-')
}

/// A word of a slug: not empty, of letters and digits that are not white space.
pub open spec fn is_slug_word(w: Seq<char>) -> bool {
    &&& w.len() > 0
    &&& forall|i: int|
        0 <= i < w.len() ==> is_alphanumeric(#[trigger] w[i]) && !is_white_space(w[i])
}

/// A string ending in a character that is not white space has a word.
proof fn lemma_words_nonempty(s: Seq<char>)
    requires
        s.len() > 0,
        !is_white_space(s.last()),
    ensures
        words(s).len() > 0,
    decreases s.len(),
{
    let w = words(s.drop_last());
    if s.len() >= 2 && !is_white_space(s[s.len() - 2]) {
        lemma_words_nonempty(s.drop_last());
    }
}

/// Every word of a string of kept characters is a slug word.
proof fn lemma_words_shape(s: Seq<char>)
    requires
        forall|i: int| 0 <= i < s.len() ==> kept(#[trigger] s[i]),
    ensures
        forall|k: int| 0 <= k < words(s).len() ==> is_slug_word(#[trigger] words(s)[k]),
    decreases s.len(),
{
    if s.len() > 0 {
        let p = s.drop_last();
        lemma_words_shape(p);
        let w = words(p);
        let c = s.last();
        assert(kept(s[s.len() - 1]));
        if is_white_space(c) {
        } else if s.len() >= 2 && !is_white_space(s[s.len() - 2]) {
            lemma_words_nonempty(p);
            let nw = w.last().push(c);
            assert(is_slug_word(w[w.len() - 1]));
            assert(is_slug_word(nw));
            assert forall|k: int| 0 <= k < words(s).len() implies is_slug_word(
                #[trigger] words(s)[k],
            ) by {
                if k < w.len() - 1 {
                    assert(words(s)[k] == w[k]);
                }
            }
        } else {
            let nw = seq![c];
            assert(is_slug_word(nw));
            assert forall|k: int| 0 <= k < words(s).len() implies is_slug_word(
                #[trigger] words(s)[k],
            ) by {
                if k < w.len() {
                    assert(words(s)[k] == w[k]);
                }
            }
        }
    }
}

/// Hyphen-joined slug words form a slug.
proof fn lemma_join_shape(w: Seq<Seq<char>>)
    requires
        forall|k: int| 0 <= k < w.len() ==> is_slug_word(#[trigger] w[k]),
    ensures
        is_slug_shaped(join_words(w)),
        w.len() > 0 ==> join_words(w).len() > 0,
    decreases w.len(),
{
    if w.len() == 1 {
        assert(is_slug_word(w[0]));
        assert(!is_alphanumeric('-'));
    } else if w.len() > 1 {
        let p = w.drop_last();
        assert forall|k: int| 0 <= k < p.len() implies is_slug_word(#[trigger] p[k]) by {
            assert(p[k] == w[k]);
        }
        lemma_join_shape(p);
        let a = join_words(p);
        let x = w.last();
        assert(is_slug_word(w[w.len() - 1]));
        assert(!is_alphanumeric('-'));
        let j = a.push('-') + x;
        assert(join_words(w) == j);
        assert forall|i: int| 0 <= i < j.len() implies (#[trigger] j[i] == '-' || (
        is_alphanumeric(j[i]) && !is_white_space(j[i]))) by {
            if i < a.len() {
                assert(j[i] == a[i]);
            } else if i > a.len() {
                assert(j[i] == x[i - a.len() - 1]);
            }
        }
        assert forall|i: int| 0 <= i < j.len() - 1 implies !(#[trigger] j[i] == '-' && j[i + 1]
            == '-') by {
            if i < a.len() - 1 {
                assert(j[i] == a[i] && j[i + 1] == a[i + 1]);
            } else if i == a.len() - 1 {
                assert(j[i] == a[a.len() - 1]);
            } else if i == a.len() {
                assert(j[i + 1] == x[0]);
            } else {
                assert(j[i] == x[i - a.len() - 1] && j[i + 1] == x[i - a.len()]);
            }
        }
        assert(j[0] == a[0]);
        assert(j.last() == x.last());
    }
}

/// Every slug has the shape of a slug.
pub proof fn lemma_slug_shape(title: Seq<char>)
    ensures
        is_slug_shaped(slug(title)),
{
    lemma_slug_of_lowercase_shape(unicode_lowercase(title));
}

/// The slug of any lower-case text has the shape of a slug.
pub proof fn lemma_slug_of_lowercase_shape(s: Seq<char>)
    ensures
        is_slug_shaped(slug_of_lowercase(s)),
{
    let f = s.filter(kept_pred());
    assert forall|i: int| 0 <= i < f.len() implies kept(#[trigger] f[i]) by {
        s.lemma_filter_pred(kept_pred(), i);
    }
    lemma_words_shape(f);
    lemma_join_shape(words(f));
}

/// A string of white space only.
pub open spec fn all_white(w: Seq<char>) -> bool {
    forall|i: int| 0 <= i < w.len() ==> is_white_space(#[trigger] w[i])
}

/// Trailing white space adds no word.
proof fn lemma_words_trailing_white(x: Seq<char>, w: Seq<char>)
    requires
        all_white(w),
    ensures
        words(x + w) == words(x),
    decreases w.len(),
{
    if w.len() == 0 {
        assert(x + w == x);
    } else {
        assert((x + w).drop_last() == x + w.drop_last());
        assert((x + w).last() == w[w.len() - 1]);
        lemma_words_trailing_white(x, w.drop_last());
    }
}

/// After white space (or at the start), the words of what follows are words
/// of their own.
proof fn lemma_words_concat(x: Seq<char>, y: Seq<char>)
    requires
        x.len() == 0 || is_white_space(x.last()),
    ensures
        words(x + y) == words(x) + words(y),
    decreases y.len(),
{
    if y.len() == 0 {
        assert(x + y == x);
        assert(words(x) + words(y) == words(x));
    } else {
        let z = x + y;
        let yd = y.drop_last();
        assert(z.drop_last() == x + yd);
        lemma_words_concat(x, yd);
        let a = words(x);
        let b = words(yd);
        let c = y.last();
        assert(z.last() == c);
        if is_white_space(c) {
        } else {
            if y.len() >= 2 {
                assert(z[z.len() - 2] == y[y.len() - 2]);
            } else if x.len() > 0 {
                assert(z[z.len() - 2] == x.last());
            }
            if y.len() >= 2 && !is_white_space(y[y.len() - 2]) {
                assert(yd.last() == y[y.len() - 2]);
                lemma_words_nonempty(yd);
                assert((a + b).update((a + b).len() - 1, (a + b).last().push(c)) =~= a + b.update(
                    b.len() - 1,
                    b.last().push(c),
                ));
            } else {
                assert((a + b).push(seq![c]) =~= a + b.push(seq![c]));
            }
        }
    }
}

/// White space alone has no word.
proof fn lemma_words_all_white(w: Seq<char>)
    requires
        all_white(w),
    ensures
        words(w) == Seq::<Seq<char>>::empty(),
{
    lemma_words_trailing_white(Seq::<char>::empty(), w);
    assert(Seq::<char>::empty() + w == w);
}

/// Characters that a slug keeps all survive the filter.
proof fn lemma_filter_all_kept(w: Seq<char>)
    requires
        forall|i: int| 0 <= i < w.len() ==> kept(#[trigger] w[i]),
    ensures
        w.filter(kept_pred()) == w,
    decreases w.len(),
{
    if w.len() > 0 {
        lemma_filter_all_kept(w.drop_last());
        w.drop_last().lemma_filter_push(w.last(), kept_pred());
        assert(w.drop_last().push(w.last()) == w);
    } else {
        reveal(Seq::filter);
    }
}

/// The filter of a concatenation.
proof fn lemma_filter_concat3(a: Seq<char>, m: Seq<char>, b: Seq<char>)
    ensures
        (a + m + b).filter(kept_pred()) == a.filter(kept_pred()) + m.filter(kept_pred()) + b.filter(
            kept_pred(),
        ),
{
    Seq::filter_distributes_over_add(a + m, b, kept_pred());
    Seq::filter_distributes_over_add(a, m, kept_pred());
}

/// Inserting a character that a slug drops (neither a letter, a digit nor white
/// space) anywhere in a text leaves its slug unchanged; so does removing one.
pub proof fn lemma_slug_ignores_dropped_char(s: Seq<char>, i: int, c: char)
    requires
        0 <= i <= s.len(),
        !kept(c),
    ensures
        slug_of_lowercase(s.insert(i, c)) == slug_of_lowercase(s),
{
    let a = s.take(i);
    let b = s.skip(i);
    assert(s.insert(i, c) =~= a + seq![c] + b);
    assert(s =~= a + Seq::<char>::empty() + b);
    lemma_filter_concat3(a, seq![c], b);
    lemma_filter_concat3(a, Seq::<char>::empty(), b);
    seq![c].drop_last().lemma_filter_push(c, kept_pred());
    assert(Seq::<char>::empty().push(c) == seq![c]);
    assert(seq![c].drop_last() == Seq::<char>::empty());
    reveal(Seq::filter);
    assert(Seq::<char>::empty().filter(kept_pred()) == Seq::<char>::empty());
}

/// Replacing a run of white space between two parts of a text by another
/// (non-empty) run leaves the slug unchanged.
pub proof fn lemma_slug_white_space_runs(a: Seq<char>, w1: Seq<char>, w2: Seq<char>, b: Seq<char>)
    requires
        w1.len() > 0,
        w2.len() > 0,
        all_white(w1),
        all_white(w2),
    ensures
        slug_of_lowercase(a + w1 + b) == slug_of_lowercase(a + w2 + b),
{
    assert(forall|i: int| 0 <= i < w1.len() ==> kept(#[trigger] w1[i]));
    assert(forall|i: int| 0 <= i < w2.len() ==> kept(#[trigger] w2[i]));
    lemma_filter_all_kept(w1);
    lemma_filter_all_kept(w2);
    lemma_filter_concat3(a, w1, b);
    lemma_filter_concat3(a, w2, b);
    let af = a.filter(kept_pred());
    let bf = b.filter(kept_pred());
    assert((af + w1).last() == w1.last());
    assert((af + w2).last() == w2.last());
    lemma_words_concat(af + w1, bf);
    lemma_words_concat(af + w2, bf);
    lemma_words_trailing_white(af, w1);
    lemma_words_trailing_white(af, w2);
}

/// White space before or after a text does not change its slug.
pub proof fn lemma_slug_white_space_ends(w: Seq<char>, s: Seq<char>)
    requires
        all_white(w),
    ensures
        slug_of_lowercase(w + s) == slug_of_lowercase(s),
        slug_of_lowercase(s + w) == slug_of_lowercase(s),
{
    assert(forall|i: int| 0 <= i < w.len() ==> kept(#[trigger] w[i]));
    lemma_filter_all_kept(w);
    let e = Seq::<char>::empty();
    assert(w + s == e + w + s);
    assert(s + w == s + w + e);
    lemma_filter_concat3(e, w, s);
    lemma_filter_concat3(s, w, e);
    reveal(Seq::filter);
    assert(e.filter(kept_pred()) == e);
    let sf = s.filter(kept_pred());
    assert(e + w + sf == w + sf);
    assert(sf + w + e == sf + w);
    if w.len() > 0 {
        assert(w.last() == w[w.len() - 1]);
    }
    lemma_words_concat(w, sf);
    lemma_words_all_white(w);
    assert(words(w) + words(sf) == words(sf));
    lemma_words_trailing_white(sf, w);
}

/// The slug of a title lowered letter by letter on ASCII, which is what
/// `get_task_slug` gives for an all-ASCII title.
pub open spec fn ascii_title_slug(title: Seq<char>) -> Seq<char> {
    slug_of_lowercase(ascii_lowercase(title))
}

/// Lowering ASCII letters keeps white space as it is.
proof fn lemma_ascii_lowercase_white(w: Seq<char>)
    requires
        all_white(w),
    ensures
        ascii_lowercase(w) == w,
        all_white(ascii_lowercase(w)),
{
    assert forall|i: int| 0 <= i < w.len() implies #[trigger] ascii_lowercase(w)[i] == w[i] by {
        assert(is_white_space(w[i]));
    }
    assert(ascii_lowercase(w) =~= w);
}

/// Lowering ASCII letters goes part by part.
proof fn lemma_ascii_lowercase_concat3(a: Seq<char>, m: Seq<char>, b: Seq<char>)
    ensures
        ascii_lowercase(a + m + b) == ascii_lowercase(a) + ascii_lowercase(m) + ascii_lowercase(b),
{
    assert(ascii_lowercase(a + m + b) =~= ascii_lowercase(a) + ascii_lowercase(m) + ascii_lowercase(
        b,
    ));
}

/// Titles that differ only in the case of ASCII letters have the same slug.
pub proof fn lemma_ascii_slug_ignores_case(t1: Seq<char>, t2: Seq<char>)
    requires
        t1.len() == t2.len(),
        forall|i: int| 0 <= i < t1.len() ==> ascii_lower(#[trigger] t1[i]) == ascii_lower(t2[i]),
    ensures
        ascii_title_slug(t1) == ascii_title_slug(t2),
{
    assert(ascii_lowercase(t1) =~= ascii_lowercase(t2));
}

/// Inserting into a title (or removing from it) a character that the slug
/// drops leaves the slug of the title unchanged.
pub proof fn lemma_ascii_slug_ignores_dropped_char(t: Seq<char>, i: int, c: char)
    requires
        0 <= i <= t.len(),
        !kept(c),
    ensures
        ascii_title_slug(t.insert(i, c)) == ascii_title_slug(t),
{
    assert(!is_ascii_alphanumeric(c) || (c as u32) >= 0x80);
    assert(ascii_lower(c) == c);
    assert(ascii_lowercase(t.insert(i, c)) =~= ascii_lowercase(t).insert(i, c));
    lemma_slug_ignores_dropped_char(ascii_lowercase(t), i, c);
}

/// Replacing a run of white space in a title by another (non-empty) run
/// leaves the slug of the title unchanged.
pub proof fn lemma_ascii_slug_white_space_runs(
    a: Seq<char>,
    w1: Seq<char>,
    w2: Seq<char>,
    b: Seq<char>,
)
    requires
        w1.len() > 0,
        w2.len() > 0,
        all_white(w1),
        all_white(w2),
    ensures
        ascii_title_slug(a + w1 + b) == ascii_title_slug(a + w2 + b),
{
    lemma_ascii_lowercase_white(w1);
    lemma_ascii_lowercase_white(w2);
    lemma_ascii_lowercase_concat3(a, w1, b);
    lemma_ascii_lowercase_concat3(a, w2, b);
    lemma_slug_white_space_runs(ascii_lowercase(a), w1, w2, ascii_lowercase(b));
}

/// White space before or after a title does not change its slug.
pub proof fn lemma_ascii_slug_white_space_ends(w: Seq<char>, t: Seq<char>)
    requires
        all_white(w),
    ensures
        ascii_title_slug(w + t) == ascii_title_slug(t),
        ascii_title_slug(t + w) == ascii_title_slug(t),
{
    let e = Seq::<char>::empty();
    lemma_ascii_lowercase_white(w);
    assert(w + t == e + w + t);
    assert(t + w == t + w + e);
    lemma_ascii_lowercase_concat3(e, w, t);
    lemma_ascii_lowercase_concat3(t, w, e);
    assert(ascii_lowercase(e) =~= e);
    assert(e + w + ascii_lowercase(t) == w + ascii_lowercase(t));
    assert(ascii_lowercase(t) + w + e == ascii_lowercase(t) + w);
    lemma_slug_white_space_ends(w, ascii_lowercase(t));
}

/// A letter or digit, and not white space: what a slug keeps of a text.
pub open spec fn is_letter_or_digit(c: char) -> bool {
    is_alphanumeric(c) && !is_white_space(c)
}

/// Every character that `char::is_alphanumeric` accepts, and every white-space
/// character, is kept on the way to the slug; nothing else is.
pub proof fn lemma_kept_characters(c: char)
    ensures
        is_alphanumeric(c) ==> kept(c),
        is_white_space(c) ==> kept(c),
        !is_alphanumeric(c) && !is_white_space(c) ==> !kept(c),
{
}

/// The concatenation of the words, in order.
pub open spec fn flatten(w: Seq<Seq<char>>) -> Seq<char>
    decreases w.len(),
{
    if w.len() == 0 {
        seq![]
    } else {
        flatten(w.drop_last()) + w.last()
    }
}

/// A filter that every character passes keeps the string whole.
proof fn lemma_filter_all(w: Seq<char>, pred: spec_fn(char) -> bool)
    requires
        forall|i: int| 0 <= i < w.len() ==> pred(#[trigger] w[i]),
    ensures
        w.filter(pred) == w,
    decreases w.len(),
{
    if w.len() > 0 {
        lemma_filter_all(w.drop_last(), pred);
        w.drop_last().lemma_filter_push(w.last(), pred);
        assert(w.drop_last().push(w.last()) == w);
    } else {
        reveal(Seq::filter);
    }
}

/// Keeping what a slug keeps and then dropping white space keeps exactly the
/// letters and digits.
proof fn lemma_filter_kept_then_not_white(s: Seq<char>)
    ensures
        s.filter(kept_pred()).filter(|c: char| !is_white_space(c)) == s.filter(
            |c: char| is_letter_or_digit(c),
        ),
    decreases s.len(),
{
    let nw = |c: char| !is_white_space(c);
    let ld = |c: char| is_letter_or_digit(c);
    if s.len() == 0 {
        reveal(Seq::filter);
        assert(s.filter(kept_pred()) == s);
    } else {
        let g = s.drop_last();
        let c = s.last();
        assert(g.push(c) == s);
        lemma_filter_kept_then_not_white(g);
        g.lemma_filter_push(c, kept_pred());
        g.lemma_filter_push(c, ld);
        if kept(c) {
            g.filter(kept_pred()).lemma_filter_push(c, nw);
        }
    }
}

/// The words of a text, put back together, are its characters that are not
/// white space.
proof fn lemma_flatten_words(f: Seq<char>)
    ensures
        flatten(words(f)) == f.filter(|c: char| !is_white_space(c)),
    decreases f.len(),
{
    let nw = |c: char| !is_white_space(c);
    if f.len() == 0 {
        reveal(Seq::filter);
    } else {
        let g = f.drop_last();
        let c = f.last();
        assert(g.push(c) == f);
        lemma_flatten_words(g);
        g.lemma_filter_push(c, nw);
        let w = words(g);
        if is_white_space(c) {
        } else if f.len() >= 2 && !is_white_space(f[f.len() - 2]) {
            assert(g.last() == f[f.len() - 2]);
            lemma_words_nonempty(g);
            let u = w.update(w.len() - 1, w.last().push(c));
            assert(u.drop_last() == w.drop_last());
            assert(flatten(w) == flatten(w.drop_last()) + w.last());
            assert(flatten(u) =~= flatten(w).push(c));
        } else {
            let u = w.push(seq![c]);
            assert(u.drop_last() == w);
            assert(flatten(u) =~= flatten(w).push(c));
        }
    }
}

/// Dropping the hyphens of hyphen-joined words without hyphens gives the words
/// put back together.
proof fn lemma_drop_hyphens_join(w: Seq<Seq<char>>)
    requires
        forall|k: int| 0 <= k < w.len() ==> is_slug_word(#[trigger] w[k]),
    ensures
        join_words(w).filter(|c: char| c != '-') == flatten(w),
    decreases w.len(),
{
    let nh = |c: char| c != '-';
    assert(!is_alphanumeric('-'));
    if w.len() == 0 {
        reveal(Seq::filter);
    } else {
        let x = w.last();
        assert(is_slug_word(w[w.len() - 1]));
        lemma_filter_all(x, nh);
        let p = w.drop_last();
        assert(flatten(w) == flatten(p) + x);
        if w.len() == 1 {
            reveal(Seq::filter);
            assert(flatten(p) == Seq::<char>::empty());
            assert(flatten(p) + x == x);
        } else {
            assert forall|k: int| 0 <= k < p.len() implies is_slug_word(#[trigger] p[k]) by {
                assert(p[k] == w[k]);
            }
            lemma_drop_hyphens_join(p);
            let j = join_words(p);
            assert(j.push('-') == j + seq!['-']);
            Seq::filter_distributes_over_add(j + seq!['-'], x, nh);
            Seq::filter_distributes_over_add(j, seq!['-'], nh);
            Seq::<char>::empty().lemma_filter_push('-', nh);
            assert(Seq::<char>::empty().push('-') == seq!['-']);
            reveal(Seq::filter);
            assert(Seq::<char>::empty().filter(nh) == Seq::<char>::empty());
            assert(j.filter(nh) + Seq::<char>::empty() == j.filter(nh));
        }
    }
}

/// The slug of a text, without its hyphens, is exactly the text's letters and
/// digits, in order: none is dropped, none is added, none is moved.
pub proof fn lemma_slug_letters(s: Seq<char>)
    ensures
        slug_of_lowercase(s).filter(|c: char| c != '-') == s.filter(
            |c: char| is_letter_or_digit(c),
        ),
{
    let f = s.filter(kept_pred());
    assert forall|i: int| 0 <= i < f.len() implies kept(#[trigger] f[i]) by {
        s.lemma_filter_pred(kept_pred(), i);
    }
    lemma_words_shape(f);
    lemma_drop_hyphens_join(words(f));
    lemma_flatten_words(f);
    lemma_filter_kept_then_not_white(s);
}

/// A single word of letters and digits is its own slug, whatever its script.
pub proof fn lemma_slug_of_word(w: Seq<char>)
    requires
        w.len() > 0,
        forall|i: int| 0 <= i < w.len() ==> is_letter_or_digit(#[trigger] w[i]),
    ensures
        slug_of_lowercase(w) == w,
{
    assert(forall|i: int| 0 <= i < w.len() ==> kept(#[trigger] w[i]));
    lemma_filter_all_kept(w);
    lemma_words_single(w);
}

/// The words of a non-empty text without white space: the text alone.
proof fn lemma_words_single(w: Seq<char>)
    requires
        w.len() > 0,
        forall|i: int| 0 <= i < w.len() ==> !is_white_space(#[trigger] w[i]),
    ensures
        words(w) == seq![w],
    decreases w.len(),
{
    let c = w.last();
    assert(!is_white_space(w[w.len() - 1]));
    if w.len() == 1 {
        assert(w.drop_last() == Seq::<char>::empty());
        assert(words(Seq::<char>::empty()) == Seq::<Seq<char>>::empty());
        assert(seq![c] =~= w);
        assert(Seq::<Seq<char>>::empty().push(seq![c]) =~= seq![w]);
    } else {
        let g = w.drop_last();
        assert forall|i: int| 0 <= i < g.len() implies !is_white_space(#[trigger] g[i]) by {
            assert(g[i] == w[i]);
        }
        lemma_words_single(g);
        assert(!is_white_space(w[w.len() - 2]));
        assert(g.push(c) == w);
        assert(seq![g].last() == g);
        assert(seq![g].update(0, g.push(c)) =~= seq![w]);
    }
}

/// Joining two non-empty lists of words: a hyphen between their joins.
proof fn lemma_join_concat(x: Seq<Seq<char>>, y: Seq<Seq<char>>)
    requires
        x.len() > 0,
        y.len() > 0,
    ensures
        join_words(x + y) == join_words(x).push('-') + join_words(y),
    decreases y.len(),
{
    if y.len() == 1 {
        assert(x + y == x.push(y[0]));
        lemma_join_push(x, y[0]);
    } else {
        let yd = y.drop_last();
        assert(x + y == (x + yd).push(y.last()));
        assert(yd.push(y.last()) == y);
        lemma_join_push(x + yd, y.last());
        lemma_join_push(yd, y.last());
        lemma_join_concat(x, yd);
        assert(join_words(x + y) =~= join_words(x).push('-') + join_words(y));
    }
}

/// A join of slug words is empty exactly when there are no words.
proof fn lemma_join_empty(w: Seq<Seq<char>>)
    requires
        forall|k: int| 0 <= k < w.len() ==> is_slug_word(#[trigger] w[k]),
    ensures
        (join_words(w).len() == 0) <==> (w.len() == 0),
{
    lemma_join_shape(w);
}

/// A text without white space gives a slug of its letters and digits, with no
/// hyphen.
pub proof fn lemma_slug_without_white_space(s: Seq<char>)
    requires
        forall|i: int| 0 <= i < s.len() ==> !is_white_space(#[trigger] s[i]),
    ensures
        slug_of_lowercase(s) == s.filter(|c: char| is_letter_or_digit(c)),
{
    let f = s.filter(kept_pred());
    assert forall|i: int| 0 <= i < f.len() implies kept(#[trigger] f[i]) && !is_white_space(f[i]) by {
        s.lemma_filter_pred(kept_pred(), i);
        assert(f.contains(f[i]));
        s.lemma_filter_contains_rev(kept_pred(), f[i]);
        let j = choose|j: int| 0 <= j < s.len() && s[j] == f[i];
        assert(!is_white_space(s[j]));
    }
    lemma_filter_all(f, |c: char| !is_white_space(c));
    lemma_filter_kept_then_not_white(s);
    if f.len() > 0 {
        lemma_words_single(f);
        assert(join_words(seq![f]) == f);
    } else {
        assert(words(f) == Seq::<Seq<char>>::empty());
    }
}

/// White space between two parts of a text puts exactly one hyphen between
/// their slugs (and nothing when either has no letter or digit).
pub proof fn lemma_slug_of_separated(a: Seq<char>, w: Seq<char>, b: Seq<char>)
    requires
        w.len() > 0,
        all_white(w),
    ensures
        slug_of_lowercase(a + w + b) == if slug_of_lowercase(a).len() == 0 {
            slug_of_lowercase(b)
        } else if slug_of_lowercase(b).len() == 0 {
            slug_of_lowercase(a)
        } else {
            slug_of_lowercase(a).push('-') + slug_of_lowercase(b)
        },
{
    assert(forall|i: int| 0 <= i < w.len() ==> kept(#[trigger] w[i]));
    lemma_filter_all_kept(w);
    lemma_filter_concat3(a, w, b);
    let af = a.filter(kept_pred());
    let bf = b.filter(kept_pred());
    assert((af + w).last() == w.last());
    lemma_words_concat(af + w, bf);
    lemma_words_trailing_white(af, w);
    let x = words(af);
    let y = words(bf);
    assert forall|i: int| 0 <= i < af.len() implies kept(#[trigger] af[i]) by {
        a.lemma_filter_pred(kept_pred(), i);
    }
    assert forall|i: int| 0 <= i < bf.len() implies kept(#[trigger] bf[i]) by {
        b.lemma_filter_pred(kept_pred(), i);
    }
    lemma_words_shape(af);
    lemma_words_shape(bf);
    lemma_join_empty(x);
    lemma_join_empty(y);
    if x.len() == 0 {
        assert(x + y == y);
    } else if y.len() == 0 {
        assert(x + y == x);
    } else {
        lemma_join_concat(x, y);
    }
}

/// Appending a character to the last word extends the joined string by it.
proof fn lemma_join_extend_last(w: Seq<Seq<char>>, c: char)
    requires
        w.len() > 0,
    ensures
        join_words(w.update(w.len() - 1, w.last().push(c))) == join_words(w).push(c),
{
    let v = w.update(w.len() - 1, w.last().push(c));
    if w.len() > 1 {
        assert(v.drop_last() == w.drop_last());
        assert(join_words(w.drop_last()).push('-') + w.last().push(c) == (join_words(
            w.drop_last(),
        ).push('-') + w.last()).push(c));
    }
}

/// Appending a word extends the joined string by a hyphen and the word.
proof fn lemma_join_push(w: Seq<Seq<char>>, x: Seq<char>)
    ensures
        join_words(w.push(x)) == if w.len() == 0 {
            x
        } else {
            join_words(w).push('-') + x
        },
{
    assert(w.push(x).drop_last() == w);
}

/// The slug of a text already in lower case.
pub fn slug_from_lowercase(lowered: &str) -> (r: String)
    ensures
        r@ == slug_of_lowercase(lowered@),
        r@.filter(|c: char| c != '-') == lowered@.filter(|c: char| is_letter_or_digit(c)),
{
    proof {
        lemma_slug_letters(lowered@);
    }
    let v = chars_of(lowered);
    let mut out = String::new();
    let mut has_word = false;
    let mut pending = false;
    let mut i: usize = 0;
    while i < v.len()
        invariant
            i <= v.len(),
            v@ == lowered@,
            ({
                let f = v@.take(i as int).filter(kept_pred());
                &&& out@ == join_words(words(f))
                &&& has_word == (words(f).len() > 0)
                &&& pending == (f.len() > 0 && is_white_space(f.last()))
            }),
        decreases v.len() - i,
    {
        let c = v[i];
        let ghost f = v@.take(i as int).filter(kept_pred());
        assert(v@.take(i + 1) == v@.take(i as int).push(c));
        proof {
            v@.take(i as int).lemma_filter_push(c, kept_pred());
        }
        let white = char_is_whitespace(c);
        if white {
            assert(f.push(c).drop_last() == f);
            pending = true;
            assert(words(f.push(c)) == words(f));
        } else if char_is_alphanumeric(c) {
            assert(f.push(c).drop_last() == f);
            if pending || !has_word {
                if has_word {
                    push_char(&mut out, '-');
                }
                push_char(&mut out, c);
                proof {
                    if f.len() > 0 && !is_white_space(f.last()) {
                        lemma_words_nonempty(f);
                    }
                    assert(f.len() > 0 ==> f.push(c)[f.len() - 1] == f.last());
                    assert(words(f.push(c)) == words(f).push(seq![c]));
                    lemma_join_push(words(f), seq![c]);
                    if words(f).len() > 0 {
                        assert(join_words(words(f)).push('-') + seq![c] == join_words(
                            words(f),
                        ).push('-').push(c));
                    }
                }
            } else {
                proof {
                    lemma_words_nonempty(f);
                    assert(f.push(c)[f.len() - 1] == f.last());
                    lemma_join_extend_last(words(f), c);
                }
                push_char(&mut out, c);
            }
            has_word = true;
            pending = false;
            assert(out@ == join_words(words(f.push(c))));
        } else {
            assert(!kept(c));
        }
        i = i + 1;
    }
    assert(v@.take(v.len() as int) == v@);
    out
}

/// The slug of a task: its title in lower case, with all but letters, digits
/// and white space dropped, and its words joined by hyphens. An ASCII title is
/// lowered letter by letter, so titles that differ only in the case of ASCII
/// letters have the same slug.
pub fn get_task_slug(task: &Task) -> (r: String)
    ensures
        r@ == slug(task.title@),
        all_ascii(task.title@) ==> r@ == ascii_title_slug(task.title@),
        r@.filter(|c: char| c != '-') == unicode_lowercase(task.title@).filter(
            |c: char| is_letter_or_digit(c),
        ),
{
    let lowered = str_to_lowercase(task.title.as_str());
    slug_from_lowercase(lowered.as_str())
}

} // verus!
