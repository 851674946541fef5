//! Paths as strings, with the two operations the project needs: appending a
//! component (as `PathBuf::push` does on Unix) and taking the last component
//! (as the last item of `Path::iter` on Unix).

use vstd::prelude::*;
use crate::text::{chars_of, string_from_range, push_char};

verus! {

broadcast use vstd::seq_lib::group_seq_properties;

/// `base` with `name` appended: an absolute `name` replaces `base`; otherwise a
/// `/` separates them unless `base` is empty or already ends in one.
pub open spec fn path_join(base: Seq<char>, name: Seq<char>) -> Seq<char> {
    if name.len() > 0 && name[0] == '/' {
        name
    } else if base.len() == 0 || base.last() == '/' {
        base + name
    } else {
        base.push('/') + name
    }
}

/// The path `base` with `name` appended.
pub fn push_path(base: &str, name: &str) -> (r: String)
    ensures
        r@ == path_join(base@, name@),
{
    let b = chars_of(base);
    let n = chars_of(name);
    if n.len() > 0 && n[0] == '/' {
        return string_from_range(&n, 0, n.len());
    }
    let mut r = string_from_range(&b, 0, b.len());
    assert(b@.subrange(0, b.len() as int) == b@);
    if b.len() > 0 && b[b.len() - 1] != '/' {
        push_char(&mut r, '/');
    }
    let mut i: usize = 0;
    let ghost start = r@;
    while i < n.len()
        invariant
            i <= n.len(),
            r@ == start + n@.take(i as int),
        decreases n.len() - i,
    {
        push_char(&mut r, n[i]);
        assert(n@.take(i + 1) == n@.take(i as int).push(n@[i as int]));
        i = i + 1;
    }
    assert(n@.take(n.len() as int) == n@);
    r
}

/// Where the last segment of `p` starts: just after its last `/`, or at 0.
pub open spec fn segment_start(p: Seq<char>) -> nat
    decreases p.len(),
{
    if p.len() == 0 {
        0
    } else if p.last() == '/' {
        p.len()
    } else {
        segment_start(p.drop_last())
    }
}

/// The last segment starts within the path, before its end when the path does
/// not end in `/`.
pub proof fn lemma_segment_start(p: Seq<char>)
    ensures
        segment_start(p) <= p.len(),
        p.len() > 0 && p.last() != '/' ==> segment_start(p) < p.len(),
    decreases p.len(),
{
    if p.len() > 0 && p.last() != '/' {
        lemma_segment_start(p.drop_last());
    }
}

/// The last component of a path, as the last item of `Path::iter` on Unix:
/// separators that repeat or end the path are ignored, a `.` is dropped unless
/// it begins the path, and a path made of separators alone is the root `/`.
/// An empty path has no component.
pub open spec fn last_component(p: Seq<char>) -> Option<Seq<char>>
    decreases p.len(),
{
    if p.len() == 0 {
        None
    } else if p.last() == '/' {
        if p.len() == 1 {
            Some(seq!['/'])
        } else {
            last_component(p.drop_last())
        }
    } else {
        let k = segment_start(p);
        proof {
            lemma_segment_start(p);
        }
        if p.skip(k as int) == seq!['.'] && k > 0 {
            last_component(p.take(k as int))
        } else {
            Some(p.skip(k as int))
        }
    }
}

/// The last component of a path, if it has one.
pub fn last_component_of(path: &str) -> (r: Option<String>)
    ensures
        r matches Some(c) ==> last_component(path@) == Some(c@),
        r is None ==> last_component(path@) is None,
{
    let v = chars_of(path);
    let mut e = v.len();
    assert(v@.take(e as int) == v@);
    loop
        invariant
            e <= v.len(),
            last_component(v@) == last_component(v@.take(e as int)),
            v@ == path@,
        decreases e,
    {
        let ghost p = v@.take(e as int);
        if e == 0 {
            return None;
        }
        if v[e - 1] == '/' {
            if e == 1 {
                let mut root = String::new();
                push_char(&mut root, '/');
                return Some(root);
            }
            assert(p.drop_last() == v@.take(e - 1));
            e = e - 1;
        } else {
            let mut k = e;
            while k > 0 && v[k - 1] != '/'
                invariant
                    k <= e <= v.len(),
                    segment_start(p) == segment_start(v@.take(k as int)),
                    p == v@.take(e as int),
                decreases k,
            {
                assert(v@.take(k as int).drop_last() == v@.take(k - 1));
                k = k - 1;
            }
            assert(segment_start(v@.take(k as int)) == k);
            assert(p.skip(k as int) == v@.subrange(k as int, e as int));
            if e - k == 1 && v[k] == '.' && k > 0 {
                assert(p.skip(k as int) =~= seq!['.']);
                assert(p.take(k as int) == v@.take(k as int));
                e = k;
            } else {
                assert(!(p.skip(k as int) =~= seq!['.'] && k > 0)) by {
                    if p.skip(k as int) =~= seq!['.'] {
                        assert(p.skip(k as int)[0] == v@[k as int]);
                    }
                }
                return Some(string_from_range(&v, k, e));
            }
        }
    }
}

} // verus!
