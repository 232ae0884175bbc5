//! Lexical path resolution and the directory-prefix relation.
//!
//! A path is read as a sequence of segments separated by `/`. Empty
//! segments and `.` are dropped, and `..` removes the segment before it
//! (at the root of an absolute path it is dropped). Two paths are compared
//! segment by segment, so `/tmp/in` contains `/tmp/in/a.txt` but not
//! `/tmp/inbox`.

use crate::text::{chars_of, copy_chars, push_char, push_chars, same_chars};
use vstd::prelude::*;

verus! {

/// The segments of `s` between separators, starting with `cur` as the
/// segment read so far.
pub open spec fn split_from(s: Seq<char>, cur: Seq<char>) -> Seq<Seq<char>>
    decreases s.len(),
{
    if s.len() == 0 {
        seq![cur]
    } else if s[0] == '/' {
        seq![cur] + split_from(s.drop_first(), Seq::empty())
    } else {
        split_from(s.drop_first(), cur.push(s[0]))
    }
}

/// The raw segments of `s`, empty ones included.
pub open spec fn segments(s: Seq<char>) -> Seq<Seq<char>> {
    split_from(s, Seq::empty())
}

pub open spec fn is_absolute(s: Seq<char>) -> bool {
    s.len() > 0 && s[0] == '/'
}

pub open spec fn dot() -> Seq<char> {
    seq!['.']
}

pub open spec fn dot_dot() -> Seq<char> {
    seq!['.', '.']
}

/// One segment applied to the components resolved so far.
pub open spec fn step(absolute: bool, acc: Seq<Seq<char>>, seg: Seq<char>) -> Seq<Seq<char>> {
    if seg.len() == 0 || seg == dot() {
        acc
    } else if seg == dot_dot() {
        if acc.len() > 0 && acc.last() != dot_dot() {
            acc.drop_last()
        } else if absolute {
            acc
        } else {
            acc.push(seg)
        }
    } else {
        acc.push(seg)
    }
}

pub open spec fn fold_segments(absolute: bool, segs: Seq<Seq<char>>) -> Seq<Seq<char>>
    decreases segs.len(),
{
    if segs.len() == 0 {
        Seq::empty()
    } else {
        step(absolute, fold_segments(absolute, segs.drop_last()), segs.last())
    }
}

/// The components of `s` once `.`, `..` and repeated separators are resolved.
pub open spec fn components(s: Seq<char>) -> Seq<Seq<char>> {
    fold_segments(is_absolute(s), segments(s))
}

/// `requested` names `granted` itself or something below it.
pub open spec fn path_within(granted: Seq<char>, requested: Seq<char>) -> bool {
    is_absolute(granted) == is_absolute(requested) && components(granted).is_prefix_of(
        components(requested),
    )
}

/// The components joined by separators.
pub open spec fn join(parts: Seq<Seq<char>>) -> Seq<char>
    decreases parts.len(),
{
    if parts.len() == 0 {
        Seq::empty()
    } else if parts.len() == 1 {
        parts[0]
    } else {
        join(parts.drop_last()) + seq!['/'] + parts.last()
    }
}

/// The resolved form of `s`, written out.
pub open spec fn normal_form(s: Seq<char>) -> Seq<char> {
    if is_absolute(s) {
        seq!['/'] + join(components(s))
    } else {
        join(components(s))
    }
}

pub open spec fn views(v: Seq<Vec<char>>) -> Seq<Seq<char>> {
    v.map_values(|c: Vec<char>| c@)
}

proof fn lemma_split_step(s: Seq<char>, i: int, cur: Seq<char>)
    requires
        0 <= i < s.len(),
    ensures
        s[i] == '/' ==> split_from(s.skip(i), cur) == seq![cur] + split_from(
            s.skip(i + 1),
            Seq::empty(),
        ),
        s[i] != '/' ==> split_from(s.skip(i), cur) == split_from(s.skip(i + 1), cur.push(s[i])),
{
    assert(s.skip(i).drop_first() =~= s.skip(i + 1));
}

fn split_segments(s: &Vec<char>) -> (r: Vec<Vec<char>>)
    ensures
        views(r@) == segments(s@),
{
    let mut done: Vec<Vec<char>> = Vec::new();
    let mut cur: Vec<char> = Vec::new();
    assert(s@.skip(0) =~= s@);
    for i in 0..s.len()
        invariant
            segments(s@) == views(done@) + split_from(s@.skip(i as int), cur@),
    {
        proof {
            lemma_split_step(s@, i as int, cur@);
        }
        if s[i] == '/' {
            let seg = copy_chars(&cur);
            proof {
                assert(views(done@.push(seg)) =~= views(done@) + seq![cur@]);
            }
            done.push(seg);
            cur = Vec::new();
            assert(cur@ =~= Seq::<char>::empty());
        } else {
            cur.push(s[i]);
        }
    }
    assert(s@.skip(s.len() as int) =~= Seq::<char>::empty());
    proof {
        assert(views(done@.push(cur)) =~= views(done@) + seq![cur@]);
    }
    done.push(cur);
    done
}

fn is_dot(seg: &Vec<char>) -> (r: bool)
    ensures
        r == (seg@ == dot()),
{
    if seg.len() == 1 && seg[0] == '.' {
        assert(seg@ =~= dot());
        true
    } else {
        false
    }
}

fn is_dot_dot(seg: &Vec<char>) -> (r: bool)
    ensures
        r == (seg@ == dot_dot()),
{
    if seg.len() == 2 && seg[0] == '.' && seg[1] == '.' {
        assert(seg@ =~= dot_dot());
        true
    } else {
        false
    }
}

fn fold_parts(absolute: bool, segs: &Vec<Vec<char>>) -> (r: Vec<Vec<char>>)
    ensures
        views(r@) == fold_segments(absolute, views(segs@)),
{
    let mut acc: Vec<Vec<char>> = Vec::new();
    assert(views(segs@).take(0) =~= Seq::<Seq<char>>::empty());
    for i in 0..segs.len()
        invariant
            views(acc@) == fold_segments(absolute, views(segs@).take(i as int)),
    {
        let ghost before = views(acc@);
        proof {
            let t = views(segs@).take(i + 1);
            assert(t.drop_last() =~= views(segs@).take(i as int));
            assert(t.last() == segs@[i as int]@);
        }
        let seg = &segs[i];
        if seg.len() == 0 || is_dot(seg) {
        } else if is_dot_dot(seg) {
            let n = acc.len();
            if n > 0 && !is_dot_dot(&acc[n - 1]) {
                acc.pop();
                assert(views(acc@) =~= before.drop_last());
            } else if absolute {
            } else {
                let c = copy_chars(seg);
                acc.push(c);
                assert(views(acc@) =~= before.push(seg@));
            }
        } else {
            let c = copy_chars(seg);
            acc.push(c);
            assert(views(acc@) =~= before.push(seg@));
        }
    }
    assert(views(segs@).take(segs.len() as int) =~= views(segs@));
    acc
}

/// The resolved components of `s`, and whether `s` is absolute.
pub fn resolve(s: &str) -> (r: (bool, Vec<Vec<char>>))
    ensures
        r.0 == is_absolute(s@),
        views(r.1@) == components(s@),
{
    let cs = chars_of(s);
    let absolute = cs.len() > 0 && cs[0] == '/';
    let segs = split_segments(&cs);
    let parts = fold_parts(absolute, &segs);
    (absolute, parts)
}

/// Whether `requested` is `granted` or lies below it, after resolution.
pub fn within(granted: &str, requested: &str) -> (r: bool)
    ensures
        r == path_within(granted@, requested@),
{
    let (ga, gp) = resolve(granted);
    let (ra, rp) = resolve(requested);
    if ga != ra || gp.len() > rp.len() {
        return false;
    }
    for i in 0..gp.len()
        invariant
            gp.len() <= rp.len(),
            ga == ra,
            views(gp@) == components(granted@),
            views(rp@) == components(requested@),
            forall|j: int| 0 <= j < i ==> views(gp@)[j] == views(rp@)[j],
    {
        if !same_chars(&gp[i], &rp[i]) {
            assert(views(rp@).subrange(0, gp.len() as int)[i as int] == views(rp@)[i as int]);
            return false;
        }
    }
    assert(views(rp@).subrange(0, gp.len() as int) =~= views(gp@));
    true
}

/// `s` written in resolved form.
pub fn normalize(s: &str) -> (r: String)
    ensures
        r@ == normal_form(s@),
{
    let (absolute, parts) = resolve(s);
    let mut out = String::new();
    if absolute {
        push_char(&mut out, '/');
    }
    let ghost lead = out@;
    let ghost ps = views(parts@);
    for i in 0..parts.len()
        invariant
            ps == views(parts@),
            out@ == lead + join(ps.take(i as int)),
    {
        proof {
            let t = ps.take(i + 1);
            assert(t.drop_last() =~= ps.take(i as int));
            assert(t.last() == ps[i as int]);
        }
        if i > 0 {
            push_char(&mut out, '/');
        } else {
            assert(ps.take(1) =~= seq![ps[0]]);
        }
        push_chars(&mut out, &parts[i]);
        assert(out@ =~= lead + join(ps.take(i + 1)));
    }
    assert(ps.take(parts.len() as int) =~= ps);
    assert(lead =~= if absolute { seq!['/'] } else { Seq::<char>::empty() });
    out
}

/// Every path lies within itself.
pub proof fn lemma_within_reflexive(p: Seq<char>)
    ensures
        path_within(p, p),
{
    assert(components(p).take(components(p).len() as int) =~= components(p));
}

/// A path within `b`, where `b` lies within `a`, lies within `a`.
pub proof fn lemma_within_transitive(a: Seq<char>, b: Seq<char>, c: Seq<char>)
    requires
        path_within(a, b),
        path_within(b, c),
    ensures
        path_within(a, c),
{
    let (ca, cb, cc) = (components(a), components(b), components(c));
    assert(cc.take(ca.len() as int) =~= cb.take(ca.len() as int));
}

} // verus!
