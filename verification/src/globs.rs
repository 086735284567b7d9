//! The glob pattern matcher of the listing engine: `*` matches within a
//! path segment, `?` one character, `**` across segments. Patterns and
//! paths are compared segment by segment, split on `/` with empty segments
//! dropped, so absolute and relative forms compare naturally.
//!
//! This is the whole pattern language: character classes, alternation and
//! escapes are not part of it, and such characters match only themselves,
//! literally.

use vstd::prelude::*;

verus! {

/// The segments of a path or pattern: split on `/`, empty segments dropped;
/// `cur` carries the segment being read.
pub open spec fn spec_segments_aux(f: Seq<char>, cur: Seq<char>) -> Seq<Seq<char>>
    decreases f.len(),
{
    if f.len() == 0 {
        if cur.len() == 0 {
            Seq::empty()
        } else {
            seq![cur]
        }
    } else if f[0] == '/' {
        (if cur.len() == 0 {
            Seq::<Seq<char>>::empty()
        } else {
            seq![cur]
        }) + spec_segments_aux(f.skip(1), Seq::empty())
    } else {
        spec_segments_aux(f.skip(1), cur.push(f[0]))
    }
}

/// The segments of a path or pattern.
pub open spec fn spec_segments(f: Seq<char>) -> Seq<Seq<char>> {
    spec_segments_aux(f, Seq::empty())
}

/// One segment of a pattern matched against one segment of a path:
/// `*` matches any run of characters, `?` exactly one, anything else itself.
pub open spec fn spec_seg_match(p: Seq<char>, s: Seq<char>) -> bool
    decreases p.len() + s.len(),
{
    if p.len() == 0 {
        s.len() == 0
    } else if p[0] == '*' {
        spec_seg_match(p.skip(1), s) || (s.len() > 0 && spec_seg_match(p, s.skip(1)))
    } else if p[0] == '?' {
        s.len() > 0 && spec_seg_match(p.skip(1), s.skip(1))
    } else {
        s.len() > 0 && p[0] == s[0] && spec_seg_match(p.skip(1), s.skip(1))
    }
}

/// The segment that crosses directory levels.
pub open spec fn spec_is_deep(p: Seq<char>) -> bool {
    p.len() == 2 && p[0] == '*' && p[1] == '*'
}

/// Pattern segments matched against path segments: a `**` segment matches
/// zero or more whole path segments, any other segment exactly one.
pub open spec fn spec_glob_match(ps: Seq<Seq<char>>, ss: Seq<Seq<char>>) -> bool
    decreases ps.len() + ss.len(),
{
    if ps.len() == 0 {
        ss.len() == 0
    } else if spec_is_deep(ps[0]) {
        spec_glob_match(ps.skip(1), ss) || (ss.len() > 0 && spec_glob_match(ps, ss.skip(1)))
    } else {
        ss.len() > 0 && spec_seg_match(ps[0], ss[0]) && spec_glob_match(ps.skip(1), ss.skip(1))
    }
}

/// A whole pattern matched against a whole path.
pub open spec fn spec_path_match(pattern: Seq<char>, path: Seq<char>) -> bool {
    spec_glob_match(spec_segments(pattern), spec_segments(path))
}

/// Splits text into its segments, as vectors of characters.
#[verifier::loop_isolation(false)]
fn segments(f: &str) -> (out: Vec<Vec<char>>)
    ensures
        out.deep_view() == spec_segments(f@),
{
    let len = f.unicode_len();
    let mut out: Vec<Vec<char>> = Vec::new();
    let mut cur: Vec<char> = Vec::new();
    let mut i: usize = 0;
    proof {
        assert(f@.skip(0) =~= f@);
    }
    while i < len
        invariant
            i <= len,
            len == f@.len(),
            out.deep_view() + spec_segments_aux(f@.skip(i as int), cur@) == spec_segments(f@),
        decreases len - i,
    {
        let c = f.get_char(i);
        proof {
            assert(f@.skip(i as int)[0] == f@[i as int]);
            assert(f@.skip(i as int).skip(1) =~= f@.skip(i + 1));
        }
        if c == '/' {
            let ghost rest = spec_segments_aux(f@.skip(i + 1), Seq::<char>::empty());
            if cur.len() > 0 {
                let ghost prev = out.deep_view();
                let ghost curview = cur@;
                out.push(cur);
                cur = Vec::new();
                proof {
                    assert(out.deep_view() =~~= prev + seq![curview]);
                    assert((prev + seq![curview]) + rest =~= prev + (seq![curview] + rest));
                    assert(cur@ =~= Seq::<char>::empty());
                }
            } else {
                proof {
                    assert(Seq::<Seq<char>>::empty() + rest =~= rest);
                    assert(cur@ =~= Seq::<char>::empty());
                }
            }
        } else {
            cur.push(c);
        }
        i = i + 1;
    }
    proof {
        assert(f@.skip(len as int) =~= Seq::<char>::empty());
    }
    if cur.len() > 0 {
        let ghost prev = out.deep_view();
        let ghost curview = cur@;
        out.push(cur);
        proof {
            assert(out.deep_view() =~~= prev + seq![curview]);
        }
    }
    out
}

/// Matches one pattern segment against one path segment, from the given
/// positions on.
fn seg_match_at(p: &Vec<char>, pi: usize, s: &Vec<char>, si: usize) -> (b: bool)
    requires
        pi <= p@.len(),
        si <= s@.len(),
    ensures
        b == spec_seg_match(p@.skip(pi as int), s@.skip(si as int)),
    decreases p@.len() - pi + s@.len() - si,
{
    proof {
        if pi < p@.len() {
            assert(p@.skip(pi as int)[0] == p@[pi as int]);
            assert(p@.skip(pi as int).skip(1) =~= p@.skip(pi + 1));
        }
        if si < s@.len() {
            assert(s@.skip(si as int)[0] == s@[si as int]);
            assert(s@.skip(si as int).skip(1) =~= s@.skip(si + 1));
        }
    }
    if pi == p.len() {
        si == s.len()
    } else if p[pi] == '*' {
        if seg_match_at(p, pi + 1, s, si) {
            true
        } else if si < s.len() {
            seg_match_at(p, pi, s, si + 1)
        } else {
            false
        }
    } else if p[pi] == '?' {
        si < s.len() && seg_match_at(p, pi + 1, s, si + 1)
    } else {
        si < s.len() && p[pi] == s[si] && seg_match_at(p, pi + 1, s, si + 1)
    }
}

/// Matches pattern segments against path segments, from the given
/// positions on.
fn glob_match_at(ps: &Vec<Vec<char>>, pi: usize, ss: &Vec<Vec<char>>, si: usize) -> (b: bool)
    requires
        pi <= ps@.len(),
        si <= ss@.len(),
    ensures
        b == spec_glob_match(ps.deep_view().skip(pi as int), ss.deep_view().skip(si as int)),
    decreases ps@.len() - pi + ss@.len() - si,
{
    proof {
        assert(ps.deep_view().len() == ps@.len());
        assert(ss.deep_view().len() == ss@.len());
        if pi < ps@.len() {
            assert(ps.deep_view().skip(pi as int)[0] == ps.deep_view()[pi as int]);
            assert(ps.deep_view().skip(pi as int).skip(1) =~= ps.deep_view().skip(pi + 1));
        }
        if si < ss@.len() {
            assert(ss.deep_view().skip(si as int)[0] == ss.deep_view()[si as int]);
            assert(ss.deep_view().skip(si as int).skip(1) =~= ss.deep_view().skip(si + 1));
        }
    }
    if pi == ps.len() {
        si == ss.len()
    } else {
        let pseg = &ps[pi];
        proof {
            assert(ps.deep_view()[pi as int] == pseg@);
        }
        let deep = pseg.len() == 2 && pseg[0] == '*' && pseg[1] == '*';
        if deep {
            if glob_match_at(ps, pi + 1, ss, si) {
                true
            } else if si < ss.len() {
                glob_match_at(ps, pi, ss, si + 1)
            } else {
                false
            }
        } else if si < ss.len() {
            proof {
                assert(ss.deep_view()[si as int] == ss@[si as int]@);
                assert(pseg@.skip(0) =~= pseg@);
                assert(ss@[si as int]@.skip(0) =~= ss@[si as int]@);
            }
            seg_match_at(pseg, 0, &ss[si], 0)
                && glob_match_at(ps, pi + 1, ss, si + 1)
        } else {
            false
        }
    }
}

/// Whether the glob pattern matches the path.
pub fn glob_match(pattern: &str, path: &str) -> (b: bool)
    ensures
        b == spec_path_match(pattern@, path@),
{
    let ps = segments(pattern);
    let ss = segments(path);
    proof {
        assert(ps.deep_view().skip(0) =~= ps.deep_view());
        assert(ss.deep_view().skip(0) =~= ss.deep_view());
    }
    glob_match_at(&ps, 0, &ss, 0)
}

} // verus!
