//! The laws this core keeps, stated over the spec functions its contracts
//! use and proved once for all inputs.

use vstd::prelude::*;
use crate::fileops::{spec_ensure_exists_next, spec_ensure_exists_writes, spec_is_blank};
use crate::listing::{spec_is_under, spec_rel_to, spec_rendered};
use crate::paths::{
    spec_is_absolute, spec_join_verbatim, spec_last_index_of, spec_last_sep, spec_push_frag,
    spec_split, spec_trim_trailing,
};

verus! {

/// Text with no native separator in it.
pub open spec fn spec_sep_free(s: Seq<char>) -> bool {
    forall|j: int| 0 <= j < s.len() ==> s[j] != '/'
}

/// A sequence of simple segments: each non-empty and separator-free.
pub open spec fn spec_simple_segs(segs: Seq<Seq<char>>) -> bool {
    forall|i: int| #![trigger segs[i]]
        0 <= i < segs.len() ==> segs[i].len() > 0 && spec_sep_free(segs[i])
}

proof fn lemma_no_sep_no_last(s: Seq<char>)
    requires
        spec_sep_free(s),
    ensures
        spec_last_sep(s) == -1,
    decreases s.len(),
{
    if s.len() > 0 {
        assert(spec_sep_free(s.drop_last()));
        lemma_no_sep_no_last(s.drop_last());
    }
}

proof fn lemma_join_simple_shape(segs: Seq<Seq<char>>)
    requires
        segs.len() >= 1,
        spec_simple_segs(segs),
    ensures
        spec_join_verbatim(segs).len() > 0,
        spec_join_verbatim(segs).last() != '/',
    decreases segs.len(),
{
    let last = segs.last();
    assert(last == segs[segs.len() - 1]);
    if segs.len() == 1 {
        assert(spec_join_verbatim(segs.drop_last()) == Seq::<char>::empty());
        assert(spec_join_verbatim(segs) == last);
        assert(last.last() != '/');
    } else {
        assert(spec_simple_segs(segs.drop_last())) by {
            assert forall|i: int| #![trigger segs.drop_last()[i]]
                0 <= i < segs.drop_last().len() implies segs.drop_last()[i].len() > 0
                && spec_sep_free(segs.drop_last()[i]) by {
                assert(segs.drop_last()[i] == segs[i]);
            }
        }
        lemma_join_simple_shape(segs.drop_last());
        let p = spec_join_verbatim(segs.drop_last());
        assert(last[0] != '/');
        if p.last() == '/' {
            assert(false);
        }
        assert(spec_join_verbatim(segs) == p.push('/') + last);
        assert((p.push('/') + last).last() == last.last());
        assert(last.last() != '/');
    }
}

/// Law: join/split round trip. For any non-empty sequence of simple
/// (separator-free, non-empty) segments, splitting the verbatim join gives
/// back the join of all but the last segment as the parent, and the last
/// segment as the filename.
pub proof fn lemma_join_split_round_trip(segs: Seq<Seq<char>>)
    requires
        segs.len() >= 1,
        spec_simple_segs(segs),
    ensures
        spec_split(spec_join_verbatim(segs)) == (
            spec_join_verbatim(segs.drop_last()),
            segs.last(),
        ),
{
    let last = segs.last();
    assert(last == segs[segs.len() - 1]);
    if segs.len() == 1 {
        let j = spec_join_verbatim(segs);
        assert(spec_join_verbatim(segs.drop_last()) == Seq::<char>::empty());
        assert(j == last);
        assert(j.last() != '/');
        assert(spec_trim_trailing(j) == j);
        lemma_no_sep_no_last(j);
        assert(!(j =~= seq!['/'])) by {
            assert(j[0] != '/');
        }
        assert(spec_split(j) == (Seq::<char>::empty(), j));
    } else {
        assert(spec_simple_segs(segs.drop_last())) by {
            assert forall|i: int| #![trigger segs.drop_last()[i]]
                0 <= i < segs.drop_last().len() implies segs.drop_last()[i].len() > 0
                && spec_sep_free(segs.drop_last()[i]) by {
                assert(segs.drop_last()[i] == segs[i]);
            }
        }
        lemma_join_simple_shape(segs.drop_last());
        let p = spec_join_verbatim(segs.drop_last());
        let j = spec_join_verbatim(segs);
        assert(last[0] != '/');
        assert(j == p.push('/') + last);
        assert(j.len() == p.len() as int + 1 + last.len());
        assert(j.last() == last.last());
        assert(j.last() != '/');
        assert(spec_trim_trailing(j) == j);
        assert(!(j =~= seq!['/'])) by {
            assert(j.len() >= 3);
        }
        // the inserted separator is the last one: everything after it is
        // a separator-free segment
        assert(j[p.len() as int] == '/');
        assert(forall|i: int| p.len() as int + 1 <= i < j.len() ==> j[i] == last[i - p.len() - 1]);
        assert(forall|i: int| p.len() as int + 1 <= i < j.len() ==> j[i] != '/');
        assert(spec_last_sep(j) == spec_last_index_of(j.take(p.len() as int + 1), '/')) by {
            crate::paths::lemma_last_index_take(j, '/', p.len() as int + 1);
        }
        assert(j.take(p.len() as int + 1).last() == '/');
        assert(spec_last_index_of(j.take(p.len() as int + 1), '/') == p.len());
        assert(spec_last_sep(j) == p.len());
        assert(j.subrange(0, p.len() as int) =~= p);
        assert(spec_trim_trailing(p) == p);
        assert(j.skip(p.len() as int + 1) =~= last);
        assert(spec_split(j) == (p, last));
    }
}

/// Law: the listing never renders a match that lies outside the base
/// directory as a climbing relative path — it falls back to the absolute
/// form of the match.
///
/// The one assumption is that the match is absolute, which holds of every
/// path a filesystem walk hands in.
pub proof fn lemma_escape_fallback(m: Seq<char>, bt: Seq<char>, absolute: bool)
    requires
        spec_is_absolute(m),
        !spec_is_under(m, bt),
    ensures
        spec_rendered(m, bt, absolute) == m,
        spec_is_absolute(spec_rendered(m, bt, absolute)),
{
}

proof fn lemma_trim_len(s: Seq<char>)
    ensures
        spec_trim_trailing(s).len() <= s.len(),
    decreases s.len(),
{
    if s.len() >= 2 && s.last() == '/' {
        lemma_trim_len(s.drop_last());
    }
}

/// Law: listing containment. A match that lies under the base directory is
/// rendered relative, and composing the base with that relative form gives
/// back exactly the matched absolute path.
///
/// The assumptions are shape conditions that hold of every real walk: the
/// base is absolute and carries no trailing separator (the engine trims it
/// first), and the match's remainder starts with a proper segment, not
/// another separator.
pub proof fn lemma_listing_containment(m: Seq<char>, bt: Seq<char>)
    requires
        spec_is_absolute(bt),
        spec_trim_trailing(bt) == bt,
        spec_is_under(m, bt),
        m == bt || (spec_rel_to(m, bt).len() > 0 && spec_rel_to(m, bt)[0] != '/'),
    ensures
        spec_rendered(m, bt, false) == spec_rel_to(m, bt),
        spec_push_frag(bt, spec_rel_to(m, bt)) == m,
{
    let rel = spec_rel_to(m, bt);
    if bt =~= seq!['/'] {
        assert(rel == m.skip(1));
        if rel.len() == 0 {
            assert(m =~= bt);
            assert(spec_push_frag(bt, rel) == bt);
        } else {
            assert(spec_push_frag(bt, rel) == bt + rel);
            assert(bt + rel =~= m);
        }
    } else {
        if m == bt {
            assert(rel == Seq::<char>::empty());
            assert(spec_push_frag(bt, rel) == bt);
        } else {
            assert(m.len() > bt.len() && m.take(bt.len() as int) == bt && m[bt.len() as int]
                == '/');
            assert(rel == m.skip(bt.len() as int + 1));
            assert(rel.len() > 0);
            assert(bt.len() > 0);
            // a trimmed, non-root base does not end with a separator
            if bt.last() == '/' {
                assert(bt.len() >= 2) by {
                    if bt.len() == 1 {
                        assert(bt =~= seq!['/']);
                    }
                }
                assert(spec_trim_trailing(bt) == spec_trim_trailing(bt.drop_last()));
                lemma_trim_len(bt.drop_last());
                assert(false);
            }
            assert(spec_push_frag(bt, rel) == bt.push('/') + rel);
            assert(bt.push('/') + rel =~= m);
        }
    }
}

/// Law: `ensure_exists` is idempotent. Once a call has run with
/// `content_when_empty` off, a second call with the flag off neither
/// changes the file nor writes at all, whatever content it carries.
pub proof fn lemma_ensure_exists_idempotent(
    prior: Option<Seq<char>>,
    c1: Seq<char>,
    c2: Seq<char>,
)
    ensures
        spec_ensure_exists_next(Some(spec_ensure_exists_next(prior, c1, false)), c2, false)
            == spec_ensure_exists_next(prior, c1, false),
        !spec_ensure_exists_writes(Some(spec_ensure_exists_next(prior, c1, false)), false),
{
}

/// Law: `content_when_empty` semantics. An existing file that holds only
/// whitespace is overwritten when the flag is set; a file with any
/// non-whitespace content is left untouched, flag or no flag.
pub proof fn lemma_content_when_empty(t: Seq<char>, c: Seq<char>)
    ensures
        spec_is_blank(t) ==> spec_ensure_exists_next(Some(t), c, true) == c,
        !spec_is_blank(t) ==> forall|flag: bool|
            spec_ensure_exists_next(Some(t), c, flag) == t,
{
}

} // verus!
