//! The glob listing engine's pure part: which walked files a pattern set
//! selects, and how each match is rendered — relative to the base directory
//! when it lies under it, absolute otherwise (the escape fallback). The
//! filesystem walk itself happens outside; this module decides and renders.

use vstd::prelude::*;
use crate::error::UtilsError;
use crate::globs::{glob_match, spec_path_match};
use crate::marshal::{
    ScriptValue, compute_base_dir, spec_prop_string, spec_effective_base, to_vec_of_strings,
    spec_all_strings, spec_strs_of, str_eq,
};
use crate::meta::FileMeta;
use crate::paths::{
    is_absolute, last_index_of, spec_is_absolute, spec_last_index_of, spec_trim_trailing,
    trim_trailing_seps,
};
use crate::resolver::DirContext;

verus! {

/// The path lies under the base directory: the trimmed base is a whole-
/// segment prefix of it. Under the root base every absolute path qualifies.
pub open spec fn spec_is_under(p: Seq<char>, bt: Seq<char>) -> bool {
    if bt == seq!['/'] {
        spec_is_absolute(p)
    } else {
        p == bt || (p.len() > bt.len() && p.take(bt.len() as int) == bt && p[bt.len() as int]
            == '/')
    }
}

/// The remainder of a path under its base directory.
pub open spec fn spec_rel_to(p: Seq<char>, bt: Seq<char>) -> Seq<char> {
    if bt == seq!['/'] {
        p.skip(1)
    } else if p == bt {
        Seq::empty()
    } else {
        p.skip(bt.len() as int + 1)
    }
}

/// One pattern applied to one walked path: an absolute pattern is matched
/// against the absolute path, a relative one against the path's remainder
/// under the base — so a relative pattern can only select files under it.
pub open spec fn spec_pattern_hits(p: Seq<char>, m: Seq<char>, bt: Seq<char>) -> bool {
    if spec_is_absolute(p) {
        spec_path_match(p, m)
    } else {
        spec_is_under(m, bt) && spec_path_match(p, spec_rel_to(m, bt))
    }
}

/// Some pattern of the set selects the walked path.
pub open spec fn spec_selected(m: Seq<char>, bt: Seq<char>, pats: Seq<Seq<char>>) -> bool {
    exists|i: int| 0 <= i < pats.len() && spec_pattern_hits(pats[i], m, bt)
}

/// How one match is rendered: its absolute form when asked for or when the
/// match lies outside the base directory; its remainder under the base
/// otherwise. A climbing relative form is never produced.
pub open spec fn spec_rendered(m: Seq<char>, bt: Seq<char>, absolute: bool) -> Seq<char> {
    if absolute {
        m
    } else if spec_is_under(m, bt) {
        spec_rel_to(m, bt)
    } else {
        m
    }
}

/// The walked paths the pattern set selects, in walk order.
pub open spec fn spec_sel(w: Seq<Seq<char>>, bt: Seq<char>, pats: Seq<Seq<char>>) -> Seq<Seq<char>>
    decreases w.len(),
{
    if w.len() == 0 {
        Seq::empty()
    } else {
        spec_sel(w.drop_last(), bt, pats) + (if spec_selected(w.last(), bt, pats) {
            seq![w.last()]
        } else {
            Seq::<Seq<char>>::empty()
        })
    }
}

/// The rendered forms of the selected walked paths, in walk order.
pub open spec fn spec_sel_rendered(
    w: Seq<Seq<char>>,
    bt: Seq<char>,
    pats: Seq<Seq<char>>,
    absolute: bool,
) -> Seq<Seq<char>>
    decreases w.len(),
{
    if w.len() == 0 {
        Seq::empty()
    } else {
        spec_sel_rendered(w.drop_last(), bt, pats, absolute) + (if spec_selected(
            w.last(),
            bt,
            pats,
        ) {
            seq![spec_rendered(w.last(), bt, absolute)]
        } else {
            Seq::<Seq<char>>::empty()
        })
    }
}

/// A selected file: the walked absolute path it came from, and its file
/// reference with the rendered path.
pub struct ListEntry {
    /// The walked path, as the walk handed it in.
    pub source: String,
    /// The file reference, with the rendered path.
    pub meta: FileMeta,
}

/// Whether the path lies under the trimmed base.
fn is_under(p: &str, bt: &str) -> (r: bool)
    ensures
        r == spec_is_under(p@, bt@),
{
    let btlen = bt.unicode_len();
    let plen = p.unicode_len();
    if btlen == 1 && bt.get_char(0) == '/' {
        proof {
            assert(bt@ =~= seq!['/']);
        }
        return is_absolute(p);
    }
    proof {
        assert(!(bt@ =~= seq!['/']));
    }
    if plen == btlen {
        str_eq(p, bt)
    } else if plen > btlen {
        let head = p.substring_char(0, btlen);
        proof {
            assert(head@ =~= p@.take(btlen as int));
        }
        str_eq(head, bt) && p.get_char(btlen) == '/'
    } else {
        proof {
            assert(p@.len() != bt@.len() ==> p@ != bt@);
        }
        false
    }
}

/// The remainder of `p` under the trimmed base `bt`.
fn rel_to(p: &str, bt: &str) -> (r: String)
    requires
        spec_is_under(p@, bt@),
    ensures
        r@ == spec_rel_to(p@, bt@),
{
    let btlen = bt.unicode_len();
    let plen = p.unicode_len();
    if btlen == 1 && bt.get_char(0) == '/' {
        proof {
            assert(bt@ =~= seq!['/']);
        }
        let r = p.substring_char(1, plen);
        proof {
            assert(r@ =~= p@.skip(1));
        }
        return r.to_owned();
    }
    proof {
        assert(!(bt@ =~= seq!['/']));
    }
    if plen == btlen {
        proof {
            assert(p@ == bt@);
        }
        String::new()
    } else {
        let r = p.substring_char(btlen + 1, plen);
        proof {
            assert(r@ =~= p@.skip(btlen + 1));
        }
        r.to_owned()
    }
}

/// Whether any pattern selects the walked path.
#[verifier::loop_isolation(false)]
fn selected(m: &str, bt: &str, pats: &Vec<String>) -> (r: bool)
    ensures
        r == spec_selected(m@, bt@, pats.deep_view()),
{
    let under = is_under(m, bt);
    let rel = if under {
        rel_to(m, bt)
    } else {
        String::new()
    };
    let mut i: usize = 0;
    while i < pats.len()
        invariant
            i <= pats@.len(),
            under == spec_is_under(m@, bt@),
            under ==> rel@ == spec_rel_to(m@, bt@),
            forall|k: int|
                0 <= k < i ==> !spec_pattern_hits(pats.deep_view()[k], m@, bt@),
        decreases pats@.len() - i,
    {
        let p = &pats[i];
        proof {
            assert(pats.deep_view()[i as int] == pats@[i as int]@);
        }
        let hit = if is_absolute(p.as_str()) {
            glob_match(p.as_str(), m)
        } else {
            under && glob_match(p.as_str(), rel.as_str())
        };
        if hit {
            proof {
                assert(spec_pattern_hits(pats.deep_view()[i as int], m@, bt@));
            }
            return true;
        }
        i = i + 1;
    }
    false
}

/// Selects and renders the walked files that the pattern set matches,
/// keeping the walk's order. Each entry carries the walked path it came
/// from and a file reference whose path is the rendered form.
#[verifier::loop_isolation(false)]
pub fn select_entries(
    base: &str,
    patterns: &Vec<String>,
    walked: &Vec<String>,
    absolute: bool,
) -> (r: Vec<ListEntry>)
    ensures
        ({
            let bt = spec_trim_trailing(base@);
            let w = walked.deep_view();
            let pats = patterns.deep_view();
            &&& r@.len() == spec_sel(w, bt, pats).len()
            &&& forall|i: int| #![trigger r@[i]]
                0 <= i < r@.len() ==> r@[i].source@ == spec_sel(w, bt, pats)[i]
                    && r@[i].meta.path@ == spec_sel_rendered(w, bt, pats, absolute)[i]
                    && r@[i].meta.wf()
        }),
{
    let bt = trim_trailing_seps(base);
    let ghost btv = bt@;
    let ghost w = walked.deep_view();
    let ghost pats = patterns.deep_view();
    let mut out: Vec<ListEntry> = Vec::new();
    let mut i: usize = 0;
    while i < walked.len()
        invariant
            i <= walked@.len(),
            out@.len() == spec_sel(w.take(i as int), btv, pats).len(),
            spec_sel_rendered(w.take(i as int), btv, pats, absolute).len() == out@.len(),
            forall|k: int| #![trigger out@[k]]
                0 <= k < out@.len() ==> out@[k].source@ == spec_sel(w.take(i as int), btv, pats)[k]
                    && out@[k].meta.path@ == spec_sel_rendered(
                    w.take(i as int),
                    btv,
                    pats,
                    absolute,
                )[k] && out@[k].meta.wf(),
        decreases walked@.len() - i,
    {
        let m = &walked[i];
        proof {
            assert(w[i as int] == walked@[i as int]@);
            assert(w.take(i + 1).drop_last() =~= w.take(i as int));
            assert(w.take(i + 1).last() == w[i as int]);
        }
        if selected(m.as_str(), bt.as_str(), patterns) {
            let rendered = if absolute {
                m.clone()
            } else if is_under(m.as_str(), bt.as_str()) {
                rel_to(m.as_str(), bt.as_str())
            } else {
                m.clone()
            };
            proof {
                assert(rendered@ == spec_rendered(w[i as int], btv, absolute));
                assert(spec_sel(w.take(i + 1), btv, pats) =~= spec_sel(w.take(i as int), btv, pats)
                    + seq![w[i as int]]);
                assert(spec_sel_rendered(w.take(i + 1), btv, pats, absolute) =~= spec_sel_rendered(
                    w.take(i as int),
                    btv,
                    pats,
                    absolute,
                ) + seq![spec_rendered(w[i as int], btv, absolute)]);
            }
            let meta = FileMeta::from_path(rendered);
            let entry = ListEntry { source: m.clone(), meta };
            let ghost prev = out@;
            out.push(entry);
            proof {
                let snew = spec_sel(w.take(i + 1), btv, pats);
                let rnew = spec_sel_rendered(w.take(i + 1), btv, pats, absolute);
                assert(out@ == prev.push(entry));
                assert forall|k: int| #![trigger out@[k]]
                    0 <= k < out@.len() implies out@[k].source@ == snew[k] && out@[k].meta.path@
                    == rnew[k] && out@[k].meta.wf() by {
                    if k < prev.len() {
                        assert(out@[k] == prev[k]);
                        assert(snew[k] == spec_sel(w.take(i as int), btv, pats)[k]);
                        assert(rnew[k] == spec_sel_rendered(w.take(i as int), btv, pats, absolute)[k]);
                    } else {
                        assert(out@[k] == entry);
                    }
                }
            }
        } else {
            proof {
                assert(spec_sel(w.take(i + 1), btv, pats) =~= spec_sel(w.take(i as int), btv, pats));
                assert(spec_sel_rendered(w.take(i + 1), btv, pats, absolute) =~= spec_sel_rendered(
                    w.take(i as int),
                    btv,
                    pats,
                    absolute,
                ));
            }
        }
        proof {
            let snew = spec_sel(w.take(i + 1), btv, pats);
            let rnew = spec_sel_rendered(w.take(i + 1), btv, pats, absolute);
            assert(out@.len() == snew.len());
            assert(rnew.len() == out@.len());
            assert forall|k: int| #![trigger out@[k]]
                0 <= k < out@.len() implies out@[k].source@ == snew[k] && out@[k].meta.path@
                == rnew[k] && out@[k].meta.wf() by {
                assert(out@[k].source@ == spec_sel(w.take(i as int), btv, pats)[k]
                    || out@[k].source@ == snew[k]);
            }
        }
        i = i + 1;
    }
    proof {
        assert(w.take(walked@.len() as int) =~= w);
    }
    out
}

proof fn lemma_sel_first_stable(
    w: Seq<Seq<char>>,
    bt: Seq<char>,
    pats: Seq<Seq<char>>,
    absolute: bool,
    j: int,
)
    requires
        0 <= j <= w.len(),
        spec_sel(w.take(j), bt, pats).len() > 0,
    ensures
        spec_sel(w, bt, pats).len() > 0,
        spec_sel(w, bt, pats)[0] == spec_sel(w.take(j), bt, pats)[0],
        spec_sel_rendered(w, bt, pats, absolute).len() > 0,
        spec_sel_rendered(w, bt, pats, absolute)[0] == spec_sel_rendered(
            w.take(j),
            bt,
            pats,
            absolute,
        )[0],
        spec_sel_rendered(w.take(j), bt, pats, absolute).len() > 0,
    decreases w.len() - j,
{
    assert(spec_sel_rendered(w.take(j), bt, pats, absolute).len() == spec_sel(
        w.take(j),
        bt,
        pats,
    ).len()) by {
        lemma_sel_lens_equal(w.take(j), bt, pats, absolute);
    }
    if j < w.len() {
        assert(w.take(j + 1).drop_last() =~= w.take(j));
        assert(w.take(j + 1).last() == w[j]);
        lemma_sel_first_stable(w, bt, pats, absolute, j + 1);
    } else {
        assert(w.take(j) =~= w);
    }
}

proof fn lemma_sel_lens_equal(w: Seq<Seq<char>>, bt: Seq<char>, pats: Seq<Seq<char>>, absolute: bool)
    ensures
        spec_sel_rendered(w, bt, pats, absolute).len() == spec_sel(w, bt, pats).len(),
    decreases w.len(),
{
    if w.len() > 0 {
        lemma_sel_lens_equal(w.drop_last(), bt, pats, absolute);
    }
}

/// Returns the first file the pattern set selects, in walk order, or `None`
/// when nothing matches. Only the first match is examined.
#[verifier::loop_isolation(false)]
pub fn first_entry(
    base: &str,
    patterns: &Vec<String>,
    walked: &Vec<String>,
    absolute: bool,
) -> (r: Option<ListEntry>)
    ensures
        ({
            let bt = spec_trim_trailing(base@);
            let w = walked.deep_view();
            let pats = patterns.deep_view();
            match r {
                Some(e) => spec_sel(w, bt, pats).len() > 0 && e.source@ == spec_sel(w, bt, pats)[0]
                    && e.meta.path@ == spec_sel_rendered(w, bt, pats, absolute)[0] && e.meta.wf(),
                None => spec_sel(w, bt, pats).len() == 0,
            }
        }),
{
    let bt = trim_trailing_seps(base);
    let ghost btv = bt@;
    let ghost w = walked.deep_view();
    let ghost pats = patterns.deep_view();
    let mut i: usize = 0;
    while i < walked.len()
        invariant
            i <= walked@.len(),
            spec_sel(w.take(i as int), btv, pats).len() == 0,
        decreases walked@.len() - i,
    {
        let m = &walked[i];
        proof {
            assert(w[i as int] == walked@[i as int]@);
            assert(w.take(i + 1).drop_last() =~= w.take(i as int));
            assert(w.take(i + 1).last() == w[i as int]);
        }
        if selected(m.as_str(), bt.as_str(), patterns) {
            let rendered = if absolute {
                m.clone()
            } else if is_under(m.as_str(), bt.as_str()) {
                rel_to(m.as_str(), bt.as_str())
            } else {
                m.clone()
            };
            proof {
                assert(rendered@ == spec_rendered(w[i as int], btv, absolute));
                assert(spec_sel(w.take(i as int), btv, pats) =~= Seq::<Seq<char>>::empty());
                lemma_sel_lens_equal(w.take(i as int), btv, pats, absolute);
                assert(spec_sel_rendered(w.take(i as int), btv, pats, absolute)
                    =~= Seq::<Seq<char>>::empty());
                assert(spec_sel(w.take(i + 1), btv, pats) =~= Seq::<Seq<char>>::empty()
                    + seq![w[i as int]]);
                assert(spec_sel(w.take(i + 1), btv, pats)[0] == w[i as int]);
                assert(spec_sel_rendered(w.take(i + 1), btv, pats, absolute)
                    =~= Seq::<Seq<char>>::empty() + seq![spec_rendered(w[i as int], btv, absolute)]);
                assert(spec_sel_rendered(w.take(i + 1), btv, pats, absolute)[0] == spec_rendered(
                    w[i as int],
                    btv,
                    absolute,
                ));
                lemma_sel_first_stable(w, btv, pats, absolute, i + 1);
            }
            let meta = FileMeta::from_path(rendered);
            return Some(ListEntry { source: m.clone(), meta });
        }
        proof {
            assert(spec_sel(w.take(i + 1), btv, pats) =~= spec_sel(w.take(i as int), btv, pats));
        }
        i = i + 1;
    }
    proof {
        assert(w.take(walked@.len() as int) =~= w);
    }
    None
}

/// The index of the first wildcard character in a pattern, or its length
/// when it has none.
pub open spec fn spec_first_wild(p: Seq<char>) -> int
    decreases p.len(),
{
    if p.len() == 0 {
        0
    } else if p[0] == '*' || p[0] == '?' {
        0
    } else {
        1 + spec_first_wild(p.skip(1))
    }
}

/// The wildcard-free directory prefix of a pattern: what stands before the
/// last separator ahead of the first wildcard — the root a walk must cover
/// so the pattern can see its files. A pattern whose wildcard-free part has
/// no separator is its own prefix; a leading separator alone keeps the
/// root.
pub open spec fn spec_static_prefix(p: Seq<char>) -> Seq<char> {
    let w = spec_first_wild(p);
    let j = spec_last_index_of(p.take(w), '/');
    if j < 0 {
        p
    } else if j == 0 {
        seq!['/']
    } else {
        p.take(j)
    }
}

/// The wildcard-free directory prefix of a pattern.
#[verifier::loop_isolation(false)]
pub fn static_prefix(pattern: &str) -> (r: String)
    ensures
        r@ == spec_static_prefix(pattern@),
{
    let len = pattern.unicode_len();
    let mut w: usize = 0;
    proof {
        assert(pattern@.skip(0) =~= pattern@);
    }
    while w < len && pattern.get_char(w) != '*' && pattern.get_char(w) != '?'
        invariant
            w <= len,
            len == pattern@.len(),
            spec_first_wild(pattern@) == w + spec_first_wild(pattern@.skip(w as int)),
        decreases len - w,
    {
        proof {
            assert(pattern@.skip(w as int)[0] == pattern@[w as int]);
            assert(pattern@.skip(w as int).skip(1) =~= pattern@.skip(w + 1));
        }
        w = w + 1;
    }
    proof {
        if w < len {
            assert(pattern@.skip(w as int)[0] == pattern@[w as int]);
        } else {
            assert(pattern@.skip(w as int) =~= Seq::<char>::empty());
        }
        assert(spec_first_wild(pattern@) == w);
    }
    let head = pattern.substring_char(0, w);
    proof {
        assert(head@ =~= pattern@.take(w as int));
    }
    let j = last_index_of(head, '/');
    if j == w {
        pattern.to_owned()
    } else if j == 0 {
        proof {
            reveal_strlit("/");
            assert("/"@ =~= seq!['/']);
        }
        String::from_str("/")
    } else {
        let r = pattern.substring_char(0, j);
        proof {
            assert(r@ =~= pattern@.take(j as int));
        }
        r.to_owned()
    }
}

/// Marshals a listing call's arguments: the globs as one or more strings,
/// and the effective base directory from the options.
pub fn base_dir_and_globs(
    ctx: &DirContext,
    include_globs: &ScriptValue,
    options: Option<&ScriptValue>,
) -> (r: Result<(String, Vec<String>), UtilsError>)
    ensures
        r is Ok <==> ((include_globs is Str || (include_globs matches ScriptValue::List(items)
            && spec_all_strings(items@))) && (match options {
            None => true,
            Some(v) => spec_prop_string(*v, "base_dir"@) is Ok,
        })),
        ({
            let wks = ctx.spec_base(crate::resolver::PathResolver::WorkspaceDir);
            match r {
                Ok(pair) => {
                    &&& include_globs matches ScriptValue::Str(s) ==> pair.1.deep_view()
                        == seq![s@]
                    &&& include_globs matches ScriptValue::List(items) ==> (spec_all_strings(
                        items@,
                    ) && pair.1.deep_view() == spec_strs_of(items@))
                    &&& match options {
                        None => pair.0@ == wks,
                        Some(v) => spec_prop_string(*v, "base_dir"@) matches Ok(o) && pair.0@
                            == spec_effective_base(wks, o),
                    }
                    &&& ctx.wf() ==> spec_is_absolute(pair.0@)
                },
                Err(e) => !(include_globs is Str || (include_globs
                    matches ScriptValue::List(items) && spec_all_strings(items@))) || (options
                    matches Some(v) && spec_prop_string(*v, "base_dir"@) is Err),
            }
        }),
{
    let globs = match to_vec_of_strings(include_globs, "utils.file list globs argument") {
        Ok(g) => g,
        Err(e) => {
            return Err(e);
        },
    };
    let base_dir = match compute_base_dir(ctx, options, "utils.file list options") {
        Ok(b) => b,
        Err(e) => {
            return Err(e);
        },
    };
    Ok((base_dir, globs))
}

} // verus!
