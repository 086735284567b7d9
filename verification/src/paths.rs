//! The dual-mode path join/split engine.
//!
//! Pure string logic: nothing here touches the filesystem. Paths are treated
//! as text; `.` and `..` are ordinary segments and are never resolved. The
//! native separator is `/`; the OS-normalized join additionally understands
//! `\` so that scripts can build Windows-shaped paths deterministically.

use vstd::prelude::*;

verus! {

/// Relies on `String::push` of std: appends the given character to the end
/// of the string.
pub assume_specification[ String::push ](s: &mut String, c: char)
    ensures
        final(s)@ == old(s)@.push(c),
;

/// A character that the OS-normalized join treats as a separator.
pub open spec fn spec_is_any_sep(c: char) -> bool {
    c == '/' || c == '\\'
}

/// A path is absolute when it starts with the native separator.
pub open spec fn spec_is_absolute(p: Seq<char>) -> bool {
    p.len() > 0 && p[0] == '/'
}

/// Whether the given path text is absolute on the host.
pub fn is_absolute(p: &str) -> (r: bool)
    ensures
        r == spec_is_absolute(p@),
{
    let n = p.unicode_len();
    n > 0 && p.get_char(0) == '/'
}

/// The path with its trailing separators removed; a run of separators alone
/// is kept as the single root separator.
pub open spec fn spec_trim_trailing(s: Seq<char>) -> Seq<char>
    decreases s.len(),
{
    if s.len() >= 2 && s.last() == '/' {
        spec_trim_trailing(s.drop_last())
    } else {
        s
    }
}

/// Removes trailing native separators, keeping a lone root separator.
pub fn trim_trailing_seps(s: &str) -> (r: String)
    ensures
        r@ == spec_trim_trailing(s@),
{
    let len = s.unicode_len();
    let mut n: usize = len;
    proof {
        assert(s@.take(len as int) =~= s@);
    }
    while n >= 2 && s.get_char(n - 1) == '/'
        invariant
            n <= len,
            len == s@.len(),
            n >= 1 || len == 0,
            spec_trim_trailing(s@) == spec_trim_trailing(s@.take(n as int)),
        decreases n,
    {
        proof {
            let t = s@.take(n as int);
            assert(t.last() == '/');
            assert(t.drop_last() =~= s@.take(n - 1));
        }
        n = n - 1;
    }
    let r = s.substring_char(0, n);
    proof {
        let t = s@.take(n as int);
        if !(t.len() >= 2 && t.last() == '/') {
            assert(spec_trim_trailing(t) == t);
        } else {
            assert(n >= 2 && s@[n - 1] == '/');
            assert(false);
        }
        assert(r@ =~= t);
    }
    r.to_owned()
}

/// The index of the last native separator in the path, or `-1` if none.
pub open spec fn spec_last_sep(s: Seq<char>) -> int
    decreases s.len(),
{
    spec_last_index_of(s, '/')
}

/// The index of the last occurrence of `c` in `s`, or `-1` if none.
pub open spec fn spec_last_index_of(s: Seq<char>, c: char) -> int
    decreases s.len(),
{
    if s.len() == 0 {
        -1
    } else if s.last() == c {
        s.len() - 1
    } else {
        spec_last_index_of(s.drop_last(), c)
    }
}

proof fn lemma_last_index_props(s: Seq<char>, c: char)
    ensures
        -1 <= spec_last_index_of(s, c) < s.len(),
        spec_last_index_of(s, c) >= 0 ==> s[spec_last_index_of(s, c)] == c,
        forall|i: int| spec_last_index_of(s, c) < i < s.len() ==> s[i] != c,
    decreases s.len(),
{
    if s.len() > 0 && s.last() != c {
        lemma_last_index_props(s.drop_last(), c);
        assert forall|i: int| spec_last_index_of(s, c) < i < s.len() implies s[i] != c by {
            if i < s.len() - 1 {
                assert(s.drop_last()[i] == s[i]);
            }
        }
    }
}

proof fn lemma_last_sep_props(s: Seq<char>)
    ensures
        -1 <= spec_last_sep(s) < s.len(),
        spec_last_sep(s) >= 0 ==> s[spec_last_sep(s)] == '/',
        forall|i: int| spec_last_sep(s) < i < s.len() ==> s[i] != '/',
{
    lemma_last_index_props(s, '/');
}

pub proof fn lemma_last_index_take(s: Seq<char>, c: char, n: int)
    requires
        0 <= n <= s.len(),
        forall|i: int| n <= i < s.len() ==> s[i] != c,
    ensures
        spec_last_index_of(s, c) == spec_last_index_of(s.take(n), c),
    decreases s.len(),
{
    if s.len() > n {
        assert(s.last() != c);
        assert(s.drop_last() =~= s.take(s.len() - 1));
        lemma_last_index_take(s.drop_last(), c, n);
        assert(s.drop_last().take(n) =~= s.take(n));
    } else {
        assert(s.take(n) =~= s);
    }
}

/// The index of the last occurrence of `c`, as an exec search.
/// Returns the text's length when there is none.
pub fn last_index_of(s: &str, c: char) -> (r: usize)
    ensures
        r <= s@.len(),
        r < s@.len() ==> r == spec_last_index_of(s@, c),
        r == s@.len() ==> spec_last_index_of(s@, c) == -1,
{
    let len = s.unicode_len();
    let mut n: usize = len;
    while n >= 1 && s.get_char(n - 1) != c
        invariant
            n <= len,
            len == s@.len(),
            forall|i: int| n <= i < s@.len() ==> s@[i] != c,
        decreases n,
    {
        n = n - 1;
    }
    proof {
        lemma_last_index_take(s@, c, n as int);
        if n >= 1 {
            assert(s@.take(n as int).last() == c);
        }
    }
    if n == 0 {
        len
    } else {
        n - 1
    }
}

/// The index of the last native separator, as an exec search.
/// Returns the path's length when there is none.
pub fn last_sep_index(s: &str) -> (r: usize)
    ensures
        r <= s@.len(),
        r < s@.len() ==> r == spec_last_sep(s@),
        r == s@.len() ==> spec_last_sep(s@) == -1,
{
    last_index_of(s, '/')
}

/// The parent part of a split: what stands before the last segment, with its
/// own trailing separators removed; a rooted path whose parent would vanish
/// keeps the root.
pub open spec fn spec_parent_of_trimmed(t: Seq<char>) -> Seq<char> {
    let j = spec_last_sep(t);
    if j < 0 {
        Seq::empty()
    } else {
        let par = spec_trim_trailing(t.subrange(0, j));
        if par.len() == 0 {
            seq!['/']
        } else {
            par
        }
    }
}

/// Splits a path into `(parent, filename)`: the filename is the last path
/// segment, the parent everything before it (empty if none). Trailing
/// separators are removed first; `.` and `..` are ordinary segments.
pub open spec fn spec_split(p: Seq<char>) -> (Seq<char>, Seq<char>) {
    let t = spec_trim_trailing(p);
    let j = spec_last_sep(t);
    if t =~= seq!['/'] {
        (Seq::empty(), Seq::empty())
    } else if j < 0 {
        (Seq::empty(), t)
    } else {
        (spec_parent_of_trimmed(t), t.skip(j + 1))
    }
}

/// Splits the path into its parent and filename parts.
pub fn path_split(p: &str) -> (r: (String, String))
    ensures
        (r.0@, r.1@) == spec_split(p@),
{
    let t = trim_trailing_seps(p);
    let tl = t.unicode_len();
    if tl == 1 && t.as_str().get_char(0) == '/' {
        proof {
            assert(t@ =~= seq!['/']);
        }
        return (String::new(), String::new());
    }
    proof {
        assert(!(t@ =~= seq!['/']));
    }
    let j = last_sep_index(t.as_str());
    if j == tl {
        return (String::new(), t);
    }
    proof {
        lemma_last_sep_props(t@);
    }
    let name = t.as_str().substring_char(j + 1, tl);
    let rawpar = t.as_str().substring_char(0, j);
    let par = trim_trailing_seps(rawpar);
    proof {
        assert(name@ =~= t@.skip(j + 1));
        assert(rawpar@ =~= t@.subrange(0, j as int));
    }
    if par.as_str().unicode_len() == 0 {
        proof {
            reveal_strlit("/");
            assert("/"@ =~= seq!['/']);
        }
        (String::from_str("/"), name.to_owned())
    } else {
        (par, name.to_owned())
    }
}

/// The parent of a path, as the host's `parent of a path` notion works here:
/// trailing separators are dropped, then the last segment; `None` for the
/// empty path and for the root.
pub open spec fn spec_parent(p: Seq<char>) -> Option<Seq<char>> {
    if p.len() == 0 {
        None
    } else {
        let t = spec_trim_trailing(p);
        if t =~= seq!['/'] {
            None
        } else {
            let j = spec_last_sep(t);
            if j < 0 {
                Some(Seq::empty())
            } else {
                Some(spec_parent_of_trimmed(t))
            }
        }
    }
}

/// Returns the parent directory of the path, or `None` when it has none.
pub fn path_parent(p: &str) -> (r: Option<String>)
    ensures
        match r {
            Some(s) => spec_parent(p@) == Some(s@),
            None => spec_parent(p@) is None,
        },
{
    if p.unicode_len() == 0 {
        return None;
    }
    let t = trim_trailing_seps(p);
    let tl = t.unicode_len();
    if tl == 1 && t.as_str().get_char(0) == '/' {
        proof {
            assert(t@ =~= seq!['/']);
        }
        return None;
    }
    proof {
        assert(!(t@ =~= seq!['/']));
    }
    let j = last_sep_index(t.as_str());
    if j == tl {
        return Some(String::new());
    }
    proof {
        lemma_last_sep_props(t@);
    }
    let rawpar = t.as_str().substring_char(0, j);
    let par = trim_trailing_seps(rawpar);
    proof {
        assert(rawpar@ =~= t@.subrange(0, j as int));
    }
    if par.as_str().unicode_len() == 0 {
        proof {
            reveal_strlit("/");
            assert("/"@ =~= seq!['/']);
        }
        Some(String::from_str("/"))
    } else {
        Some(par)
    }
}

/// One step of the verbatim join: how a fragment lands on what was joined so
/// far. Empty fragments are skipped, an absolute fragment replaces what came
/// before, and a separator is inserted only when needed.
pub open spec fn spec_push_frag(acc: Seq<char>, f: Seq<char>) -> Seq<char> {
    if f.len() == 0 {
        acc
    } else if f[0] == '/' {
        f
    } else if acc.len() == 0 {
        f
    } else if acc.last() == '/' {
        acc + f
    } else {
        acc.push('/') + f
    }
}

/// One step of the verbatim join, on path text.
pub fn push_frag(acc: &str, f: &str) -> (r: String)
    ensures
        r@ == spec_push_frag(acc@, f@),
{
    let flen = f.unicode_len();
    let alen = acc.unicode_len();
    if flen == 0 {
        acc.to_owned()
    } else if f.get_char(0) == '/' {
        f.to_owned()
    } else if alen == 0 {
        f.to_owned()
    } else if acc.get_char(alen - 1) == '/' {
        let mut r = acc.to_owned();
        r.append(f);
        r
    } else {
        proof {
            reveal_strlit("/");
        }
        let mut r = acc.to_owned();
        r.append("/");
        r.append(f);
        proof {
            assert(r@ =~= acc@.push('/') + f@);
        }
        r
    }
}

/// The verbatim join: fragments are appended with the host's native
/// composition, the separators the caller wrote left untouched.
pub open spec fn spec_join_verbatim(frags: Seq<Seq<char>>) -> Seq<char>
    decreases frags.len(),
{
    if frags.len() == 0 {
        Seq::empty()
    } else {
        spec_push_frag(spec_join_verbatim(frags.drop_last()), frags.last())
    }
}

/// Joins path fragments verbatim. Zero fragments give `None`; fragments that
/// are all empty give the empty string.
pub fn path_join_non_os_normalized(frags: &Vec<String>) -> (r: Option<String>)
    ensures
        r is None <==> frags@.len() == 0,
        r matches Some(s) ==> s@ == spec_join_verbatim(frags.deep_view()),
{
    if frags.len() == 0 {
        return None;
    }
    let mut acc = String::new();
    let mut i: usize = 0;
    while i < frags.len()
        invariant
            i <= frags@.len(),
            acc@ == spec_join_verbatim(frags.deep_view().take(i as int)),
        decreases frags@.len() - i,
    {
        let f = &frags[i];
        let flen = f.as_str().unicode_len();
        let alen = acc.as_str().unicode_len();
        if flen > 0 {
            if f.as_str().get_char(0) == '/' {
                acc = f.clone();
            } else if alen == 0 {
                acc = f.clone();
            } else if acc.as_str().get_char(alen - 1) == '/' {
                acc.append(f.as_str());
            } else {
                proof {
                    reveal_strlit("/");
                }
                acc.append("/");
                acc.append(f.as_str());
            }
        }
        proof {
            let dv = frags.deep_view();
            assert(dv.take(i + 1).drop_last() =~= dv.take(i as int));
            assert(dv.take(i + 1).last() == dv[i as int]);
            assert(dv[i as int] == f@);
        }
        i = i + 1;
    }
    proof {
        assert(frags.deep_view().take(frags@.len() as int) =~= frags.deep_view());
    }
    Some(acc)
}

/// The path components of one fragment: split on `/` and on `\`, empty
/// components dropped. `cur` carries the segment being read.
pub open spec fn spec_components_aux(f: Seq<char>, cur: Seq<char>) -> Seq<Seq<char>>
    decreases f.len(),
{
    if f.len() == 0 {
        if cur.len() == 0 {
            Seq::empty()
        } else {
            seq![cur]
        }
    } else if spec_is_any_sep(f[0]) {
        (if cur.len() == 0 {
            Seq::<Seq<char>>::empty()
        } else {
            seq![cur]
        }) + spec_components_aux(f.skip(1), Seq::empty())
    } else {
        spec_components_aux(f.skip(1), cur.push(f[0]))
    }
}

/// The path components of one fragment.
pub open spec fn spec_components(f: Seq<char>) -> Seq<Seq<char>> {
    spec_components_aux(f, Seq::empty())
}

/// The components of all fragments in order.
pub open spec fn spec_all_components(frags: Seq<Seq<char>>) -> Seq<Seq<char>>
    decreases frags.len(),
{
    if frags.len() == 0 {
        Seq::empty()
    } else {
        spec_all_components(frags.drop_last()) + spec_components(frags.last())
    }
}

/// Appends the components of `f` to `out`.
#[verifier::loop_isolation(false)]
fn append_components(f: &str, out: &mut Vec<String>)
    ensures
        final(out).deep_view() == old(out).deep_view() + spec_components(f@),
{
    let len = f.unicode_len();
    let mut cur = String::new();
    let mut i: usize = 0;
    proof {
        assert(f@.skip(0) =~= f@);
    }
    while i < len
        invariant
            i <= len,
            len == f@.len(),
            out.deep_view() + spec_components_aux(f@.skip(i as int), cur@) == old(
                out,
            ).deep_view() + spec_components(f@),
        decreases len - i,
    {
        let c = f.get_char(i);
        proof {
            assert(f@.skip(i as int)[0] == f@[i as int]);
            assert(f@.skip(i as int).skip(1) =~= f@.skip(i + 1));
        }
        if c == '/' || c == '\\' {
            let ghost rest = spec_components_aux(f@.skip(i + 1), Seq::<char>::empty());
            if cur.as_str().unicode_len() > 0 {
                let ghost prev = out.deep_view();
                let ghost curview = cur@;
                out.push(cur);
                cur = String::new();
                proof {
                    assert(out.deep_view() =~= prev + seq![curview]);
                    assert((prev + seq![curview]) + rest =~= prev + (seq![curview] + rest));
                    assert(spec_components_aux(f@.skip(i as int), curview) == seq![curview]
                        + rest);
                    assert(cur@ =~= Seq::<char>::empty());
                    assert(spec_components_aux(f@.skip(i + 1), cur@) == rest);
                }
            } else {
                proof {
                    assert(Seq::<Seq<char>>::empty() + rest =~= rest);
                    assert(cur@ =~= Seq::<char>::empty());
                    assert(spec_components_aux(f@.skip(i as int), cur@) == rest);
                }
            }
        } else {
            let ghost pcur = cur@;
            cur.push(c);
            proof {
                assert(cur@ == pcur.push(c));
                assert(spec_components_aux(f@.skip(i as int), pcur) == spec_components_aux(
                    f@.skip(i + 1),
                    cur@,
                ));
            }
        }
        proof {
            assert(out.deep_view() + spec_components_aux(f@.skip(i + 1), cur@) == old(
                out,
            ).deep_view() + spec_components(f@));
        }
        i = i + 1;
    }
    proof {
        assert(f@.skip(len as int) =~= Seq::<char>::empty());
    }
    if cur.as_str().unicode_len() > 0 {
        let ghost prev = out.deep_view();
        let ghost curview = cur@;
        out.push(cur);
        proof {
            assert(out.deep_view() =~= prev + seq![curview]);
        }
    }
}

/// A fragment shaped like a Windows path: its second character is a colon
/// (a drive letter) or it begins with a backslash.
pub open spec fn spec_is_windows_style(f: Seq<char>) -> bool {
    (f.len() >= 2 && f[1] == ':') || (f.len() >= 1 && f[0] == '\\')
}

/// The first non-empty fragment, which decides the join's formatting.
pub open spec fn spec_first_nonempty(frags: Seq<Seq<char>>) -> Option<Seq<char>>
    decreases frags.len(),
{
    if frags.len() == 0 {
        None
    } else if frags[0].len() > 0 {
        Some(frags[0])
    } else {
        spec_first_nonempty(frags.skip(1))
    }
}

/// Whether the first non-empty fragment begins with a separator, so that the
/// re-composed path keeps a leading one.
pub open spec fn spec_rooted(frags: Seq<Seq<char>>) -> bool {
    match spec_first_nonempty(frags) {
        Some(f) => f[0] == '/' || f[0] == '\\',
        None => false,
    }
}

/// Components joined with the single separator `sep` between them.
pub open spec fn spec_interleave(comps: Seq<Seq<char>>, sep: char) -> Seq<char>
    decreases comps.len(),
{
    if comps.len() == 0 {
        Seq::empty()
    } else if comps.len() == 1 {
        comps[0]
    } else {
        spec_interleave(comps.drop_last(), sep).push(sep) + comps.last()
    }
}

/// The OS-normalized join: every fragment is decomposed into components,
/// empties dropped, and the whole re-composed — with `\` throughout when the
/// first non-empty fragment is Windows-shaped, else with the native
/// separator. A leading separator on the first non-empty fragment is kept.
pub open spec fn spec_join_normalized(frags: Seq<Seq<char>>) -> Seq<char> {
    let comps = spec_all_components(frags);
    let windows = match spec_first_nonempty(frags) {
        Some(f) => spec_is_windows_style(f),
        None => false,
    };
    let sep = if windows {
        '\\'
    } else {
        '/'
    };
    let root = if spec_rooted(frags) {
        seq![sep]
    } else {
        Seq::<char>::empty()
    };
    if comps.len() == 0 {
        root
    } else {
        root + spec_interleave(comps, sep)
    }
}

/// Joins path fragments with OS normalization. Zero fragments give `None`;
/// fragments with no components at all give the empty string.
#[verifier::loop_isolation(false)]
pub fn path_join_os_normalized(frags: &Vec<String>) -> (r: Option<String>)
    ensures
        r is None <==> frags@.len() == 0,
        r matches Some(s) ==> s@ == spec_join_normalized(frags.deep_view()),
{
    if frags.len() == 0 {
        return None;
    }
    let ghost dv = frags.deep_view();

    // Gather the components of every fragment.
    let mut comps: Vec<String> = Vec::new();
    let mut i: usize = 0;
    proof {
        assert(comps.deep_view() =~= spec_all_components(dv.take(0)));
    }
    while i < frags.len()
        invariant
            i <= frags@.len(),
            dv == frags.deep_view(),
            comps.deep_view() == spec_all_components(dv.take(i as int)),
        decreases frags@.len() - i,
    {
        append_components(frags[i].as_str(), &mut comps);
        proof {
            assert(dv.take(i + 1).drop_last() =~= dv.take(i as int));
            assert(dv.take(i + 1).last() == dv[i as int]);
        }
        i = i + 1;
    }
    proof {
        assert(dv.take(frags@.len() as int) =~= dv);
    }

    // Classify from the first non-empty fragment.
    let mut windows = false;
    let mut rooted = false;
    let mut j: usize = 0;
    proof {
        assert(dv.skip(0) =~= dv);
    }
    while j < frags.len() && frags[j].as_str().unicode_len() == 0
        invariant
            j <= frags@.len(),
            dv == frags.deep_view(),
            spec_first_nonempty(dv) == spec_first_nonempty(dv.skip(j as int)),
        decreases frags@.len() - j,
    {
        proof {
            assert(dv.skip(j as int)[0] == dv[j as int]);
            assert(dv.skip(j as int).skip(1) =~= dv.skip(j + 1));
        }
        j = j + 1;
    }
    if j < frags.len() {
        let f = frags[j].as_str();
        let flen = f.unicode_len();
        proof {
            assert(dv.skip(j as int)[0] == dv[j as int]);
        }
        windows = (flen >= 2 && f.get_char(1) == ':') || f.get_char(0) == '\\';
        rooted = f.get_char(0) == '/' || f.get_char(0) == '\\';
    }
    proof {
        if j == frags@.len() {
            assert(dv.skip(j as int) =~= Seq::<Seq<char>>::empty());
        }
    }

    // Re-compose.
    proof {
        reveal_strlit("/");
        reveal_strlit("\\");
        assert("/"@ =~= seq!['/']);
        assert("\\"@ =~= seq!['\\']);
    }
    let ghost sep = if windows {
        '\\'
    } else {
        '/'
    };
    let mut acc = String::new();
    if rooted {
        if windows {
            acc.append("\\");
        } else {
            acc.append("/");
        }
    }
    let ghost root = if rooted {
        seq![sep]
    } else {
        Seq::<char>::empty()
    };
    assert(acc@ == root);
    let cghost = Ghost(comps.deep_view());
    let mut k: usize = 0;
    while k < comps.len()
        invariant
            k <= comps@.len(),
            cghost@ == comps.deep_view(),
            k == 0 ==> acc@ == root,
            k >= 1 ==> acc@ == root + spec_interleave(cghost@.take(k as int), sep),
            windows ==> "\\"@ == seq!['\\'],
            !windows ==> "/"@ == seq!['/'],
        decreases comps@.len() - k,
    {
        if k > 0 {
            if windows {
                acc.append("\\");
            } else {
                acc.append("/");
            }
        }
        acc.append(comps[k].as_str());
        proof {
            let taken = cghost@.take(k + 1);
            assert(taken.drop_last() =~= cghost@.take(k as int));
            assert(taken.last() == cghost@[k as int]);
            if k > 0 {
                assert(taken.len() >= 2);
                assert(spec_interleave(taken, sep) == spec_interleave(
                    taken.drop_last(),
                    sep,
                ).push(sep) + taken.last());
                assert(acc@ =~= root + spec_interleave(taken, sep));
            } else {
                assert(taken.len() == 1);
                assert(spec_interleave(taken, sep) == taken[0]);
                assert(comps.deep_view()[k as int] == comps@[k as int]@);
                assert(acc@ == root + comps@[k as int]@);
                assert(taken[0] == cghost@[0]);
                assert(acc@ =~= root + spec_interleave(taken, sep));
            }
        }
        k = k + 1;
    }
    proof {
        assert(cghost@.take(comps@.len() as int) =~= cghost@);
    }
    Some(acc)
}

} // verus!
