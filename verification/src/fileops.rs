//! The file-access service's decisions, as pure functions over the file's
//! state. The surrounding runtime performs the reads and writes; everything
//! that decides or computes is here.

use vstd::prelude::*;
use crate::marshal::EnsureExistsOptions;

verus! {

/// A whitespace character, as emptiness of a file is judged.
pub open spec fn spec_is_space(c: char) -> bool {
    c == ' ' || c == '\t' || c == '\n' || c == '\r'
}

/// Text that holds nothing but whitespace (the empty text included).
pub open spec fn spec_is_blank(s: Seq<char>) -> bool {
    forall|i: int| 0 <= i < s.len() ==> spec_is_space(s[i])
}

/// Whether the text is empty or holds only whitespace.
pub fn is_blank(s: &str) -> (r: bool)
    ensures
        r == spec_is_blank(s@),
{
    let len = s.unicode_len();
    let mut i: usize = 0;
    while i < len
        invariant
            i <= len,
            len == s@.len(),
            forall|k: int| 0 <= k < i ==> spec_is_space(s@[k]),
        decreases len - i,
    {
        let c = s.get_char(i);
        if !(c == ' ' || c == '\t' || c == '\n' || c == '\r') {
            return false;
        }
        i = i + 1;
    }
    true
}

/// The file's content after `ensure_exists`, from its content before:
/// `None` stands for an absent file. An absent file is created with the
/// given content; an existing file is overwritten only when it is blank and
/// the option asks for that; otherwise it is left as it is.
pub open spec fn spec_ensure_exists_next(
    prior: Option<Seq<char>>,
    content: Seq<char>,
    content_when_empty: bool,
) -> Seq<char> {
    match prior {
        None => content,
        Some(t) => if content_when_empty && spec_is_blank(t) {
            content
        } else {
            t
        },
    }
}

/// Whether `ensure_exists` writes at all, from the file's state before.
pub open spec fn spec_ensure_exists_writes(
    prior: Option<Seq<char>>,
    content_when_empty: bool,
) -> bool {
    match prior {
        None => true,
        Some(t) => content_when_empty && spec_is_blank(t),
    }
}

/// Decides `ensure_exists`: from the file's content before the call (`None`
/// when the file is absent) and the content argument (absent reads as the
/// empty text), returns the content the file must hold after the call and
/// whether a write is needed to get there.
pub fn ensure_exists_next(
    prior: Option<&String>,
    content: Option<&String>,
    options: &EnsureExistsOptions,
) -> (r: (String, bool))
    ensures
        ({
            let pv = match prior {
                Some(t) => Some(t@),
                None => None::<Seq<char>>,
            };
            let cv = match content {
                Some(c) => c@,
                None => Seq::<char>::empty(),
            };
            &&& r.0@ == spec_ensure_exists_next(pv, cv, options.content_when_empty)
            &&& r.1 == spec_ensure_exists_writes(pv, options.content_when_empty)
            &&& !r.1 ==> (prior matches Some(t) && r.0@ == t@)
        }),
{
    let filled = match content {
        Some(c) => c.clone(),
        None => String::new(),
    };
    match prior {
        None => (filled, true),
        Some(t) => {
            if options.content_when_empty && is_blank(t.as_str()) {
                (filled, true)
            } else {
                (t.clone(), false)
            }
        },
    }
}

} // verus!
