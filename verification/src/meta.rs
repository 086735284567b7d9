//! File references: `FileMeta` is a file's identity derived purely from its
//! path text — no I/O — and `FileRecord` adds the file's content as read.

use vstd::prelude::*;
use crate::paths::{last_index_of, path_split, spec_last_index_of, spec_split};

verus! {

/// The stem of a file name: what stands before the last dot, the whole name
/// when there is no dot or only a leading one.
pub open spec fn spec_stem(name: Seq<char>) -> Seq<char> {
    let d = spec_last_index_of(name, '.');
    if d <= 0 {
        name
    } else {
        name.subrange(0, d)
    }
}

/// The extension of a file name: what stands after the last dot, empty when
/// there is no dot or only a leading one.
pub open spec fn spec_ext(name: Seq<char>) -> Seq<char> {
    let d = spec_last_index_of(name, '.');
    if d <= 0 {
        Seq::empty()
    } else {
        name.skip(d + 1)
    }
}

/// A lightweight file reference, without content.
pub struct FileMeta {
    /// The path as the listing or call rendered it.
    pub path: String,
    /// The last path segment.
    pub name: String,
    /// The name without its extension.
    pub stem: String,
    /// The extension, without the dot.
    pub ext: String,
}

/// A file reference together with the text read from it.
pub struct FileRecord {
    /// The path as the listing or call rendered it.
    pub path: String,
    /// The last path segment.
    pub name: String,
    /// The name without its extension.
    pub stem: String,
    /// The extension, without the dot.
    pub ext: String,
    /// The exact text of the file at read time.
    pub content: String,
}

/// The fields of a file reference agree with its path text.
pub open spec fn spec_meta_fields(
    path: Seq<char>,
    name: Seq<char>,
    stem: Seq<char>,
    ext: Seq<char>,
) -> bool {
    name == spec_split(path).1 && stem == spec_stem(spec_split(path).1) && ext == spec_ext(
        spec_split(path).1,
    )
}

impl FileMeta {
    /// The derived fields agree with the path.
    pub open spec fn wf(&self) -> bool {
        spec_meta_fields(self.path@, self.name@, self.stem@, self.ext@)
    }

    /// Derives a file reference from path text alone.
    pub fn from_path(path: String) -> (m: FileMeta)
        ensures
            m.path@ == path@,
            m.wf(),
    {
        let (_parent, name) = path_split(path.as_str());
        let nlen = name.as_str().unicode_len();
        let d = last_index_of(name.as_str(), '.');
        let (stem, ext) = if d == nlen || d == 0 {
            (name.as_str().to_owned(), String::new())
        } else {
            proof {
                assert(name@.subrange(0, d as int) =~= name@.subrange(0, d as int));
            }
            (
                name.as_str().substring_char(0, d).to_owned(),
                name.as_str().substring_char(d + 1, nlen).to_owned(),
            )
        };
        proof {
            if 0 < d < nlen {
                assert(ext@ =~= name@.skip(d + 1));
            }
        }
        FileMeta { path, name, stem, ext }
    }
}

impl FileRecord {
    /// The derived fields agree with the path.
    pub open spec fn wf(&self) -> bool {
        spec_meta_fields(self.path@, self.name@, self.stem@, self.ext@)
    }

    /// A record is its reference plus the text that was read for it.
    pub fn from_meta(meta: FileMeta, content: String) -> (r: FileRecord)
        ensures
            r.path@ == meta.path@,
            r.name@ == meta.name@,
            r.stem@ == meta.stem@,
            r.ext@ == meta.ext@,
            r.content@ == content@,
            meta.wf() ==> r.wf(),
    {
        FileRecord {
            path: meta.path,
            name: meta.name,
            stem: meta.stem,
            ext: meta.ext,
            content,
        }
    }

    /// The reference of this record, without the content.
    pub fn to_meta(&self) -> (m: FileMeta)
        ensures
            m.path@ == self.path@,
            m.name@ == self.name@,
            m.stem@ == self.stem@,
            m.ext@ == self.ext@,
            self.wf() ==> m.wf(),
    {
        FileMeta {
            path: self.path.clone(),
            name: self.name.clone(),
            stem: self.stem.clone(),
            ext: self.ext.clone(),
        }
    }
}

} // verus!
