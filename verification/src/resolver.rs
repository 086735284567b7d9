//! The named-context path resolver: a read-only mapping from a resolver name
//! to an absolute base path, and pure resolution of relative paths against it.

use vstd::prelude::*;
use crate::error::UtilsError;
use crate::paths::{is_absolute, spec_is_absolute, spec_push_frag, push_frag};

verus! {

/// The logical roots a caller can resolve against.
#[derive(Clone, Copy, PartialEq, Eq, Structural)]
pub enum PathResolver {
    /// The workspace root: the anchor of all file I/O.
    WorkspaceDir,
    /// The directory above the workspace root.
    ParentDir,
}

/// The registered base directories of one session. Created once, read-only
/// afterward; every base path is absolute.
pub struct DirContext {
    wks_dir: String,
    parent_dir: String,
}

/// A resolved path: the input when it is already absolute, else the base
/// path with the input composed onto it.
pub open spec fn spec_resolve(base: Seq<char>, p: Seq<char>) -> Seq<char> {
    if spec_is_absolute(p) {
        p
    } else {
        spec_push_frag(base, p)
    }
}

impl DirContext {
    /// The base path registered for `name`.
    pub closed spec fn spec_base(&self, name: PathResolver) -> Seq<char> {
        match name {
            PathResolver::WorkspaceDir => self.wks_dir@,
            PathResolver::ParentDir => self.parent_dir@,
        }
    }

    /// Every base path of the context is absolute.
    pub open spec fn wf(&self) -> bool {
        spec_is_absolute(self.spec_base(PathResolver::WorkspaceDir)) && spec_is_absolute(
            self.spec_base(PathResolver::ParentDir),
        )
    }

    /// Builds a context from the two base directories; each must be given
    /// as an absolute path.
    pub fn new(wks_dir: String, parent_dir: String) -> (r: Result<DirContext, UtilsError>)
        ensures
            match r {
                Ok(ctx) => ctx.wf() && ctx.spec_base(PathResolver::WorkspaceDir) == wks_dir@
                    && ctx.spec_base(PathResolver::ParentDir) == parent_dir@,
                Err(e) => !(spec_is_absolute(wks_dir@) && spec_is_absolute(parent_dir@)) && e
                    matches UtilsError::PathResolution(_),
            },
            r is Ok <==> spec_is_absolute(wks_dir@) && spec_is_absolute(parent_dir@),
    {
        if !is_absolute(wks_dir.as_str()) || !is_absolute(parent_dir.as_str()) {
            Err(
                UtilsError::PathResolution(
                    String::from_str("a registered base directory must be an absolute path"),
                ),
            )
        } else {
            Ok(DirContext { wks_dir, parent_dir })
        }
    }

    /// The base path registered for `name`.
    pub fn base(&self, name: PathResolver) -> (r: &String)
        ensures
            r@ == self.spec_base(name),
    {
        match name {
            PathResolver::WorkspaceDir => &self.wks_dir,
            PathResolver::ParentDir => &self.parent_dir,
        }
    }

    /// Resolves `path` against the base registered for `name`: pure string
    /// composition, no filesystem access. An absolute `path` is returned
    /// unchanged; the empty path resolves to the base itself.
    pub fn resolve_path(&self, path: &str, name: PathResolver) -> (r: String)
        ensures
            r@ == spec_resolve(self.spec_base(name), path@),
            self.wf() ==> spec_is_absolute(r@),
    {
        let base = self.base(name);
        if is_absolute(path) {
            path.to_owned()
        } else {
            push_frag(base.as_str(), path)
        }
    }
}

} // verus!
