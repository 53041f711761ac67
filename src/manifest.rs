//! Patch manifests: which file to patch, with which declarations.

use vstd::prelude::*;
use crate::edit::same_text;

verus! {

/// One manifest entry: the target file (relative to the vendor root), the
/// patch operations in order, whether a missing target is skipped, and the
/// entries to run after this one.
#[derive(Debug)]
pub struct Manifest {
    pub file: String,
    pub patch: Vec<Patch>,
    pub optional: Option<bool>,
    pub postprocess: Option<Vec<Manifest>>,
}

/// How a matched declaration is treated: `Clone` shadows it under a new
/// name (the default), `Overwrite` deletes it.
#[derive(PartialEq, Eq, Structural, Clone, Copy, Debug)]
pub enum PatchType {
    Clone,
    Overwrite,
}

/// One patch operation: the declaration kind tag, the patch type, the
/// imports it needs and the declaration itself, which is both what is added
/// and what identifies the declaration it replaces.
#[derive(Debug, Clone, PartialEq)]
pub struct Patch {
    pub pattern: String,
    pub patch_type: Option<PatchType>,
    pub imports: Option<Vec<ManifestImport>>,
    pub code: String,
}

/// An import that a patch needs: an alias (empty for none) and a path.
#[derive(Debug, Clone, PartialEq)]
pub struct ManifestImport {
    pub alias: String,
    pub path: String,
}

/// The lowercase form of a text, as `str::to_lowercase` gives it.
pub uninterp spec fn lower_of(s: Seq<char>) -> Seq<char>;

/// Relies on `str::to_lowercase`: the result depends on the characters alone.
#[verifier::external_body]
fn lowercase(s: &str) -> (r: String)
    ensures
        r@ == lower_of(s@),
{
    s.to_lowercase()
}

impl Manifest {
    /// Whether a missing target file is skipped rather than an error.
    pub open spec fn is_optional(&self) -> bool {
        self.optional == Some(true)
    }

    /// Whether a missing target file is skipped rather than an error.
    pub fn skips_missing(&self) -> (r: bool)
        ensures
            r == self.is_optional(),
    {
        match self.optional {
            Some(b) => b,
            None => false,
        }
    }
}

impl PatchType {
    /// The patch type that a lowercase name stands for.
    pub open spec fn from_lowered(s: Seq<char>) -> Option<PatchType> {
        if s == "clone"@ {
            Some(PatchType::Clone)
        } else if s == "overwrite"@ {
            Some(PatchType::Overwrite)
        } else {
            None
        }
    }

    /// The patch type that the lowercase name `s` stands for.
    pub fn from_lowered_str(s: &str) -> (r: Option<PatchType>)
        ensures
            r == Self::from_lowered(s@),
    {
        if same_text(s, "clone") {
            Some(PatchType::Clone)
        } else if same_text(s, "overwrite") {
            Some(PatchType::Overwrite)
        } else {
            None
        }
    }

    /// The patch type that `s` names, in any case: `clone` or `overwrite`.
    pub fn parse(s: &str) -> (r: Option<PatchType>)
        ensures
            r == Self::from_lowered(lower_of(s@)),
    {
        let lowered = lowercase(s);
        Self::from_lowered_str(lowered.as_str())
    }
}

/// Whether a patch operation deletes its target rather than shadowing it.
pub open spec fn overwrites(patch_type: Option<PatchType>) -> bool {
    patch_type == Some(PatchType::Overwrite)
}

/// Whether a patch operation deletes its target rather than shadowing it.
pub open spec fn overwrites_ref(patch_type: Option<&PatchType>) -> bool {
    match patch_type {
        Some(t) => *t == PatchType::Overwrite,
        None => false,
    }
}

} // verus!
