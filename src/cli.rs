//! The command surface as values: what the arguments say, read without any
//! access to the file system.

use vstd::prelude::*;
use crate::edit::same_text;
use vstd::string::*;

verus! {

/// Where the vendor directory comes from.
#[derive(Debug, Clone, PartialEq)]
pub enum PatchType {
    /// No vendoring: the vendor directory is taken to exist already.
    NoVendor,
    /// The vendor directory is made first, by the host toolchain.
    CreateVendor,
    /// Patching works on the given directory.
    CustomDir(String),
}

impl PatchType {
    /// What the argument `s` reads as, where `is_dir` tells whether `s`
    /// names an existing directory: empty for `NoVendor`, `vendor` for
    /// `CreateVendor`, a directory for `CustomDir`, anything else an error.
    pub fn from_arg(s: &str, is_dir: bool) -> (r: Result<PatchType, String>)
        ensures
            s@ == ""@ ==> r matches Ok(PatchType::NoVendor),
            s@ == "vendor"@ ==> r matches Ok(PatchType::CreateVendor),
            s@ != ""@ && s@ != "vendor"@ && is_dir ==> (r matches Ok(PatchType::CustomDir(d))
                && d@ == s@),
            s@ != ""@ && s@ != "vendor"@ && !is_dir ==> (r matches Err(msg) && msg@ == s@
                + " is not a directory"@),
    {
        proof {
            reveal_strlit("");
            reveal_strlit("vendor");
            assert("vendor"@.len() == 6);
            assert(""@.len() == 0);
        }
        if same_text(s, "") {
            Ok(PatchType::NoVendor)
        } else if same_text(s, "vendor") {
            Ok(PatchType::CreateVendor)
        } else if is_dir {
            Ok(PatchType::CustomDir(s.to_owned()))
        } else {
            let mut msg = s.to_owned();
            msg.append(" is not a directory");
            Err(msg)
        }
    }

    /// The argument that stands for this patch type.
    pub fn as_arg(&self) -> (r: String)
        ensures
            self matches PatchType::NoVendor ==> r@ == ""@,
            self matches PatchType::CreateVendor ==> r@ == "vendor"@,
            self matches PatchType::CustomDir(d) ==> r@ == d@,
    {
        match self {
            PatchType::NoVendor => "".to_owned(),
            PatchType::CreateVendor => "vendor".to_owned(),
            PatchType::CustomDir(d) => d.clone(),
        }
    }
}

/// The arguments of a patch run: the vendor directory, relative to the
/// working directory, and the manifest files.
#[derive(Debug)]
pub struct Args {
    pub dir: String,
    pub patch_manifest_files: Vec<String>,
}

/// The command line: one subcommand.
#[derive(Debug)]
pub struct Cli {
    pub sub_commands: Commands,
}

/// The subcommands.
#[derive(Debug)]
pub enum Commands {
    /// Patch with the manifests at `paths`, the vendor directory had as
    /// `patch_type` says.
    Patch { patch_type: PatchType, paths: Vec<String> },
    /// Generate manifests; not available yet.
    Generate,
}

} // verus!
