//! The run over many manifests: each entry is patched against the buffer as
//! it stands, what the entries add to each file is gathered per file, and
//! only at the end are the import blocks put in and the patches appended.

use vstd::prelude::*;
use core::ops::Range;
use crate::edit::{inserted, utf8};
use crate::engine::{patch_spec, try_patch, PatchView};
use crate::fs_buffer::{appended, banner_block, FsBuffer};
use crate::manifest::Manifest;
use crate::patterns::PatchError;
use vstd::utf8::is_char_boundary;
use vstd::string::*;

verus! {

/// What the entries of a run add to one file: import lines and patches in
/// arrival order, and the span where the import block goes, as the first
/// entry for the file found it.
#[derive(Debug)]
pub struct FileEdits {
    pub path: String,
    pub imports: Vec<String>,
    pub patches: Vec<String>,
    pub safe_range: Range<usize>,
}

/// What is gathered for one file, as values: path, import lines, patches,
/// and the span where the import block goes.
pub type EditsView = (Seq<char>, Seq<Seq<char>>, Seq<Seq<char>>, (usize, usize));

impl DeepView for FileEdits {
    type V = EditsView;

    open spec fn deep_view(&self) -> EditsView {
        (
            self.path@,
            self.imports.deep_view(),
            self.patches.deep_view(),
            (self.safe_range.start, self.safe_range.end),
        )
    }
}

/// Why a run stops.
#[derive(PartialEq, Eq, Structural, Clone, Copy, Debug)]
pub enum RunFailure {
    /// A target file that is not optional is missing.
    MissingFile,
    /// Patching a target file failed.
    Patch(PatchError),
    /// The span for a file's import block no longer falls on a character
    /// boundary of its text.
    BadSafeRange,
}

/// Why a run stops, and at which target file.
#[derive(Debug)]
pub struct RunError {
    pub failure: RunFailure,
    pub file: String,
}

/// The state of a run, as values: the buffered files, what is gathered per
/// file, and the optional files that were skipped.
pub struct RunView {
    pub files: Map<Seq<char>, Seq<char>>,
    pub pending: Seq<EditsView>,
    pub skipped: Seq<Seq<char>>,
}

/// Index of the first entry of `pending` for `path`, at or after `i`.
pub open spec fn edits_index(pending: Seq<EditsView>, path: Seq<char>, i: nat) -> Option<nat>
    decreases pending.len() - i,
{
    if i >= pending.len() {
        None
    } else if pending[i as int].0 == path {
        Some(i)
    } else {
        edits_index(pending, path, i + 1)
    }
}

/// `pending` with the imports and patches of `v` added for `path`: to the
/// entry for `path`, whose span stays, or as a new last entry.
pub open spec fn merged(pending: Seq<EditsView>, path: Seq<char>, v: PatchView) -> Seq<EditsView> {
    match edits_index(pending, path, 0) {
        Some(i) => {
            let e = pending[i as int];
            pending.update(i as int, (e.0, e.1 + v.imports, e.2 + v.patches, e.3))
        },
        None => pending.push((path, v.imports, v.patches, v.safe_range)),
    }
}

/// One manifest entry, without its post-processing entries: a missing
/// optional target is skipped; otherwise the target is patched, the buffer
/// takes the new text and what is to be added is gathered.
pub open spec fn entry_step(st: RunView, m: Manifest) -> core::result::Result<
    RunView,
    (RunFailure, Seq<char>),
> {
    let path = m.file@;
    if !st.files.contains_key(path) {
        if m.is_optional() {
            Ok(RunView { files: st.files, pending: st.pending, skipped: st.skipped.push(path) })
        } else {
            Err((RunFailure::MissingFile, path))
        }
    } else {
        match patch_spec(st.files[path], m.patch@) {
            Err(e) => Err((RunFailure::Patch(e), path)),
            Ok(v) => Ok(
                RunView {
                    files: st.files.insert(path, v.code),
                    pending: merged(st.pending, path, v),
                    skipped: st.skipped,
                },
            ),
        }
    }
}

/// The first `n` entries of `ms`, in order, each without post-processing.
pub open spec fn entry_steps(st: RunView, ms: Seq<Manifest>, n: nat) -> core::result::Result<
    RunView,
    (RunFailure, Seq<char>),
>
    decreases n,
{
    if n == 0 || n > ms.len() {
        Ok(st)
    } else {
        match entry_steps(st, ms, (n - 1) as nat) {
            Err(e) => Err(e),
            Ok(s) => entry_step(s, ms[n - 1]),
        }
    }
}

/// One manifest: its entry, then, where its target was there, its
/// post-processing entries in order.
pub open spec fn manifest_step(st: RunView, m: Manifest) -> core::result::Result<
    RunView,
    (RunFailure, Seq<char>),
> {
    match entry_step(st, m) {
        Err(e) => Err(e),
        Ok(s) => if !st.files.contains_key(m.file@) {
            Ok(s)
        } else {
            match m.postprocess {
                None => Ok(s),
                Some(posts) => entry_steps(s, posts@, posts@.len()),
            }
        },
    }
}

/// The first `n` manifests of `ms`, in order.
pub open spec fn manifest_steps(st: RunView, ms: Seq<Manifest>, n: nat) -> core::result::Result<
    RunView,
    (RunFailure, Seq<char>),
>
    decreases n,
{
    if n == 0 || n > ms.len() {
        Ok(st)
    } else {
        match manifest_steps(st, ms, (n - 1) as nat) {
            Err(e) => Err(e),
            Ok(s) => manifest_step(s, ms[n - 1]),
        }
    }
}

/// The lines of an import block for the first `n` import lines.
pub open spec fn import_block_lines(lines: Seq<Seq<char>>, n: nat) -> Seq<char>
    decreases n,
{
    if n == 0 || n > lines.len() {
        Seq::empty()
    } else {
        import_block_lines(lines, (n - 1) as nat) + "\t"@ + lines[n - 1] + "\n"@
    }
}

/// One import block that lists `lines`, each on a line of its own.
pub open spec fn import_block(lines: Seq<Seq<char>>) -> Seq<char> {
    "import (\n"@ + import_block_lines(lines, lines.len()) + ")"@
}

/// The import blocks of the first `n` entries of `pending` put into `files`,
/// each at the end of its span; an entry without imports adds none.
pub open spec fn import_pass(
    files: Map<Seq<char>, Seq<char>>,
    pending: Seq<EditsView>,
    n: nat,
) -> core::result::Result<Map<Seq<char>, Seq<char>>, (RunFailure, Seq<char>)>
    decreases n,
{
    if n == 0 || n > pending.len() {
        Ok(files)
    } else {
        match import_pass(files, pending, (n - 1) as nat) {
            Err(e) => Err(e),
            Ok(fm) => {
                let e = pending[n - 1];
                if e.1.len() == 0 {
                    Ok(fm)
                } else if !is_char_boundary(utf8(fm[e.0]), e.3.1 as int) {
                    Err((RunFailure::BadSafeRange, e.0))
                } else {
                    Ok(fm.insert(e.0, inserted(fm[e.0], e.3.1 as int, banner_block(import_block(e.1)))))
                }
            },
        }
    }
}

/// `code` with the first `n` of `patches` appended, in order.
pub open spec fn appended_all(code: Seq<char>, patches: Seq<Seq<char>>, n: nat) -> Seq<char>
    decreases n,
{
    if n == 0 || n > patches.len() {
        code
    } else {
        appended(appended_all(code, patches, (n - 1) as nat), patches[n - 1])
    }
}

/// The patches of the first `n` entries of `pending` appended to `files`.
pub open spec fn append_pass(
    files: Map<Seq<char>, Seq<char>>,
    pending: Seq<EditsView>,
    n: nat,
) -> Map<Seq<char>, Seq<char>>
    decreases n,
{
    if n == 0 || n > pending.len() {
        files
    } else {
        let fm = append_pass(files, pending, (n - 1) as nat);
        let e = pending[n - 1];
        fm.insert(e.0, appended_all(fm[e.0], e.2, e.2.len()))
    }
}

/// The buffered files once everything gathered in `pending` is written in:
/// the import blocks first, then the patches.
pub open spec fn commit_spec(
    files: Map<Seq<char>, Seq<char>>,
    pending: Seq<EditsView>,
) -> core::result::Result<Map<Seq<char>, Seq<char>>, (RunFailure, Seq<char>)> {
    match import_pass(files, pending, pending.len()) {
        Err(e) => Err(e),
        Ok(fm) => Ok(append_pass(fm, pending, pending.len())),
    }
}

/// A whole run over `ms` from the buffered files `files`: the files as they
/// are to be written, and the optional files that were skipped.
pub open spec fn run_spec(files: Map<Seq<char>, Seq<char>>, ms: Seq<Manifest>) -> core::result::Result<
    (Map<Seq<char>, Seq<char>>, Seq<Seq<char>>),
    (RunFailure, Seq<char>),
> {
    let start = RunView { files, pending: Seq::empty(), skipped: Seq::empty() };
    match manifest_steps(start, ms, ms.len()) {
        Err(e) => Err(e),
        Ok(st) => match commit_spec(st.files, st.pending) {
            Err(e) => Err(e),
            Ok(fm) => Ok((fm, st.skipped)),
        },
    }
}

proof fn lemma_entry_steps_error(st: RunView, ms: Seq<Manifest>, k: nat, n: nat)
    requires
        k <= n <= ms.len(),
        entry_steps(st, ms, k) is Err,
    ensures
        entry_steps(st, ms, n) == entry_steps(st, ms, k),
    decreases n - k,
{
    if k < n {
        lemma_entry_steps_error(st, ms, k, (n - 1) as nat);
    }
}

proof fn lemma_manifest_steps_error(st: RunView, ms: Seq<Manifest>, k: nat, n: nat)
    requires
        k <= n <= ms.len(),
        manifest_steps(st, ms, k) is Err,
    ensures
        manifest_steps(st, ms, n) == manifest_steps(st, ms, k),
    decreases n - k,
{
    if k < n {
        lemma_manifest_steps_error(st, ms, k, (n - 1) as nat);
    }
}

proof fn lemma_import_pass_error(files: Map<Seq<char>, Seq<char>>, pending: Seq<EditsView>, k: nat, n: nat)
    requires
        k <= n <= pending.len(),
        import_pass(files, pending, k) is Err,
    ensures
        import_pass(files, pending, n) == import_pass(files, pending, k),
    decreases n - k,
{
    if k < n {
        lemma_import_pass_error(files, pending, k, (n - 1) as nat);
    }
}

/// Every path that `pending` gathers for is buffered.
pub open spec fn all_buffered(files: Map<Seq<char>, Seq<char>>, pending: Seq<EditsView>) -> bool {
    forall|k: int| 0 <= k < pending.len() ==> files.contains_key(#[trigger] pending[k].0)
}

/// Adds what patching `path` gave to what is gathered for it: its import
/// lines and patches go after those gathered before; the span where the
/// import block goes stays as the first result for `path` had it.
pub fn merge_edits(pending: &mut Vec<FileEdits>, path: &str, result: crate::engine::Result)
    ensures
        final(pending).deep_view() == merged(old(pending).deep_view(), path@, result.view_of()),
{
    let ghost pv = pending.deep_view();
    let mut imports = result.imports;
    let mut patches = result.patches;
    let mut i: usize = 0;
    while i < pending.len()
        invariant
            i <= pending.len(),
            pv == pending.deep_view(),
            pv == old(pending).deep_view(),
            imports == result.imports,
            patches == result.patches,
            edits_index(pv, path@, 0) == edits_index(pv, path@, i as nat),
        decreases pending.len() - i,
    {
        assert(pv[i as int] == pending[i as int].deep_view());
        if crate::edit::same_text(pending[i].path.as_str(), path) {
            let ghost e = pv[i as int];
            let ghost more_imports = imports.deep_view();
            let ghost more_patches = patches.deep_view();
            pending[i].imports.append(&mut imports);
            pending[i].patches.append(&mut patches);
            assert(pending[i as int].imports.deep_view() =~= e.1 + more_imports);
            assert(pending[i as int].patches.deep_view() =~= e.2 + more_patches);
            assert(pending[i as int].deep_view() == (e.0, e.1 + more_imports, e.2 + more_patches, e.3));
            assert(pending.deep_view() =~= pv.update(
                i as int,
                (e.0, e.1 + more_imports, e.2 + more_patches, e.3),
            ));
            return;
        }
        i = i + 1;
    }
    let entry = FileEdits {
        path: path.to_owned(),
        imports,
        patches,
        safe_range: result.safe_range,
    };
    pending.push(entry);
    assert(pending.deep_view() =~= pv.push(
        (path@, result.imports.deep_view(), result.patches.deep_view(), (
            result.safe_range.start,
            result.safe_range.end,
        )),
    ));
}

/// One import block that lists `lines`, each on a line of its own.
pub fn import_block_of(lines: &Vec<String>) -> (r: String)
    ensures
        r@ == import_block(lines.deep_view()),
{
    let ghost lv = lines.deep_view();
    let mut body = String::new();
    let mut i: usize = 0;
    while i < lines.len()
        invariant
            i <= lines.len(),
            lv == lines.deep_view(),
            body@ == import_block_lines(lv, i as nat),
        decreases lines.len() - i,
    {
        body.append("\t");
        body.append(lines[i].as_str());
        body.append("\n");
        i = i + 1;
    }
    let mut r = String::new();
    r.append("import (\n");
    r.append(body.as_str());
    r.append(")");
    r
}

/// Writes what `pending` gathered into the buffer: first the import block
/// of each file, at the end of its span, then the patches of each file, in
/// order, at its end.
pub fn commit(fsb: &mut FsBuffer, pending: &Vec<FileEdits>) -> (r: core::result::Result<(), RunError>)
    requires
        old(fsb).wf(),
        all_buffered(old(fsb)@, pending.deep_view()),
    ensures
        final(fsb).wf(),
        final(fsb).root_view() == old(fsb).root_view(),
        match commit_spec(old(fsb)@, pending.deep_view()) {
            Ok(fm) => r is Ok && final(fsb)@ == fm,
            Err(e) => r matches Err(err) && (err.failure, err.file@) == e,
        },
{
    let ghost pv = pending.deep_view();
    let ghost start = fsb@;
    let mut i: usize = 0;
    while i < pending.len()
        invariant
            i <= pending.len(),
            pv == pending.deep_view(),
            fsb.wf(),
            fsb.root_view() == old(fsb).root_view(),
            start == old(fsb)@,
            import_pass(start, pv, i as nat) == core::result::Result::<
                Map<Seq<char>, Seq<char>>,
                (RunFailure, Seq<char>),
            >::Ok(fsb@),
            fsb@.dom() == start.dom(),
            all_buffered(start, pv),
        decreases pending.len() - i,
    {
        let e = &pending[i];
        assert(pv[i as int] == e.deep_view());
        if e.imports.len() > 0 {
            let path = e.path.as_str();
            assert(start.contains_key(pv[i as int].0));
            assert(fsb@.dom().contains(path@));
            let content = match fsb.get(path) {
                Some(c) => c,
                None => return Ok(()),
            };
            if !content.as_str().is_char_boundary(e.safe_range.end) {
                proof {
                    lemma_import_pass_error(start, pv, (i + 1) as nat, pv.len());
                }
                return Err(RunError { failure: RunFailure::BadSafeRange, file: e.path.clone() });
            }
            let block = import_block_of(&e.imports);
            fsb.apply_patch_at(path, block.as_str(), &e.safe_range);
        }
        i = i + 1;
    }
    let ghost imported = fsb@;
    let mut i: usize = 0;
    while i < pending.len()
        invariant
            i <= pending.len(),
            pv == pending.deep_view(),
            fsb.wf(),
            fsb.root_view() == old(fsb).root_view(),
            append_pass(imported, pv, i as nat) == fsb@,
            fsb@.dom() == start.dom(),
            imported.dom() == start.dom(),
            all_buffered(start, pv),
        decreases pending.len() - i,
    {
        let e = &pending[i];
        assert(pv[i as int] == e.deep_view());
        let path = e.path.as_str();
        assert(start.contains_key(pv[i as int].0));
        let ghost before = fsb@;
        assert(fsb@ =~= before.insert(path@, appended_all(before[path@], e.patches.deep_view(), 0)));
        let ghost pat = e.patches.deep_view();
        let mut j: usize = 0;
        while j < e.patches.len()
            invariant
                j <= e.patches.len(),
                pat == e.patches.deep_view(),
                fsb.wf(),
                fsb.root_view() == old(fsb).root_view(),
                fsb@.dom() == start.dom(),
                start.contains_key(path@),
                fsb@ == before.insert(path@, appended_all(before[path@], pat, j as nat)),
            decreases e.patches.len() - j,
        {
            fsb.append_patch(path, e.patches[j].as_str());
            assert(fsb@ =~= before.insert(path@, appended_all(before[path@], pat, (j + 1) as nat)));
            j = j + 1;
        }
        i = i + 1;
    }
    Ok(())
}

proof fn lemma_edits_index(pending: Seq<EditsView>, path: Seq<char>, i: nat)
    ensures
        edits_index(pending, path, i) matches Some(k) ==> i <= k < pending.len()
            && pending[k as int].0 == path,
    decreases pending.len() - i,
{
    if i < pending.len() && pending[i as int].0 != path {
        lemma_edits_index(pending, path, i + 1);
    }
}

proof fn lemma_merged_buffered(
    files: Map<Seq<char>, Seq<char>>,
    pending: Seq<EditsView>,
    path: Seq<char>,
    code: Seq<char>,
    v: PatchView,
)
    requires
        all_buffered(files, pending),
    ensures
        all_buffered(files.insert(path, code), merged(pending, path, v)),
{
    let next = merged(pending, path, v);
    let fm = files.insert(path, code);
    lemma_edits_index(pending, path, 0);
    assert forall|k: int| 0 <= k < next.len() implies fm.contains_key(#[trigger] next[k].0) by {
        if k < pending.len() {
            assert(files.contains_key(pending[k].0));
            assert(next[k].0 == pending[k].0);
        }
    }
}

/// One manifest entry, without its post-processing entries: a missing
/// optional target is recorded as skipped, a missing required one stops the
/// run; otherwise the target is patched, the buffer takes the new text and
/// what is to be added to the file is gathered.
pub fn apply_entry(
    fsb: &mut FsBuffer,
    pending: &mut Vec<FileEdits>,
    skipped: &mut Vec<String>,
    m: &Manifest,
) -> (r: core::result::Result<(), RunError>)
    requires
        old(fsb).wf(),
        all_buffered(old(fsb)@, old(pending).deep_view()),
    ensures
        final(fsb).wf(),
        final(fsb).root_view() == old(fsb).root_view(),
        match entry_step(
            RunView {
                files: old(fsb)@,
                pending: old(pending).deep_view(),
                skipped: old(skipped).deep_view(),
            },
            *m,
        ) {
            Ok(st) => r is Ok && final(fsb)@ == st.files && final(pending).deep_view() == st.pending
                && final(skipped).deep_view() == st.skipped && all_buffered(st.files, st.pending),
            Err(e) => r matches Err(err) && (err.failure, err.file@) == e,
        },
{
    let code = match fsb.get(m.file.as_str()) {
        Some(c) => c,
        None => {
            if m.skips_missing() {
                let ghost before = skipped.deep_view();
                skipped.push(m.file.clone());
                assert(skipped.deep_view() =~= before.push(m.file@));
                return Ok(());
            }
            return Err(RunError { failure: RunFailure::MissingFile, file: m.file.clone() });
        },
    };
    match try_patch(code, m) {
        Err(e) => Err(RunError { failure: RunFailure::Patch(e), file: m.file.clone() }),
        Ok(result) => {
            proof {
                lemma_merged_buffered(
                    fsb@,
                    pending.deep_view(),
                    m.file@,
                    result.code@,
                    result.view_of(),
                );
            }
            fsb.update(m.file.as_str(), result.code.as_str());
            merge_edits(pending, m.file.as_str(), result);
            Ok(())
        },
    }
}

/// The entries `entries`, in order, each without post-processing.
pub fn apply_entries(
    fsb: &mut FsBuffer,
    pending: &mut Vec<FileEdits>,
    skipped: &mut Vec<String>,
    entries: &Vec<Manifest>,
) -> (r: core::result::Result<(), RunError>)
    requires
        old(fsb).wf(),
        all_buffered(old(fsb)@, old(pending).deep_view()),
    ensures
        final(fsb).wf(),
        final(fsb).root_view() == old(fsb).root_view(),
        match entry_steps(
            RunView {
                files: old(fsb)@,
                pending: old(pending).deep_view(),
                skipped: old(skipped).deep_view(),
            },
            entries@,
            entries@.len(),
        ) {
            Ok(st) => r is Ok && final(fsb)@ == st.files && final(pending).deep_view() == st.pending
                && final(skipped).deep_view() == st.skipped && all_buffered(st.files, st.pending),
            Err(e) => r matches Err(err) && (err.failure, err.file@) == e,
        },
{
    let ghost es = entries@;
    let ghost st1 = RunView {
        files: fsb@,
        pending: pending.deep_view(),
        skipped: skipped.deep_view(),
    };
    let mut j: usize = 0;
    while j < entries.len()
        invariant
            j <= entries.len(),
            es == entries@,
            fsb.wf(),
            fsb.root_view() == old(fsb).root_view(),
            st1 == (RunView {
                files: old(fsb)@,
                pending: old(pending).deep_view(),
                skipped: old(skipped).deep_view(),
            }),
            entry_steps(st1, es, j as nat) == core::result::Result::<
                RunView,
                (RunFailure, Seq<char>),
            >::Ok(RunView { files: fsb@, pending: pending.deep_view(), skipped: skipped.deep_view() }),
            all_buffered(fsb@, pending.deep_view()),
        decreases entries.len() - j,
    {
        match apply_entry(fsb, pending, skipped, &entries[j]) {
            Err(e) => {
                proof {
                    lemma_entry_steps_error(st1, es, (j + 1) as nat, es.len());
                }
                return Err(e);
            },
            Ok(()) => {},
        }
        j = j + 1;
    }
    Ok(())
}

/// Runs the manifests `manifests` in order over the buffered files, then
/// writes what they gathered into the buffer: import blocks first, then
/// patches. A target file that is not buffered is missing. Gives the
/// optional files that were skipped.
pub fn run_manifests(fsb: &mut FsBuffer, manifests: &Vec<Manifest>) -> (r: core::result::Result<
    Vec<String>,
    RunError,
>)
    requires
        old(fsb).wf(),
    ensures
        final(fsb).wf(),
        final(fsb).root_view() == old(fsb).root_view(),
        match run_spec(old(fsb)@, manifests@) {
            Ok(out) => r matches Ok(s) && final(fsb)@ == out.0 && s.deep_view() == out.1,
            Err(e) => r matches Err(err) && (err.failure, err.file@) == e,
        },
{
    let ghost ms = manifests@;
    let ghost start = RunView { files: fsb@, pending: Seq::empty(), skipped: Seq::empty() };
    let mut pending: Vec<FileEdits> = Vec::new();
    let mut skipped: Vec<String> = Vec::new();
    assert(pending.deep_view() =~= Seq::<EditsView>::empty());
    assert(skipped.deep_view() =~= Seq::<Seq<char>>::empty());
    let mut i: usize = 0;
    while i < manifests.len()
        invariant
            i <= manifests.len(),
            ms == manifests@,
            fsb.wf(),
            fsb.root_view() == old(fsb).root_view(),
            start == (RunView { files: old(fsb)@, pending: Seq::empty(), skipped: Seq::empty() }),
            manifest_steps(start, ms, i as nat) == core::result::Result::<
                RunView,
                (RunFailure, Seq<char>),
            >::Ok(RunView { files: fsb@, pending: pending.deep_view(), skipped: skipped.deep_view() }),
            all_buffered(fsb@, pending.deep_view()),
        decreases manifests.len() - i,
    {
        let m = &manifests[i];
        let present = fsb.contains(m.file.as_str());
        let ghost st0 = RunView {
            files: fsb@,
            pending: pending.deep_view(),
            skipped: skipped.deep_view(),
        };
        match apply_entry(fsb, &mut pending, &mut skipped, m) {
            Err(e) => {
                proof {
                    lemma_manifest_steps_error(start, ms, (i + 1) as nat, ms.len());
                }
                return Err(e);
            },
            Ok(()) => {},
        }
        let ghost st1 = RunView {
            files: fsb@,
            pending: pending.deep_view(),
            skipped: skipped.deep_view(),
        };
        if present {
            match &m.postprocess {
                None => {},
                Some(posts) => {
                    match apply_entries(fsb, &mut pending, &mut skipped, posts) {
                        Err(e) => {
                            proof {
                                assert(manifest_step(st0, *m) == entry_steps(st1, posts@, posts@.len()));
                                lemma_manifest_steps_error(start, ms, (i + 1) as nat, ms.len());
                            }
                            return Err(e);
                        },
                        Ok(()) => {},
                    }
                },
            }
        }
        i = i + 1;
    }
    match commit(fsb, &pending) {
        Err(e) => Err(e),
        Ok(()) => Ok(skipped),
    }
}

} // verus!
