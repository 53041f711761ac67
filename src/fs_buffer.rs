//! A path-keyed buffer of file contents. Files are put in as they are read,
//! edited in memory, and written out together once everything is done.

use vstd::prelude::*;
use core::ops::Range;
use crate::edit::{insert_text, inserted, utf8};
use vstd::utf8::is_char_boundary;
use vstd::string::*;

verus! {

/// The marker line put before every block that patching adds to a file.
pub const BANNER: &'static str = "// Patched by govld. DO NOT EDIT";

/// `code` with `patch` added at its end, after the marker line.
pub open spec fn appended(code: Seq<char>, patch: Seq<char>) -> Seq<char> {
    code + "\n"@ + BANNER@ + "\n"@ + patch
}

/// The block that `prepend` puts in: the marker line and `patch`, set apart
/// by blank lines.
pub open spec fn banner_block(patch: Seq<char>) -> Seq<char> {
    "\n\n"@ + BANNER@ + "\n"@ + patch + "\n\n"@
}

/// The content that `files` holds for `path`.
pub open spec fn lookup(files: Seq<(Seq<char>, Seq<char>)>, path: Seq<char>) -> Option<Seq<char>>
    decreases files.len(),
{
    if files.len() == 0 {
        None
    } else if files.last().0 == path {
        Some(files.last().1)
    } else {
        lookup(files.drop_last(), path)
    }
}

/// File contents by path, relative to a root directory.
#[derive(Debug)]
pub struct FsBuffer {
    root: String,
    inner: Vec<(String, String)>,
}

impl View for FsBuffer {
    type V = Map<Seq<char>, Seq<char>>;

    closed spec fn view(&self) -> Map<Seq<char>, Seq<char>> {
        Map::new(
            |p: Seq<char>| lookup(self.inner.deep_view(), p) is Some,
            |p: Seq<char>| lookup(self.inner.deep_view(), p).unwrap(),
        )
    }
}

/// Adds `patch` at the end of `code`, after the marker line.
pub fn append(code: &mut String, patch: &str)
    ensures
        final(code)@ == appended(old(code)@, patch@),
{
    code.append("\n");
    code.append(BANNER);
    code.append("\n");
    code.append(patch);
}

/// Puts `patch`, with the marker line, into `code` right at the end of
/// `safe_range`.
pub fn prepend(safe_range: &Range<usize>, code: &mut String, patch: &str)
    requires
        is_char_boundary(utf8(old(code)@), safe_range.end as int),
    ensures
        final(code)@ == inserted(old(code)@, safe_range.end as int, banner_block(patch@)),
{
    let mut block = String::new();
    block.append("\n\n");
    block.append(BANNER);
    block.append("\n");
    block.append(patch);
    block.append("\n\n");
    let next = insert_text(code.as_str(), safe_range.end, block.as_str());
    *code = next;
}

impl FsBuffer {
    /// The root directory that the paths are relative to.
    pub closed spec fn root_view(&self) -> Seq<char> {
        self.root@
    }

    /// The paths and contents, in the order the paths were first put in.
    pub closed spec fn entries_view(&self) -> Seq<(Seq<char>, Seq<char>)> {
        self.inner.deep_view()
    }

    /// Each path is held once.
    pub closed spec fn wf(&self) -> bool {
        forall|i: int, j: int|
            0 <= i < j < self.inner@.len() ==> #[trigger] self.inner@[i].0@
                != #[trigger] self.inner@[j].0@
    }

    /// An empty buffer over the root directory `path_prefix`.
    pub fn new(path_prefix: String) -> (r: Self)
        ensures
            r.wf(),
            r@ == Map::<Seq<char>, Seq<char>>::empty(),
            r.root_view() == path_prefix@,
    {
        let r = FsBuffer { root: path_prefix, inner: Vec::new() };
        assert(r@ =~= Map::<Seq<char>, Seq<char>>::empty());
        r
    }

    /// The root directory.
    pub fn root(&self) -> (r: &str)
        ensures
            r@ == self.root_view(),
    {
        self.root.as_str()
    }

    /// The paths and contents, in the order the paths were first put in.
    pub fn entries(&self) -> (r: &Vec<(String, String)>)
        ensures
            r.deep_view() == self.entries_view(),
    {
        &self.inner
    }

    /// Whether `path` is held.
    pub fn contains(&self, path: &str) -> (r: bool)
        requires
            self.wf(),
        ensures
            r == self@.contains_key(path@),
    {
        self.position(path).is_some()
    }

    /// The content held for `path`.
    pub fn get(&self, path: &str) -> (r: Option<String>)
        requires
            self.wf(),
        ensures
            r is Some <==> self@.contains_key(path@),
            r matches Some(c) ==> c@ == self@[path@],
    {
        match self.position(path) {
            Some(i) => Some(self.inner[i].1.clone()),
            None => None,
        }
    }

    /// The content for `file`: what the buffer holds, or else `from_disk`,
    /// the file as read from disk, which the buffer then holds.
    pub fn load(&mut self, file: String, from_disk: String) -> (r: String)
        requires
            old(self).wf(),
        ensures
            final(self).wf(),
            final(self).root_view() == old(self).root_view(),
            old(self)@.contains_key(file@) ==> final(self)@ == old(self)@ && r@ == old(self)@[file@],
            !old(self)@.contains_key(file@) ==> final(self)@ == old(self)@.insert(file@, from_disk@)
                && r@ == from_disk@,
    {
        match self.get(file.as_str()) {
            Some(v) => v,
            None => {
                let c = from_disk.clone();
                self.set_content(file.as_str(), from_disk);
                c
            },
        }
    }

    /// The content for `file`: what the buffer holds, or else `from_disk`,
    /// the file as read from disk where it could be read, which the buffer
    /// then holds. `None` where neither has it.
    pub fn try_load(&mut self, file: String, from_disk: Option<String>) -> (r: Option<String>)
        requires
            old(self).wf(),
        ensures
            final(self).wf(),
            final(self).root_view() == old(self).root_view(),
            old(self)@.contains_key(file@) ==> final(self)@ == old(self)@ && (r matches Some(c)
                && c@ == old(self)@[file@]),
            !old(self)@.contains_key(file@) ==> match from_disk {
                Some(d) => final(self)@ == old(self)@.insert(file@, d@) && (r matches Some(c) && c@
                    == d@),
                None => final(self)@ == old(self)@ && r is None,
            },
    {
        match self.get(file.as_str()) {
            Some(v) => Some(v),
            None => match from_disk {
                Some(d) => {
                    let c = d.clone();
                    self.set_content(file.as_str(), d);
                    Some(c)
                },
                None => None,
            },
        }
    }

    /// Replaces the content held for `path` with `c`.
    pub fn update(&mut self, path: &str, c: &str)
        requires
            old(self).wf(),
        ensures
            final(self).wf(),
            final(self).root_view() == old(self).root_view(),
            final(self)@ == old(self)@.insert(path@, c@),
    {
        self.set_content(path, c.to_owned());
    }

    /// Adds `patch`, after the marker line, at the end of the content held
    /// for `path`, which must have been loaded.
    pub fn append_patch(&mut self, path: &str, patch: &str)
        requires
            old(self).wf(),
            old(self)@.contains_key(path@),
        ensures
            final(self).wf(),
            final(self).root_view() == old(self).root_view(),
            final(self)@ == old(self)@.insert(path@, appended(old(self)@[path@], patch@)),
    {
        let i = match self.position(path) {
            Some(i) => i,
            None => return,
        };
        let mut v = self.inner[i].1.clone();
        append(&mut v, patch);
        self.set_content(path, v);
    }

    /// Puts `patch`, with the marker line, into the content held for `path`
    /// at the end of `safe_range`; `path` must have been loaded.
    pub fn apply_patch_at(&mut self, path: &str, patch: &str, safe_range: &Range<usize>)
        requires
            old(self).wf(),
            old(self)@.contains_key(path@),
            is_char_boundary(utf8(old(self)@[path@]), safe_range.end as int),
        ensures
            final(self).wf(),
            final(self).root_view() == old(self).root_view(),
            final(self)@ == old(self)@.insert(
                path@,
                inserted(old(self)@[path@], safe_range.end as int, banner_block(patch@)),
            ),
    {
        let i = match self.position(path) {
            Some(i) => i,
            None => return,
        };
        let mut v = self.inner[i].1.clone();
        prepend(safe_range, &mut v, patch);
        self.set_content(path, v);
    }

    /// Puts `content` in for `path`, in place where `path` is held already,
    /// at the end where it is not.
    fn set_content(&mut self, path: &str, content: String)
        requires
            old(self).wf(),
        ensures
            final(self).wf(),
            final(self)@ == old(self)@.insert(path@, content@),
            final(self).root_view() == old(self).root_view(),
    {
        let ghost files = self.inner.deep_view();
        let ghost before = self.inner@;
        match self.position(path) {
            Some(i) => {
                let key = self.inner[i].0.clone();
                self.inner.set(i, (key, content));
                proof {
                    assert forall|j: int| 0 <= j < self.inner@.len() implies #[trigger] self.inner@[j].0
                        == before[j].0 by {}
                    assert(self.wf());
                    assert(self.inner.deep_view() =~= files.update(i as int, (files[i as int].0, content@)));
                    assert forall|q: Seq<char>| #![auto] lookup(self.inner.deep_view(), q) == if q == path@ {
                        Some(content@)
                    } else {
                        lookup(files, q)
                    } by {
                        lemma_lookup_update(files, i as int, content@, q);
                    }
                }
            },
            None => {
                self.inner.push((path.to_owned(), content));
                proof {
                    assert(self.inner.deep_view() =~= files.push((path@, content@)));
                    assert forall|q: Seq<char>| #![auto] lookup(self.inner.deep_view(), q) == if q == path@ {
                        Some(content@)
                    } else {
                        lookup(files, q)
                    } by {
                        lemma_lookup_push(files, path@, content@, q);
                    }
                    assert forall|i: int| 0 <= i < files.len() implies #[trigger] files[i].0 != path@ by {
                        lemma_lookup_holds(files, i);
                    }
                    assert forall|j: int| 0 <= j < before.len() implies #[trigger] self.inner@[j]
                        == before[j] by {}
                    assert(self.inner@.last().0@ == path@);
                    assert forall|i: int, j: int|
                        0 <= i < j < self.inner@.len() implies #[trigger] self.inner@[i].0@
                        != #[trigger] self.inner@[j].0@ by {
                        if j == before.len() {
                            assert(files[i].0 == before[i].0@);
                        }
                    }
                    assert(self.wf());
                }
            },
        }
        assert(self@ =~= old(self)@.insert(path@, content@));
    }

    /// Index of the entry for `path`.
    fn position(&self, path: &str) -> (r: Option<usize>)
        requires
            self.wf(),
        ensures
            r is Some <==> self@.contains_key(path@),
            r matches Some(i) ==> i < self.inner@.len() && self.inner@[i as int].0@ == path@
                && self@[path@] == self.inner@[i as int].1@,
    {
        let ghost files = self.inner.deep_view();
        let mut i: usize = self.inner.len();
        assert(files.take(i as int) =~= files);
        while i > 0
            invariant
                i <= self.inner@.len(),
                files == self.inner.deep_view(),
                self.wf(),
                lookup(files, path@) == lookup(files.take(i as int), path@),
            decreases i,
        {
            let k = i - 1;
            if same(&self.inner[k].0, path) {
                assert(files.take(i as int).last() == files[k as int]);
                return Some(k);
            }
            assert(files.take(i as int).drop_last() =~= files.take(k as int));
            i = k;
        }
        None
    }
}

proof fn lemma_lookup_push(files: Seq<(Seq<char>, Seq<char>)>, p: Seq<char>, c: Seq<char>, q: Seq<char>)
    ensures
        lookup(files.push((p, c)), q) == if q == p {
            Some(c)
        } else {
            lookup(files, q)
        },
{
    assert(files.push((p, c)).drop_last() =~= files);
}

proof fn lemma_lookup_update(
    files: Seq<(Seq<char>, Seq<char>)>,
    k: int,
    c: Seq<char>,
    q: Seq<char>,
)
    requires
        0 <= k < files.len(),
        forall|i: int, j: int| 0 <= i < j < files.len() ==> #[trigger] files[i].0 != #[trigger] files[j].0,
    ensures
        lookup(files.update(k, (files[k].0, c)), q) == if q == files[k].0 {
            Some(c)
        } else {
            lookup(files, q)
        },
    decreases files.len(),
{
    let p = files[k].0;
    let next = files.update(k, (p, c));
    let n = files.len() - 1;
    if k == n {
        assert(next.drop_last() =~= files.drop_last());
    } else {
        assert(next.drop_last() =~= files.drop_last().update(k, (p, c)));
        assert(files[n].0 != p);
        lemma_lookup_update(files.drop_last(), k, c, q);
    }
}

proof fn lemma_lookup_holds(files: Seq<(Seq<char>, Seq<char>)>, i: int)
    requires
        0 <= i < files.len(),
    ensures
        lookup(files, files[i].0) is Some,
    decreases files.len(),
{
    if i < files.len() - 1 && files.last().0 != files[i].0 {
        assert(files.drop_last()[i] == files[i]);
        lemma_lookup_holds(files.drop_last(), i);
    }
}

fn same(a: &String, b: &str) -> (r: bool)
    ensures
        r == (a@ == b@),
{
    crate::edit::same_text(a.as_str(), b)
}

} // verus!
