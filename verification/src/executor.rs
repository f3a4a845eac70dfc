//! The mirror executor's semantics over a model of the target tree.
//!
//! The target tree is modelled as a map from relative paths to file
//! contents together with a set of relative directory paths. The two
//! mirror operations — materialize and remove — are given an exact
//! meaning over that model: materializing a file creates every missing
//! ancestor directory and overwrites the file, materializing a directory
//! creates it and its ancestors, and removal deletes exactly the one
//! named file or empty directory, failing loudly on a non-empty one.

use vstd::prelude::*;

use crate::paths::SegPath;

verus! {

/// What the notified source path denoted when it was inspected: a
/// regular file with its bytes, a directory, or nothing at all (the
/// path vanished between the notification and its handling).
pub enum SourceKind {
    File(Vec<u8>),
    Directory,
    Missing,
}

/// What a removal did at the target.
#[derive(Clone, Copy, PartialEq, Eq, Structural, Debug)]
pub enum RemoveOutcome {
    RemovedFile,
    RemovedDirectory,
    /// The target directory still has entries under it; nothing was
    /// deleted — removal never cascades.
    DirectoryNotEmpty,
    /// Nothing of that name at the target; not an error.
    NotFound,
}

/// The model of the target tree: file contents by relative path, and
/// the set of directories present, also by relative path.
#[verifier::ext_equal]
pub ghost struct FsModel {
    pub files: Map<Seq<Seq<u8>>, Seq<u8>>,
    pub dirs: Set<Seq<Seq<u8>>>,
}

/// The non-empty strict leading runs of `p`'s segments: the ancestor
/// directories a file at `p` needs.
pub open spec fn strict_prefixes(p: Seq<Seq<u8>>) -> Set<Seq<Seq<u8>>> {
    Set::new(|q: Seq<Seq<u8>>| 0 < q.len() < p.len() && q == p.take(q.len() as int))
}

/// The non-empty leading runs of `p`'s segments, `p` itself included:
/// what materializing a directory at `p` creates.
pub open spec fn prefixes_within(p: Seq<Seq<u8>>) -> Set<Seq<Seq<u8>>> {
    Set::new(|q: Seq<Seq<u8>>| 0 < q.len() <= p.len() && q == p.take(q.len() as int))
}

/// `p` lies strictly below the directory `d`.
pub open spec fn is_strict_under(d: Seq<Seq<u8>>, p: Seq<Seq<u8>>) -> bool {
    d.len() < p.len() && p.take(d.len() as int) == d
}

/// Materializing `rel`: a file overwrites the target file and creates
/// every missing ancestor; a directory creates itself and its
/// ancestors; a vanished source changes nothing.
pub open spec fn spec_materialize(fs: FsModel, rel: Seq<Seq<u8>>, src: SourceKind) -> FsModel {
    match src {
        SourceKind::File(c) => FsModel {
            files: fs.files.insert(rel, c@),
            dirs: fs.dirs.union(strict_prefixes(rel)),
        },
        SourceKind::Directory => FsModel {
            files: fs.files,
            dirs: fs.dirs.union(prefixes_within(rel)),
        },
        SourceKind::Missing => fs,
    }
}

/// Nothing in the model lies strictly below the directory `rel`.
pub open spec fn dir_is_empty(fs: FsModel, rel: Seq<Seq<u8>>) -> bool {
    &&& forall|p: Seq<Seq<u8>>| fs.files.dom().contains(p) ==> !is_strict_under(rel, p)
    &&& forall|q: Seq<Seq<u8>>| fs.dirs.contains(q) ==> !is_strict_under(rel, q)
}

/// The tree after removing `rel`: a file is deleted; an empty directory
/// is deleted; a non-empty directory, or an absent path, leaves the
/// tree unchanged.
pub open spec fn spec_remove_fs(fs: FsModel, rel: Seq<Seq<u8>>) -> FsModel {
    if fs.files.dom().contains(rel) {
        FsModel { files: fs.files.remove(rel), dirs: fs.dirs }
    } else if fs.dirs.contains(rel) && dir_is_empty(fs, rel) {
        FsModel { files: fs.files, dirs: fs.dirs.remove(rel) }
    } else {
        fs
    }
}

/// What removing `rel` reports.
pub open spec fn spec_remove_outcome(fs: FsModel, rel: Seq<Seq<u8>>) -> RemoveOutcome {
    if fs.files.dom().contains(rel) {
        RemoveOutcome::RemovedFile
    } else if fs.dirs.contains(rel) {
        if dir_is_empty(fs, rel) {
            RemoveOutcome::RemovedDirectory
        } else {
            RemoveOutcome::DirectoryNotEmpty
        }
    } else {
        RemoveOutcome::NotFound
    }
}

/// The file map an entry list denotes; a later entry for the same path
/// would win, though well-formed lists never hold two.
pub open spec fn files_map(s: Seq<(SegPath, Vec<u8>)>) -> Map<Seq<Seq<u8>>, Seq<u8>>
    decreases s.len(),
{
    if s.len() == 0 {
        Map::empty()
    } else {
        files_map(s.drop_last()).insert(s.last().0@, s.last().1@)
    }
}

/// The directory set an entry list denotes.
pub open spec fn dirs_set(s: Seq<SegPath>) -> Set<Seq<Seq<u8>>>
    decreases s.len(),
{
    if s.len() == 0 {
        Set::empty()
    } else {
        dirs_set(s.drop_last()).insert(s.last()@)
    }
}

/// The target tree held as entry lists, viewed as an `FsModel`.
pub struct TargetFs {
    pub files: Vec<(SegPath, Vec<u8>)>,
    pub dirs: Vec<SegPath>,
}

impl View for TargetFs {
    type V = FsModel;

    open spec fn view(&self) -> FsModel {
        FsModel { files: files_map(self.files@), dirs: dirs_set(self.dirs@) }
    }
}

pub proof fn lemma_files_map_dom(s: Seq<(SegPath, Vec<u8>)>, k: Seq<Seq<u8>>)
    ensures
        files_map(s).dom().contains(k) <==> exists|i: int| 0 <= i < s.len() && s[i].0@ == k,
    decreases s.len(),
{
    if s.len() > 0 {
        lemma_files_map_dom(s.drop_last(), k);
        if s.last().0@ == k {
            assert(s[s.len() - 1].0@ == k);
        } else if files_map(s).dom().contains(k) {
            let i = choose|i: int| 0 <= i < s.drop_last().len() && s.drop_last()[i].0@ == k;
            assert(s[i].0@ == k);
        } else if exists|i: int| 0 <= i < s.len() && s[i].0@ == k {
            let i = choose|i: int| 0 <= i < s.len() && s[i].0@ == k;
            assert(s.drop_last()[i].0@ == k);
        }
    }
}

pub proof fn lemma_dirs_set_contains(s: Seq<SegPath>, k: Seq<Seq<u8>>)
    ensures
        dirs_set(s).contains(k) <==> exists|i: int| 0 <= i < s.len() && s[i]@ == k,
    decreases s.len(),
{
    if s.len() > 0 {
        lemma_dirs_set_contains(s.drop_last(), k);
        if s.last()@ == k {
            assert(s[s.len() - 1]@ == k);
        } else if dirs_set(s).contains(k) {
            let i = choose|i: int| 0 <= i < s.drop_last().len() && s.drop_last()[i]@ == k;
            assert(s[i]@ == k);
        } else if exists|i: int| 0 <= i < s.len() && s[i]@ == k {
            let i = choose|i: int| 0 <= i < s.len() && s[i]@ == k;
            assert(s.drop_last()[i]@ == k);
        }
    }
}

/// With no duplicate below it, the entry at `i` gives the map's value.
pub proof fn lemma_files_map_get(s: Seq<(SegPath, Vec<u8>)>, i: int)
    requires
        0 <= i < s.len(),
        forall|j: int| i < j < s.len() ==> s[j].0@ != s[i].0@,
    ensures
        files_map(s).dom().contains(s[i].0@),
        files_map(s)[s[i].0@] == s[i].1@,
    decreases s.len(),
{
    if i == s.len() - 1 {
    } else {
        assert(s.drop_last()[i] == s[i]);
        lemma_files_map_get(s.drop_last(), i);
    }
}

/// Removing the entry at `i` removes exactly its key from the map,
/// provided no other entry shares that key.
pub proof fn lemma_files_map_remove(s: Seq<(SegPath, Vec<u8>)>, i: int)
    requires
        0 <= i < s.len(),
        forall|j: int| 0 <= j < s.len() && j != i ==> s[j].0@ != s[i].0@,
    ensures
        files_map(s.remove(i)) == files_map(s).remove(s[i].0@),
    decreases s.len(),
{
    let k = s[i].0@;
    if i == s.len() - 1 {
        assert(s.remove(i) =~= s.drop_last());
        lemma_files_map_dom(s.drop_last(), k);
        assert(files_map(s.drop_last()).insert(k, s[i].1@).remove(k) =~= files_map(
            s.drop_last(),
        ));
    } else {
        assert(s.remove(i).drop_last() =~= s.drop_last().remove(i));
        assert(forall|j: int|
            0 <= j < s.drop_last().len() && j != i ==> s.drop_last()[j].0@ != s.drop_last()[i].0@);
        lemma_files_map_remove(s.drop_last(), i);
        let last = s.last();
        assert(s.remove(i).last() == last);
        assert(files_map(s.remove(i)) == files_map(s.drop_last().remove(i)).insert(
            last.0@,
            last.1@,
        ));
        assert(last.0@ != k);
        assert(files_map(s.drop_last()).remove(k).insert(last.0@, last.1@) =~= files_map(
            s.drop_last(),
        ).insert(last.0@, last.1@).remove(k));
    }
}

/// Removing the entry at `i` removes exactly its path from the set,
/// provided no other entry shares it.
pub proof fn lemma_dirs_set_remove(s: Seq<SegPath>, i: int)
    requires
        0 <= i < s.len(),
        forall|j: int| 0 <= j < s.len() && j != i ==> s[j]@ != s[i]@,
    ensures
        dirs_set(s.remove(i)) == dirs_set(s).remove(s[i]@),
    decreases s.len(),
{
    let k = s[i]@;
    if i == s.len() - 1 {
        assert(s.remove(i) =~= s.drop_last());
        lemma_dirs_set_contains(s.drop_last(), k);
        assert(dirs_set(s.drop_last()).insert(k).remove(k) =~= dirs_set(s.drop_last()));
    } else {
        assert(s.remove(i).drop_last() =~= s.drop_last().remove(i));
        lemma_dirs_set_remove(s.drop_last(), i);
        let last = s.last();
        assert(s.remove(i).last() == last);
        assert(last@ != k);
        assert(dirs_set(s.drop_last()).remove(k).insert(last@) =~= dirs_set(
            s.drop_last(),
        ).insert(last@).remove(k));
    }
}

impl TargetFs {
    /// No two file entries and no two directory entries name the same
    /// path.
    pub open spec fn wf(&self) -> bool {
        &&& forall|i: int, j: int|
            0 <= i < j < self.files@.len() ==> self.files@[i].0@ != self.files@[j].0@
        &&& forall|i: int, j: int|
            0 <= i < j < self.dirs@.len() ==> self.dirs@[i]@ != self.dirs@[j]@
    }

    /// An empty target tree.
    pub fn new() -> (r: TargetFs)
        ensures
            r.wf(),
            r@.files =~= Map::<Seq<Seq<u8>>, Seq<u8>>::empty(),
            r@.dirs =~= Set::<Seq<Seq<u8>>>::empty(),
    {
        TargetFs { files: Vec::new(), dirs: Vec::new() }
    }

    fn find_file_index(&self, rel: &SegPath) -> (r: Option<usize>)
        ensures
            match r {
                Some(i) => i < self.files@.len() && self.files@[i as int].0@ == rel@,
                None => forall|i: int| 0 <= i < self.files@.len() ==> self.files@[i].0@ != rel@,
            },
    {
        let n = self.files.len();
        let mut i: usize = 0;
        while i < n
            invariant
                n == self.files@.len(),
                i <= n,
                forall|j: int| 0 <= j < i ==> self.files@[j].0@ != rel@,
            decreases n - i,
        {
            if self.files[i].0.path_eq(rel) {
                return Some(i);
            }
            i += 1;
        }
        None
    }

    fn find_dir_index(&self, rel: &SegPath) -> (r: Option<usize>)
        ensures
            match r {
                Some(i) => i < self.dirs@.len() && self.dirs@[i as int]@ == rel@,
                None => forall|i: int| 0 <= i < self.dirs@.len() ==> self.dirs@[i]@ != rel@,
            },
    {
        let n = self.dirs.len();
        let mut i: usize = 0;
        while i < n
            invariant
                n == self.dirs@.len(),
                i <= n,
                forall|j: int| 0 <= j < i ==> self.dirs@[j]@ != rel@,
            decreases n - i,
        {
            if self.dirs[i].path_eq(rel) {
                return Some(i);
            }
            i += 1;
        }
        None
    }

    /// The content of the file at `rel`, if one is present.
    pub fn get_file(&self, rel: &SegPath) -> (r: Option<&Vec<u8>>)
        requires
            self.wf(),
        ensures
            match r {
                Some(c) => self@.files.dom().contains(rel@) && c@ == self@.files[rel@],
                None => !self@.files.dom().contains(rel@),
            },
    {
        proof {
            lemma_files_map_dom(self.files@, rel@);
        }
        match self.find_file_index(rel) {
            Some(i) => {
                proof {
                    lemma_files_map_get(self.files@, i as int);
                }
                Some(&self.files[i].1)
            },
            None => None,
        }
    }

    /// Whether a directory is present at `rel`.
    pub fn has_dir(&self, rel: &SegPath) -> (r: bool)
        ensures
            r == self@.dirs.contains(rel@),
    {
        proof {
            lemma_dirs_set_contains(self.dirs@, rel@);
        }
        self.find_dir_index(rel).is_some()
    }

    /// Record the directory `d`, a no-op when it is already present.
    fn ensure_dir(&mut self, d: &SegPath)
        requires
            old(self).wf(),
        ensures
            final(self).wf(),
            final(self)@.files == old(self)@.files,
            final(self)@.dirs == old(self)@.dirs.insert(d@),
    {
        match self.find_dir_index(d) {
            Some(_) => {
                proof {
                    lemma_dirs_set_contains(self.dirs@, d@);
                    assert(self@.dirs.insert(d@) =~= self@.dirs);
                }
            },
            None => {
                let ghost s0 = self.dirs@;
                self.dirs.push(d.clone_path());
                proof {
                    assert(self.dirs@.drop_last() =~= s0);
                    assert(self.dirs@.last()@ == d@);
                    assert forall|i: int, j: int|
                        0 <= i < j < self.dirs@.len() implies self.dirs@[i]@ != self.dirs@[j]@ by {
                        if j == self.dirs@.len() - 1 {
                            assert(self.dirs@[i] == s0[i]);
                        } else {
                            assert(self.dirs@[i] == s0[i] && self.dirs@[j] == s0[j]);
                        }
                    }
                }
            },
        }
    }

    /// Record every leading run of `rel`'s segments of length 1 to
    /// `upto` as a directory.
    fn ensure_prefix_dirs(&mut self, rel: &SegPath, upto: usize)
        requires
            old(self).wf(),
            upto <= rel.segs@.len(),
        ensures
            final(self).wf(),
            final(self)@.files == old(self)@.files,
            final(self)@.dirs == old(self)@.dirs.union(
                Set::new(
                    |q: Seq<Seq<u8>>| 0 < q.len() <= upto && q == rel@.take(q.len() as int),
                ),
            ),
    {
        let mut pref = SegPath::empty();
        let mut k: usize = 0;
        proof {
            assert(self@.dirs =~= old(self)@.dirs.union(
                Set::new(|q: Seq<Seq<u8>>| 0 < q.len() <= 0 && q == rel@.take(q.len() as int)),
            ));
        }
        while k < upto
            invariant
                self.wf(),
                k <= upto <= rel.segs@.len(),
                pref@ == rel@.take(k as int),
                self@.files == old(self)@.files,
                self@.dirs == old(self)@.dirs.union(
                    Set::new(
                        |q: Seq<Seq<u8>>| 0 < q.len() <= k && q == rel@.take(q.len() as int),
                    ),
                ),
            decreases upto - k,
        {
            pref.push_seg(crate::paths::bytes_clone(&rel.segs[k]));
            proof {
                assert(pref@ =~= rel@.take(k + 1));
            }
            self.ensure_dir(&pref);
            proof {
                assert(self@.dirs =~= old(self)@.dirs.union(
                    Set::new(
                        |q: Seq<Seq<u8>>| 0 < q.len() <= k + 1 && q == rel@.take(q.len() as int),
                    ),
                ));
            }
            k += 1;
        }
    }

    /// Write `content` at `rel`, overwriting any file already there.
    fn set_file(&mut self, rel: &SegPath, content: Vec<u8>)
        requires
            old(self).wf(),
        ensures
            final(self).wf(),
            final(self)@.files == old(self)@.files.insert(rel@, content@),
            final(self)@.dirs == old(self)@.dirs,
    {
        let ghost s0 = self.files@;
        match self.find_file_index(rel) {
            Some(i) => {
                proof {
                    lemma_files_map_remove(s0, i as int);
                }
                let _ = self.files.remove(i);
                let ghost s1 = self.files@;
                proof {
                    assert forall|a: int, b: int|
                        0 <= a < b < s1.len() implies s1[a].0@ != s1[b].0@ by {
                        if b < i {
                            assert(s1[a] == s0[a] && s1[b] == s0[b]);
                        } else if a < i {
                            assert(s1[a] == s0[a] && s1[b] == s0[b + 1]);
                        } else {
                            assert(s1[a] == s0[a + 1] && s1[b] == s0[b + 1]);
                        }
                    }
                    assert forall|j: int|
                        0 <= j < s1.len() implies s1[j].0@ != rel@ by {
                        if j < i {
                            assert(s1[j] == s0[j]);
                        } else {
                            assert(s1[j] == s0[j + 1]);
                        }
                    }
                }
                self.files.push((rel.clone_path(), content));
                proof {
                    assert(self.files@.drop_last() =~= s1);
                    assert(self.files@.last().0@ == rel@);
                    assert(self.files@.last().1@ == content@);
                    assert(files_map(self.files@) == files_map(s1).insert(rel@, content@));
                    assert(files_map(s0).remove(rel@).insert(rel@, content@) =~= files_map(
                        s0,
                    ).insert(rel@, content@));
                    assert forall|a: int, b: int|
                        0 <= a < b < self.files@.len() implies self.files@[a].0@
                            != self.files@[b].0@ by {
                        if b == self.files@.len() - 1 {
                            assert(self.files@[a] == s1[a]);
                        } else {
                            assert(self.files@[a] == s1[a] && self.files@[b] == s1[b]);
                        }
                    }
                }
            },
            None => {
                self.files.push((rel.clone_path(), content));
                proof {
                    assert(self.files@.drop_last() =~= s0);
                    assert(self.files@.last().0@ == rel@);
                    assert(self.files@.last().1@ == content@);
                    assert forall|a: int, b: int|
                        0 <= a < b < self.files@.len() implies self.files@[a].0@
                            != self.files@[b].0@ by {
                        if b == self.files@.len() - 1 {
                            assert(self.files@[a] == s0[a]);
                        } else {
                            assert(self.files@[a] == s0[a] && self.files@[b] == s0[b]);
                        }
                    }
                }
            },
        }
    }

    /// Realize a create or modify notification: a regular source file
    /// is written at `rel` with every missing ancestor directory
    /// created first; a source directory is created with its ancestors;
    /// a source that vanished changes nothing.
    pub fn materialize(&mut self, rel: &SegPath, src: SourceKind)
        requires
            old(self).wf(),
        ensures
            final(self).wf(),
            final(self)@ == spec_materialize(old(self)@, rel@, src),
    {
        let ghost src0 = src;
        match src {
            SourceKind::File(content) => {
                let n = rel.segs.len();
                let upto = if n > 0 {
                    n - 1
                } else {
                    0
                };
                self.ensure_prefix_dirs(rel, upto);
                self.set_file(rel, content);
                proof {
                    assert(self@.dirs =~= old(self)@.dirs.union(strict_prefixes(rel@)));
                    assert(self@ =~= spec_materialize(old(self)@, rel@, src0));
                }
            },
            SourceKind::Directory => {
                self.ensure_prefix_dirs(rel, rel.segs.len());
                proof {
                    assert(self@.dirs =~= old(self)@.dirs.union(prefixes_within(rel@)));
                    assert(self@ =~= spec_materialize(old(self)@, rel@, src0));
                }
            },
            SourceKind::Missing => {},
        }
    }

    /// Whether `p` lies strictly below the directory `d`.
    pub fn strictly_under(d: &SegPath, p: &SegPath) -> (r: bool)
        ensures
            r == is_strict_under(d@, p@),
    {
        d.segs.len() < p.segs.len() && d.is_prefix_of(p)
    }

    /// Whether nothing is recorded strictly below the directory `rel`.
    fn check_dir_empty(&self, rel: &SegPath) -> (r: bool)
        ensures
            r == dir_is_empty(self@, rel@),
    {
        let nf = self.files.len();
        let mut i: usize = 0;
        while i < nf
            invariant
                nf == self.files@.len(),
                i <= nf,
                forall|j: int| 0 <= j < i ==> !is_strict_under(rel@, self.files@[j].0@),
            decreases nf - i,
        {
            if Self::strictly_under(rel, &self.files[i].0) {
                proof {
                    lemma_files_map_dom(self.files@, self.files@[i as int].0@);
                }
                return false;
            }
            i += 1;
        }
        let nd = self.dirs.len();
        let mut k: usize = 0;
        while k < nd
            invariant
                nd == self.dirs@.len(),
                k <= nd,
                forall|j: int| 0 <= j < k ==> !is_strict_under(rel@, self.dirs@[j]@),
            decreases nd - k,
        {
            if Self::strictly_under(rel, &self.dirs[k]) {
                proof {
                    lemma_dirs_set_contains(self.dirs@, self.dirs@[k as int]@);
                }
                return false;
            }
            k += 1;
        }
        proof {
            assert forall|p: Seq<Seq<u8>>|
                self@.files.dom().contains(p) implies !is_strict_under(rel@, p) by {
                lemma_files_map_dom(self.files@, p);
            }
            assert forall|q: Seq<Seq<u8>>|
                self@.dirs.contains(q) implies !is_strict_under(rel@, q) by {
                lemma_dirs_set_contains(self.dirs@, q);
            }
        }
        true
    }

    /// Realize a removal notification: delete the file at `rel`, or
    /// else the directory at `rel` when it is empty; a non-empty
    /// directory is left untouched and reported, as is an absent path.
    pub fn remove(&mut self, rel: &SegPath) -> (o: RemoveOutcome)
        requires
            old(self).wf(),
        ensures
            final(self).wf(),
            final(self)@ == spec_remove_fs(old(self)@, rel@),
            o == spec_remove_outcome(old(self)@, rel@),
    {
        proof {
            lemma_files_map_dom(self.files@, rel@);
            lemma_dirs_set_contains(self.dirs@, rel@);
        }
        let ghost s0 = self.files@;
        let ghost d0 = self.dirs@;
        match self.find_file_index(rel) {
            Some(i) => {
                proof {
                    lemma_files_map_remove(s0, i as int);
                }
                let _ = self.files.remove(i);
                proof {
                    assert forall|a: int, b: int|
                        0 <= a < b < self.files@.len() implies self.files@[a].0@
                            != self.files@[b].0@ by {
                        if b < i {
                            assert(self.files@[a] == s0[a] && self.files@[b] == s0[b]);
                        } else if a < i {
                            assert(self.files@[a] == s0[a] && self.files@[b] == s0[b + 1]);
                        } else {
                            assert(self.files@[a] == s0[a + 1] && self.files@[b] == s0[b + 1]);
                        }
                    }
                    assert(self@ =~= spec_remove_fs(old(self)@, rel@));
                }
                RemoveOutcome::RemovedFile
            },
            None => {
                match self.find_dir_index(rel) {
                    Some(i) => {
                        if self.check_dir_empty(rel) {
                            proof {
                                lemma_dirs_set_remove(d0, i as int);
                            }
                            let _ = self.dirs.remove(i);
                            proof {
                                assert forall|a: int, b: int|
                                    0 <= a < b < self.dirs@.len() implies self.dirs@[a]@
                                        != self.dirs@[b]@ by {
                                    if b < i {
                                        assert(self.dirs@[a] == d0[a] && self.dirs@[b] == d0[b]);
                                    } else if a < i {
                                        assert(self.dirs@[a] == d0[a] && self.dirs@[b] == d0[b
                                            + 1]);
                                    } else {
                                        assert(self.dirs@[a] == d0[a + 1] && self.dirs@[b] == d0[b
                                            + 1]);
                                    }
                                }
                                assert(self@ =~= spec_remove_fs(old(self)@, rel@));
                            }
                            RemoveOutcome::RemovedDirectory
                        } else {
                            RemoveOutcome::DirectoryNotEmpty
                        }
                    },
                    None => RemoveOutcome::NotFound,
                }
            },
        }
    }
}

} // verus!
