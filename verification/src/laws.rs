//! The properties the mirror promises, each proved over the model
//! semantics that `materialize` and `remove` are verified against.
//! The round trip of path mapping is stated beside the path functions
//! themselves, and the ordering of a rename's two steps is part of the
//! contract of `translate`.

use vstd::prelude::*;

use crate::executor::FsModel;
use crate::executor::RemoveOutcome;
use crate::executor::SourceKind;
use crate::executor::dir_is_empty;
use crate::executor::is_strict_under;
use crate::executor::spec_materialize;
use crate::executor::spec_remove_fs;
use crate::executor::spec_remove_outcome;

verus! {

/// Materializing is idempotent: with no intervening change, doing the
/// same materialize twice leaves exactly the tree the first one left.
pub proof fn lemma_materialize_idempotent(fs: FsModel, rel: Seq<Seq<u8>>, src: SourceKind)
    ensures
        spec_materialize(spec_materialize(fs, rel, src), rel, src) == spec_materialize(
            fs,
            rel,
            src,
        ),
{
    let once = spec_materialize(fs, rel, src);
    let twice = spec_materialize(once, rel, src);
    match src {
        SourceKind::File(c) => {
            assert(twice.files =~= once.files);
            assert(twice.dirs =~= once.dirs);
            assert(twice =~= once);
        },
        SourceKind::Directory => {
            assert(twice.dirs =~= once.dirs);
            assert(twice =~= once);
        },
        SourceKind::Missing => {},
    }
}

/// A materialize followed at once by a remove of the same path leaves
/// no file at the corresponding target path.
pub proof fn lemma_create_then_remove(fs: FsModel, rel: Seq<Seq<u8>>, c: Vec<u8>)
    ensures
        ({
            let created = spec_materialize(fs, rel, SourceKind::File(c));
            &&& spec_remove_outcome(created, rel) == RemoveOutcome::RemovedFile
            &&& !spec_remove_fs(created, rel).files.dom().contains(rel)
        }),
{
}

/// When old and new name map to the same target path, a rename —
/// remove of the old image first, then the write of the new one —
/// converges on the new content: the final state is what `new` holds.
pub proof fn lemma_rename_same_target(fs: FsModel, rel: Seq<Seq<u8>>, c: Vec<u8>)
    ensures
        ({
            let after = spec_materialize(spec_remove_fs(fs, rel), rel, SourceKind::File(c));
            &&& after.files.dom().contains(rel)
            &&& after.files[rel] == c@
        }),
{
}

/// Materializing a file creates every ancestor directory its relative
/// path needs that is not yet present at the target.
pub proof fn lemma_materialize_creates_parents(
    fs: FsModel,
    rel: Seq<Seq<u8>>,
    c: Vec<u8>,
    q: Seq<Seq<u8>>,
)
    requires
        0 < q.len() < rel.len(),
        q == rel.take(q.len() as int),
    ensures
        spec_materialize(fs, rel, SourceKind::File(c)).dirs.contains(q),
{
}

/// Removal never cascades: a non-empty directory is left untouched and
/// reported, and no removal ever changes any path other than the one
/// named.
pub proof fn lemma_remove_non_cascading(fs: FsModel, rel: Seq<Seq<u8>>)
    ensures
        !fs.files.dom().contains(rel) && fs.dirs.contains(rel) && !dir_is_empty(fs, rel)
            ==> spec_remove_fs(fs, rel) == fs && spec_remove_outcome(fs, rel)
            == RemoveOutcome::DirectoryNotEmpty,
        forall|p: Seq<Seq<u8>>|
            p != rel ==> (spec_remove_fs(fs, rel).files.dom().contains(p) <==> fs.files.dom()
                .contains(p)),
        forall|p: Seq<Seq<u8>>|
            p != rel && fs.files.dom().contains(p) ==> spec_remove_fs(fs, rel).files[p]
                == fs.files[p],
        forall|q: Seq<Seq<u8>>|
            q != rel ==> (spec_remove_fs(fs, rel).dirs.contains(q) <==> fs.dirs.contains(q)),
        forall|p: Seq<Seq<u8>>|
            is_strict_under(rel, p) && fs.files.dom().contains(p) ==> spec_remove_fs(
                fs,
                rel,
            ).files.dom().contains(p),
{
}

} // verus!
