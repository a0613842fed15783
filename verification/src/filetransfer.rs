//! Move-or-copy transfer planning: a list of source files and directory
//! trees is mapped to the exact file operations, directory creations and
//! (for moves) source cleanups that carry it into a destination root,
//! preserving relative structure.

use vstd::prelude::*;

verus! {

use crate::paths::{seq_views, spec_base_name, base_name, concat_path};

/// Move relocates and removes the source; Copy duplicates and keeps it.
#[derive(Copy, Clone, PartialEq, Eq, Structural)]
pub enum TransferStrategy {
    Move,
    Copy,
}

/// What one source path holds, as the caller found it on disk: a single
/// file, or a directory tree.  For a tree, `subdirs` lists every
/// directory of the tree (relative to `path`, parents before children)
/// and `leaves` every file (relative to `path`).
pub enum SourceListing {
    FileSource { path: String },
    DirSource { path: String, subdirs: Vec<String>, leaves: Vec<String> },
}

/// One per-file operation: carry `src` to `dst`, by rename under Move
/// and by copy under Copy.
pub struct TransferOp {
    pub src: String,
    pub dst: String,
}

/// The views of a list of operations.
pub open spec fn op_views(v: Seq<TransferOp>) -> Seq<(Seq<char>, Seq<char>)> {
    Seq::new(v.len(), |i: int| (v[i].src@, v[i].dst@))
}

/// A transfer, fully planned: create `dirs` in order, carry every
/// operation of `ops` in order under the strategy, and afterwards (Move
/// only) delete the emptied source directories of `cleanup` in order.
/// The runner stops at the first failure; nothing is rolled back here.
pub struct TransferPlan {
    pub strategy: TransferStrategy,
    pub dirs: Vec<String>,
    pub ops: Vec<TransferOp>,
    pub cleanup: Vec<String>,
}

/// The directories one source demands under `dst`: none for a file; for
/// a tree, its base directory and every subdirectory, mirrored.
pub open spec fn spec_source_dirs(l: SourceListing, dst: Seq<char>) -> Seq<Seq<char>> {
    match l {
        SourceListing::FileSource { .. } => Seq::empty(),
        SourceListing::DirSource { path, subdirs, .. } => {
            let base = dst + seq!['/'] + spec_base_name(path@);
            seq![base] + Seq::new(subdirs@.len(), |i: int| base + seq!['/'] + subdirs@[i]@)
        },
    }
}

/// The per-file operations one source demands: a file lands under `dst`
/// under its own base name; every leaf of a tree lands under the
/// mirrored tree at its own relative path.
pub open spec fn spec_source_ops(l: SourceListing, dst: Seq<char>) -> Seq<
    (Seq<char>, Seq<char>),
> {
    match l {
        SourceListing::FileSource { path } => seq![
            (path@, dst + seq!['/'] + spec_base_name(path@)),
        ],
        SourceListing::DirSource { path, subdirs: _, leaves } => {
            let base = dst + seq!['/'] + spec_base_name(path@);
            Seq::new(
                leaves@.len(),
                |i: int| (path@ + seq!['/'] + leaves@[i]@, base + seq!['/'] + leaves@[i]@),
            )
        },
    }
}

/// The source directories a move leaves empty and must delete: every
/// subdirectory of a tree, children before parents, then the tree root.
/// A copy deletes nothing.
pub open spec fn spec_source_cleanup(l: SourceListing, mv: bool) -> Seq<Seq<char>> {
    if !mv {
        Seq::empty()
    } else {
        match l {
            SourceListing::FileSource { .. } => Seq::empty(),
            SourceListing::DirSource { path, subdirs, .. } => Seq::new(
                subdirs@.len(),
                |i: int| path@ + seq!['/'] + subdirs@[subdirs@.len() - 1 - i]@,
            ).push(path@),
        }
    }
}

/// The directories a whole transfer demands, source by source.
pub open spec fn spec_plan_dirs(ls: Seq<SourceListing>, dst: Seq<char>) -> Seq<Seq<char>>
    decreases ls.len(),
{
    if ls.len() == 0 {
        Seq::empty()
    } else {
        spec_plan_dirs(ls.drop_last(), dst) + spec_source_dirs(ls.last(), dst)
    }
}

/// The operations of a whole transfer, source by source.
pub open spec fn spec_plan_ops(ls: Seq<SourceListing>, dst: Seq<char>) -> Seq<
    (Seq<char>, Seq<char>),
>
    decreases ls.len(),
{
    if ls.len() == 0 {
        Seq::empty()
    } else {
        spec_plan_ops(ls.drop_last(), dst) + spec_source_ops(ls.last(), dst)
    }
}

/// The cleanups of a whole transfer, source by source.
pub open spec fn spec_plan_cleanup(ls: Seq<SourceListing>, mv: bool) -> Seq<Seq<char>>
    decreases ls.len(),
{
    if ls.len() == 0 {
        Seq::empty()
    } else {
        spec_plan_cleanup(ls.drop_last(), mv) + spec_source_cleanup(ls.last(), mv)
    }
}

/// A copy cleans nothing up, whatever the sources are.
proof fn lemma_plan_cleanup_copy(ls: Seq<SourceListing>)
    ensures
        spec_plan_cleanup(ls, false) == Seq::<Seq<char>>::empty(),
    decreases ls.len(),
{
    if ls.len() > 0 {
        lemma_plan_cleanup_copy(ls.drop_last());
        assert(spec_plan_cleanup(ls, false) =~= Seq::<Seq<char>>::empty());
    } else {
        assert(spec_plan_cleanup(ls, false) =~= Seq::<Seq<char>>::empty());
    }
}

/// Applies one strategy to lists of sources.
pub struct FilesTransfer {
    pub strategy: TransferStrategy,
}

impl FilesTransfer {
    pub fn new(strategy: TransferStrategy) -> (r: Self)
        ensures
            r.strategy == strategy,
    {
        Self { strategy }
    }

    /// Plans the transfer of every listed source into `dst`, in order:
    /// the mirrored directories, the per-file operations, and — under
    /// Move only — the source directories to delete afterwards.  Under
    /// Copy the cleanup is empty: every source is left untouched.
    pub fn execute_transfer(&self, files: &Vec<SourceListing>, dst: &str) -> (r: TransferPlan)
        ensures
            r.strategy == self.strategy,
            seq_views(r.dirs@) == spec_plan_dirs(files@, dst@),
            op_views(r.ops@) == spec_plan_ops(files@, dst@),
            seq_views(r.cleanup@) == spec_plan_cleanup(files@, self.strategy is Move),
            self.strategy is Copy ==> r.cleanup@.len() == 0,
    {
        let mv = match self.strategy {
            TransferStrategy::Move => true,
            TransferStrategy::Copy => false,
        };
        let mut dirs: Vec<String> = Vec::new();
        let mut ops: Vec<TransferOp> = Vec::new();
        let mut cleanup: Vec<String> = Vec::new();
        proof {
            assert(files@.take(0) =~= Seq::<SourceListing>::empty());
            assert(seq_views(dirs@) =~= spec_plan_dirs(files@.take(0), dst@));
            assert(op_views(ops@) =~= spec_plan_ops(files@.take(0), dst@));
            assert(seq_views(cleanup@) =~= spec_plan_cleanup(files@.take(0), mv));
        }
        let mut k: usize = 0;
        while k < files.len()
            invariant
                k <= files@.len(),
                mv == (self.strategy is Move),
                seq_views(dirs@) == spec_plan_dirs(files@.take(k as int), dst@),
                op_views(ops@) == spec_plan_ops(files@.take(k as int), dst@),
                seq_views(cleanup@) == spec_plan_cleanup(files@.take(k as int), mv),
            decreases files@.len() - k,
        {
            let ghost prev_dirs = dirs@;
            let ghost prev_ops = ops@;
            let ghost prev_cleanup = cleanup@;
            match &files[k] {
                SourceListing::FileSource { path } => {
                    let bn = base_name(path.as_str());
                    let dstp = concat_path(dst, bn.as_str());
                    ops.push(TransferOp { src: path.clone(), dst: dstp });
                    proof {
                        assert(op_views(ops@) =~= op_views(prev_ops) + spec_source_ops(
                            files@[k as int],
                            dst@,
                        ));
                        assert(seq_views(dirs@) =~= seq_views(prev_dirs) + spec_source_dirs(
                            files@[k as int],
                            dst@,
                        ));
                        assert(seq_views(cleanup@) =~= seq_views(prev_cleanup)
                            + spec_source_cleanup(files@[k as int], mv));
                    }
                },
                SourceListing::DirSource { path, subdirs, leaves } => {
                    let bn = base_name(path.as_str());
                    let base = concat_path(dst, bn.as_str());
                    let ghost gbase = dst@ + seq!['/'] + spec_base_name(path@);
                    proof {
                        assert(base@ == gbase);
                    }
                    dirs.push(base.clone());
                    let mut j: usize = 0;
                    proof {
                        assert(seq_views(dirs@) =~= seq_views(prev_dirs) + seq![gbase]
                            + Seq::new(0 as nat, |i: int| gbase + seq!['/'] + subdirs@[i]@));
                    }
                    while j < subdirs.len()
                        invariant
                            j <= subdirs@.len(),
                            base@ == gbase,
                            seq_views(dirs@) == seq_views(prev_dirs) + seq![gbase] + Seq::new(
                                j as nat,
                                |i: int| gbase + seq!['/'] + subdirs@[i]@,
                            ),
                        decreases subdirs@.len() - j,
                    {
                        let d = concat_path(base.as_str(), subdirs[j].as_str());
                        let ghost before = dirs@;
                        dirs.push(d);
                        proof {
                            assert(seq_views(dirs@) =~= seq_views(before).push(d@));
                            assert(seq_views(before).push(d@) =~= seq_views(prev_dirs)
                                + seq![gbase] + Seq::new(
                                (j + 1) as nat,
                                |i: int| gbase + seq!['/'] + subdirs@[i]@,
                            ));
                        }
                        j = j + 1;
                    }
                    let mut j2: usize = 0;
                    proof {
                        assert(op_views(ops@) =~= op_views(prev_ops) + Seq::new(
                            0 as nat,
                            |i: int|
                                (
                                    path@ + seq!['/'] + leaves@[i]@,
                                    gbase + seq!['/'] + leaves@[i]@,
                                ),
                        ));
                    }
                    while j2 < leaves.len()
                        invariant
                            j2 <= leaves@.len(),
                            base@ == gbase,
                            op_views(ops@) == op_views(prev_ops) + Seq::new(
                                j2 as nat,
                                |i: int|
                                    (
                                        path@ + seq!['/'] + leaves@[i]@,
                                        gbase + seq!['/'] + leaves@[i]@,
                                    ),
                            ),
                        decreases leaves@.len() - j2,
                    {
                        let src = concat_path(path.as_str(), leaves[j2].as_str());
                        let dstp = concat_path(base.as_str(), leaves[j2].as_str());
                        let ghost gsrc = src@;
                        let ghost gdst = dstp@;
                        let ghost before = ops@;
                        ops.push(TransferOp { src, dst: dstp });
                        proof {
                            assert(op_views(ops@) =~= op_views(before).push((gsrc, gdst)));
                            assert(op_views(before).push((gsrc, gdst)) =~= op_views(prev_ops)
                                + Seq::new(
                                (j2 + 1) as nat,
                                |i: int|
                                    (
                                        path@ + seq!['/'] + leaves@[i]@,
                                        gbase + seq!['/'] + leaves@[i]@,
                                    ),
                            ));
                        }
                        j2 = j2 + 1;
                    }
                    if mv {
                        let n = subdirs.len();
                        let mut t: usize = 0;
                        proof {
                            assert(seq_views(cleanup@) =~= seq_views(prev_cleanup) + Seq::new(
                                0 as nat,
                                |i: int| path@ + seq!['/'] + subdirs@[subdirs@.len() - 1 - i]@,
                            ));
                        }
                        while t < n
                            invariant
                                t <= n,
                                n == subdirs@.len(),
                                seq_views(cleanup@) == seq_views(prev_cleanup) + Seq::new(
                                    t as nat,
                                    |i: int|
                                        path@ + seq!['/'] + subdirs@[subdirs@.len() - 1 - i]@,
                                ),
                            decreases n - t,
                        {
                            let c = concat_path(path.as_str(), subdirs[n - 1 - t].as_str());
                            let ghost before = cleanup@;
                            cleanup.push(c);
                            proof {
                                assert(seq_views(cleanup@) =~= seq_views(before).push(
                                    path@ + seq!['/'] + subdirs@[n - 1 - t]@,
                                ));
                                assert(seq_views(before).push(
                                    path@ + seq!['/'] + subdirs@[n - 1 - t]@,
                                ) =~= seq_views(prev_cleanup) + Seq::new(
                                    (t + 1) as nat,
                                    |i: int|
                                        path@ + seq!['/'] + subdirs@[subdirs@.len() - 1 - i]@,
                                ));
                            }
                            t = t + 1;
                        }
                        let ghost before = cleanup@;
                        cleanup.push(path.clone());
                        proof {
                            assert(seq_views(cleanup@) =~= seq_views(before).push(path@));
                            assert(seq_views(before).push(path@) =~= seq_views(prev_cleanup)
                                + spec_source_cleanup(files@[k as int], mv));
                        }
                    } else {
                        proof {
                            assert(seq_views(cleanup@) =~= seq_views(prev_cleanup)
                                + spec_source_cleanup(files@[k as int], mv));
                        }
                    }
                    proof {
                        assert(seq_views(dirs@) =~= seq_views(prev_dirs) + spec_source_dirs(
                            files@[k as int],
                            dst@,
                        ));
                        assert(op_views(ops@) =~= op_views(prev_ops) + spec_source_ops(
                            files@[k as int],
                            dst@,
                        ));
                    }
                },
            }
            proof {
                let t1 = files@.take(k + 1);
                assert(t1.drop_last() =~= files@.take(k as int));
                assert(t1.last() == files@[k as int]);
            }
            k = k + 1;
        }
        proof {
            assert(files@.take(files@.len() as int) =~= files@);
            if !mv {
                lemma_plan_cleanup_copy(files@);
                assert(cleanup@.len() == seq_views(cleanup@).len());
            }
        }
        TransferPlan { strategy: self.strategy, dirs, ops, cleanup }
    }
}

} // verus!
