//! A model of the observed filesystem entries, and the actions the linking
//! engine plans against it.
//!
//! The model maps a path to what was observed there: a directory, a
//! non-directory file, or a symlink together with its immediate destination.
//! A path absent from the map models a path that does not exist.  The caller
//! that owns the real filesystem fills the model for the paths an operation
//! examines, and performs the returned actions in order.

use vstd::prelude::*;

verus! {

use crate::dict::Dict;

/// What was observed at one path.
#[derive(Debug, Clone, PartialEq, Eq)]
pub enum FsEntry {
    /// A directory.
    Dir,
    /// A file or any other non-directory, non-symlink entry.
    File,
    /// A symlink, with the destination its link names.
    Symlink(String),
}

/// The abstract value of an `FsEntry`.
pub enum VEntry {
    Dir,
    File,
    Symlink(Seq<char>),
}

impl View for FsEntry {
    type V = VEntry;

    open spec fn view(&self) -> VEntry {
        match self {
            FsEntry::Dir => VEntry::Dir,
            FsEntry::File => VEntry::File,
            FsEntry::Symlink(d) => VEntry::Symlink(d@),
        }
    }
}

impl DeepView for FsEntry {
    type V = VEntry;

    open spec fn deep_view(&self) -> VEntry {
        self.view()
    }
}

impl FsEntry {
    /// A copy of the entry.
    pub fn dup(&self) -> (r: FsEntry)
        ensures
            r@ == self@,
    {
        match self {
            FsEntry::Dir => FsEntry::Dir,
            FsEntry::File => FsEntry::File,
            FsEntry::Symlink(d) => FsEntry::Symlink(d.clone()),
        }
    }
}

/// The observed filesystem: path to entry.
pub type FsModel = Dict<FsEntry>;

/// One mutation of the filesystem, in the order the engine plans them.
#[derive(Debug, Clone, PartialEq, Eq)]
pub enum FsAction {
    /// Create the directory and any missing ancestors.
    CreateDirAll(String),
    /// Delete a file or symlink.
    RemoveFile(String),
    /// Delete an entry, recursively when it is a directory.
    RemoveAll(String),
    /// Rename the first path to the second, replacing the second.
    Rename(String, String),
    /// Create a symlink at the second path pointing at the first.
    MakeLink(String, String),
}

/// The model after one action.
pub open spec fn spec_apply1(m: Map<Seq<char>, VEntry>, a: FsAction) -> Map<Seq<char>, VEntry> {
    match a {
        FsAction::CreateDirAll(p) => if m.contains_key(p@) {
            m
        } else {
            m.insert(p@, VEntry::Dir)
        },
        FsAction::RemoveFile(p) => m.remove(p@),
        FsAction::RemoveAll(p) => m.remove(p@),
        FsAction::Rename(f, t) => if m.contains_key(f@) {
            m.remove(f@).insert(t@, m[f@])
        } else {
            m
        },
        FsAction::MakeLink(s, t) => m.insert(t@, VEntry::Symlink(s@)),
    }
}

/// The model after a sequence of actions, applied left to right.
pub open spec fn spec_apply(m: Map<Seq<char>, VEntry>, acts: Seq<FsAction>) -> Map<
    Seq<char>,
    VEntry,
>
    decreases acts.len(),
{
    if acts.len() == 0 {
        m
    } else {
        spec_apply1(spec_apply(m, acts.drop_last()), acts.last())
    }
}

/// Applying a single-action sequence is applying the action.
pub proof fn lemma_apply1(m: Map<Seq<char>, VEntry>, a: FsAction)
    ensures
        spec_apply(m, seq![a]) == spec_apply1(m, a),
{
    assert(seq![a].drop_last() =~= Seq::<FsAction>::empty());
    assert(seq![a].last() == a);
    assert(spec_apply(m, Seq::<FsAction>::empty()) == m);
}

/// Applying a two-action sequence is applying the actions in order.
pub proof fn lemma_apply2(m: Map<Seq<char>, VEntry>, a: FsAction, b: FsAction)
    ensures
        spec_apply(m, seq![a, b]) == spec_apply1(spec_apply1(m, a), b),
{
    assert(seq![a, b].drop_last() =~= seq![a]);
    assert(seq![a, b].last() == b);
    lemma_apply1(m, a);
}

/// Applying a three-action sequence is applying the actions in order.
pub proof fn lemma_apply3(m: Map<Seq<char>, VEntry>, a: FsAction, b: FsAction, c: FsAction)
    ensures
        spec_apply(m, seq![a, b, c]) == spec_apply1(spec_apply1(spec_apply1(m, a), b), c),
{
    assert(seq![a, b, c].drop_last() =~= seq![a, b]);
    assert(seq![a, b, c].last() == c);
    lemma_apply2(m, a, b);
}

/// Replays one action on the model.
pub fn apply_action(fs: &mut FsModel, a: &FsAction)
    requires
        old(fs).wf(),
    ensures
        final(fs).wf(),
        final(fs)@ =~= spec_apply1(old(fs)@, *a),
{
    match a {
        FsAction::CreateDirAll(p) => {
            if !fs.contains_key(p) {
                fs.insert(p.clone(), FsEntry::Dir);
            }
        },
        FsAction::RemoveFile(p) => {
            fs.remove(p);
        },
        FsAction::RemoveAll(p) => {
            fs.remove(p);
        },
        FsAction::Rename(f, t) => {
            let e = match fs.get(f) {
                Some(e) => Some(e.dup()),
                None => None,
            };
            match e {
                Some(e) => {
                    fs.remove(f);
                    fs.insert(t.clone(), e);
                },
                None => {},
            }
        },
        FsAction::MakeLink(s, t) => {
            fs.insert(t.clone(), FsEntry::Symlink(s.clone()));
        },
    }
}

/// Replays a sequence of actions on the model, in order.
pub fn apply_actions(fs: &mut FsModel, acts: &Vec<FsAction>)
    requires
        old(fs).wf(),
    ensures
        final(fs).wf(),
        final(fs)@ =~= spec_apply(old(fs)@, acts@),
{
    let n = acts.len();
    let mut i: usize = 0;
    proof {
        assert(acts@.subrange(0, 0) =~= Seq::<FsAction>::empty());
    }
    while i < n
        invariant
            i <= n,
            n == acts@.len(),
            fs.wf(),
            fs@ =~= spec_apply(old(fs)@, acts@.subrange(0, i as int)),
        decreases n - i,
    {
        apply_action(fs, &acts[i]);
        i = i + 1;
        proof {
            assert(acts@.subrange(0, i as int).drop_last() =~= acts@.subrange(0, i - 1 as int));
        }
    }
    proof {
        assert(acts@.subrange(0, n as int) =~= acts@);
    }
}

} // verus!
