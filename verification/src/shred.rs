//! Secure deletion: what is to be done to a file so that its old bytes
//! are overwritten before its name goes away.

use vstd::prelude::*;
use crate::progress::{percent_of, percentage};

verus! {

/// The most that is overwritten in one write: 16 MiB.
pub const SHRED_CHUNK: u64 = 0x100_0000;

/// How far apart progress reports of one file are, in percent.
pub const REPORT_EVERY: u8 = 5;

/// One step of shredding a file.
#[derive(Clone, Copy, Debug, PartialEq, Eq, Structural)]
pub enum ShredStep {
    /// Write `len` fresh random bytes over the next `len` bytes of the
    /// file; where `report` holds a percentage, report it afterwards.
    Overwrite { len: u64, report: Option<u8> },
    /// Flush what was written through to the storage.
    Sync,
    /// Give the file a fresh random name in its directory, then remove
    /// it; where renaming fails, remove it under its own name.
    RenameAndUnlink,
    /// Remove the file as it is.
    Unlink,
}

/// How many bytes the next write takes when `left` bytes are left.
pub open spec fn next_write(left: u64) -> u64 {
    if left < SHRED_CHUNK {
        left
    } else {
        SHRED_CHUNK
    }
}

/// What is reported after `written` of `len` bytes, when `last` was
/// reported last: the percentage, where it is at least five above `last`.
pub open spec fn report_after(written: u64, len: u64, last: u8) -> Option<u8> {
    if percent_of(written, len) >= last + REPORT_EVERY {
        Some(percent_of(written, len) as u8)
    } else {
        None
    }
}

/// The percentage reported last after a step.
pub open spec fn last_after(report: Option<u8>, last: u8) -> u8 {
    match report {
        Some(p) => p,
        None => last,
    }
}

/// The writes that overwrite a file of `len` bytes from `written` on.
pub open spec fn overwrites(len: u64, written: u64, last: u8) -> Seq<ShredStep>
    decreases len - written,
{
    if written >= len {
        Seq::empty()
    } else {
        let n = next_write((len - written) as u64);
        let after = (written + n) as u64;
        let report = report_after(after, len, last);
        seq![ShredStep::Overwrite { len: n, report }] + overwrites(len, after, last_after(report, last))
    }
}

/// What is done to a file of `len` bytes. On flash-backed storage the
/// file is only removed: overwriting would wear the storage and promise
/// what it cannot keep. Elsewhere a file that holds bytes is overwritten
/// in full and flushed; then every file is renamed and removed.
pub open spec fn shred_plan(len: u64, flash: bool) -> Seq<ShredStep> {
    if flash {
        seq![ShredStep::Unlink]
    } else if len == 0 {
        seq![ShredStep::RenameAndUnlink]
    } else {
        overwrites(len, 0, 0) + seq![ShredStep::Sync, ShredStep::RenameAndUnlink]
    }
}

/// How many bytes the overwriting steps of `steps` write together.
pub open spec fn bytes_written(steps: Seq<ShredStep>) -> int
    decreases steps.len(),
{
    if steps.len() == 0 {
        0
    } else {
        bytes_written(steps.drop_last()) + (match steps.last() {
            ShredStep::Overwrite { len, .. } => len as int,
            _ => 0,
        })
    }
}

/// Whether a step removes the file.
pub open spec fn removes(step: ShredStep) -> bool {
    step == ShredStep::RenameAndUnlink || step == ShredStep::Unlink
}

/// Writes that overwrite the rest of a file write as many bytes as are
/// left, each write at most 16 MiB and none empty.
pub proof fn lemma_overwrites_cover(len: u64, written: u64, last: u8)
    requires
        written <= len,
    ensures
        bytes_written(overwrites(len, written, last)) == len - written,
        forall|i: int|
            0 <= i < overwrites(len, written, last).len() ==> (#[trigger] overwrites(
                len,
                written,
                last,
            )[i] matches ShredStep::Overwrite { len: n, .. } && 0 < n <= SHRED_CHUNK),
    decreases len - written,
{
    if written < len {
        let n = next_write((len - written) as u64);
        let after = (written + n) as u64;
        let report = report_after(after, len, last);
        let first = seq![ShredStep::Overwrite { len: n, report }];
        let rest = overwrites(len, after, last_after(report, last));
        lemma_overwrites_cover(len, after, last_after(report, last));
        lemma_bytes_written_concat(first, rest);
        assert(first.drop_last() =~= Seq::<ShredStep>::empty());
        reveal_with_fuel(bytes_written, 2);
        assert(bytes_written(first) == n);
        assert forall|i: int| 0 <= i < (first + rest).len() implies (#[trigger] (first + rest)[i] matches ShredStep::Overwrite {
            len: m,
            ..
        } && 0 < m <= SHRED_CHUNK) by {
            if i > 0 {
                assert((first + rest)[i] == rest[i - 1]);
            }
        }
    }
}

/// The bytes written by two runs of steps add up.
pub proof fn lemma_bytes_written_concat(a: Seq<ShredStep>, b: Seq<ShredStep>)
    ensures
        bytes_written(a + b) == bytes_written(a) + bytes_written(b),
    decreases b.len(),
{
    if b.len() == 0 {
        assert(a + b =~= a);
    } else {
        assert((a + b).drop_last() =~= a + b.drop_last());
        lemma_bytes_written_concat(a, b.drop_last());
    }
}

/// Every plan ends by removing the file, and nothing comes after that;
/// away from flash storage the plan overwrites every byte of the file
/// before.
pub proof fn lemma_plan_removes_file(len: u64, flash: bool)
    ensures
        shred_plan(len, flash).len() >= 1,
        removes(shred_plan(len, flash).last()),
        forall|i: int| 0 <= i < shred_plan(len, flash).len() - 1 ==> !removes(#[trigger] shred_plan(len, flash)[i]),
        !flash ==> bytes_written(shred_plan(len, flash)) == len,
        flash ==> bytes_written(shred_plan(len, flash)) == 0,
{
    reveal_with_fuel(bytes_written, 3);
    if flash {
        assert(seq![ShredStep::Unlink].drop_last() =~= Seq::<ShredStep>::empty());
    } else if len == 0 {
        assert(seq![ShredStep::RenameAndUnlink].drop_last() =~= Seq::<ShredStep>::empty());
    } else {
        let writes = overwrites(len, 0, 0);
        let tail = seq![ShredStep::Sync, ShredStep::RenameAndUnlink];
        lemma_overwrites_cover(len, 0, 0);
        lemma_bytes_written_concat(writes, tail);
        assert(tail.drop_last() =~= seq![ShredStep::Sync]);
        assert(seq![ShredStep::Sync].drop_last() =~= Seq::<ShredStep>::empty());
        assert(bytes_written(tail) == 0);
        assert forall|i: int| 0 <= i < shred_plan(len, flash).len() - 1 implies !removes(
            #[trigger] shred_plan(len, flash)[i],
        ) by {
            if i < writes.len() {
                assert(shred_plan(len, flash)[i] == writes[i]);
            }
        }
    }
}

/// Plans the shredding of a file of `len` bytes.
pub fn plan_file_shred(len: u64, flash: bool) -> (plan: Vec<ShredStep>)
    ensures
        plan@ == shred_plan(len, flash),
{
    let mut plan: Vec<ShredStep> = Vec::new();
    if flash {
        plan.push(ShredStep::Unlink);
        assert(plan@ =~= shred_plan(len, flash));
        return plan;
    }
    let mut written: u64 = 0;
    let mut last: u8 = 0;
    assert(plan@ + overwrites(len, written, last) =~= overwrites(len, 0, 0));
    while written < len
        invariant
            written <= len,
            last <= 100,
            plan@ + overwrites(len, written, last) == overwrites(len, 0, 0),
        decreases len - written,
    {
        let left = len - written;
        let n = if left < SHRED_CHUNK { left } else { SHRED_CHUNK };
        let after = written + n;
        let pct = percentage(after, len);
        let report = if pct as u16 >= last as u16 + REPORT_EVERY as u16 { Some(pct) } else { None };
        let ghost before = plan@;
        plan.push(ShredStep::Overwrite { len: n, report });
        proof {
            let next_last = last_after(report, last);
            assert(before + (seq![ShredStep::Overwrite { len: n, report }] + overwrites(len, after, next_last))
                =~= plan@ + overwrites(len, after, next_last));
        }
        match report {
            Some(p) => {
                last = p;
            },
            None => {},
        }
        written = after;
    }
    if len > 0 {
        plan.push(ShredStep::Sync);
    }
    plan.push(ShredStep::RenameAndUnlink);
    proof {
        assert(overwrites(len, written, last) =~= Seq::<ShredStep>::empty());
        assert(plan@ =~= shred_plan(len, flash));
    }
    plan
}

/// A file or a directory that is to be shredded, with what the directory
/// holds.
#[derive(Debug)]
pub struct ShredNode {
    /// The path of the entry.
    pub path: String,
    /// Whether the entry is a directory.
    pub is_dir: bool,
    /// The length of a file in bytes.
    pub len: u64,
    /// What a directory holds, in the order it was listed.
    pub children: Vec<ShredNode>,
}

/// One step of shredding a tree.
#[derive(Debug)]
pub enum TreeStep {
    /// Shred the file at this path, in the steps given.
    ShredFile { path: String, steps: Vec<ShredStep> },
    /// Remove the directory at this path. By now it is empty.
    RemoveDir { path: String },
}

/// The mathematical value of a [`TreeStep`].
pub enum TreeStepView {
    ShredFile { path: Seq<char>, steps: Seq<ShredStep> },
    RemoveDir { path: Seq<char> },
}

impl View for TreeStep {
    type V = TreeStepView;

    open spec fn view(&self) -> TreeStepView {
        match self {
            TreeStep::ShredFile { path, steps } => TreeStepView::ShredFile { path: path@, steps: steps@ },
            TreeStep::RemoveDir { path } => TreeStepView::RemoveDir { path: path@ },
        }
    }
}

/// The views of a run of steps.
pub open spec fn step_views(steps: Seq<TreeStep>) -> Seq<TreeStepView> {
    steps.map_values(|s: TreeStep| s@)
}

/// What is done to a tree: a file is shredded; a directory has what it
/// holds dealt with first, entry by entry in order, and is then removed.
pub open spec fn tree_plan(node: ShredNode, flash: bool) -> Seq<TreeStepView>
    decreases node, node.children@.len() + 1,
{
    if node.is_dir {
        forest_plan(node, flash, node.children@.len()) + seq![
            TreeStepView::RemoveDir { path: node.path@ },
        ]
    } else {
        seq![TreeStepView::ShredFile { path: node.path@, steps: shred_plan(node.len, flash) }]
    }
}

/// What is done to the first `count` entries that a directory holds.
pub open spec fn forest_plan(parent: ShredNode, flash: bool, count: nat) -> Seq<TreeStepView>
    decreases parent, count,
{
    if count == 0 || count > parent.children@.len() {
        Seq::empty()
    } else {
        forest_plan(parent, flash, (count - 1) as nat) + tree_plan(parent.children@[count - 1], flash)
    }
}

/// Plans the shredding of a tree.
pub fn plan_tree_shred(node: &ShredNode, flash: bool) -> (plan: Vec<TreeStep>)
    ensures
        step_views(plan@) == tree_plan(*node, flash),
    decreases node,
{
    let mut plan: Vec<TreeStep> = Vec::new();
    if node.is_dir {
        let mut i: usize = 0;
        assert(step_views(plan@) =~= forest_plan(*node, flash, 0));
        while i < node.children.len()
            invariant
                i <= node.children@.len(),
                step_views(plan@) == forest_plan(*node, flash, i as nat),
            decreases node.children@.len() - i,
        {
            let mut part = plan_tree_shred(&node.children[i], flash);
            let ghost before = plan@;
            let ghost added = part@;
            plan.append(&mut part);
            assert(step_views(plan@) =~= step_views(before) + step_views(added));
            i += 1;
        }
        let ghost before = plan@;
        plan.push(TreeStep::RemoveDir { path: node.path.clone() });
        assert(step_views(plan@) =~= step_views(before) + seq![TreeStepView::RemoveDir { path: node.path@ }]);
    } else {
        plan.push(TreeStep::ShredFile { path: node.path.clone(), steps: plan_file_shred(node.len, flash) });
        assert(step_views(plan@) =~= tree_plan(*node, flash));
    }
    plan
}

/// The plan for a directory ends by removing that directory, after
/// everything that is done to what it holds.
pub proof fn lemma_directory_removed_last(node: ShredNode, flash: bool)
    requires
        node.is_dir,
    ensures
        tree_plan(node, flash).len() >= 1,
        tree_plan(node, flash).last() == (TreeStepView::RemoveDir { path: node.path@ }),
{
}

} // verus!
