//! A persistent history tree for linear undo/redo over hierarchical data.
//!
//! The tree is an append-only log of [`Record`]s together with a cursor that
//! separates active history from undone history. Records reference each other
//! by index: `prev` links the versions of one logical node into a chain, and
//! `parent` names the node's structural parent at the time the record was
//! made. Edits (`add`, `change`, `delete`) discard the undone future, append
//! one record and reset the cursor to the latest entry; `undo` and `redo`
//! only move the cursor; `children` reads the log as of the cursor and
//! collapses the version chains so that each logical node shows at most its
//! current version.

use vstd::prelude::*;

pub mod laws;

verus! {

/// One immutable entry in the history log, identified by its position.
#[derive(Clone, Debug, PartialEq, Eq)]
pub struct Record {
    /// Index of the record holding the previous version of the same logical
    /// node. A record whose `prev` equals its own index is an origin record.
    pub prev: usize,
    /// Index of the record that was this node's structural parent when this
    /// record was created.
    pub parent: usize,
    /// Marks this record as a deletion event for its logical node.
    pub remove: bool,
}

/// The mathematical model of a history tree: the record log as a sequence
/// and the cursor, `None` standing for "latest".
#[verifier::ext_equal]
pub ghost struct HistoryModel {
    /// The record log.
    pub records: Seq<Record>,
    /// The fixed cursor, or `None` to track the end of the log.
    pub cursor: Option<int>,
}

/// Every record references only itself or an earlier record as its previous
/// version. This is what makes walking a version chain terminate.
pub open spec fn prev_links_ok(recs: Seq<Record>) -> bool {
    forall|i: int| 0 <= i < recs.len() ==> (#[trigger] recs[i]).prev <= i
}

/// Every non-origin record carries the same parent link as the version it
/// supersedes. The edits of this library keep the log this way: `change` and
/// `delete` copy the parent of the record they point back to.
pub open spec fn parent_stable_chains(recs: Seq<Record>) -> bool {
    forall|i: int|
        0 <= i < recs.len() && (#[trigger] recs[i]).prev != i ==> recs[recs[i].prev as int].parent
            == recs[i].parent
}

/// Whether `target` lies on the version chain that starts at `start` and
/// follows `prev` links backwards until a self-reference is reached.
pub open spec fn in_prev_chain(recs: Seq<Record>, start: int, target: int) -> bool
    decreases start,
        when 0 <= start < recs.len() && prev_links_ok(recs)
{
    if start == target {
        true
    } else if recs[start].prev == start {
        false
    } else {
        in_prev_chain(recs, recs[start].prev as int, target)
    }
}

impl HistoryModel {
    /// Well-formedness: the log starts with the self-referential sentinel
    /// root, every `prev` link points backwards, and a fixed cursor lies
    /// inside the log.
    pub open spec fn wf(self) -> bool {
        &&& self.records.len() >= 1
        &&& self.records[0].prev == 0
        &&& self.records[0].parent == 0
        &&& !self.records[0].remove
        &&& prev_links_ok(self.records)
        &&& match self.cursor {
            Some(c) => 0 <= c < self.records.len(),
            None => true,
        }
    }

    /// The effective cursor: the fixed cursor if set, else the index of the
    /// newest record.
    pub open spec fn cur(self) -> int {
        match self.cursor {
            Some(c) => c,
            None => self.records.len() - 1,
        }
    }

    /// The log after an edit's preamble: the undone future is discarded and
    /// one new record is appended at index `cur() + 1`.
    pub open spec fn appended(self, rec: Record) -> Seq<Record> {
        self.records.take(self.cur() + 1).push(rec)
    }

    /// The model after `add(parent)`: an origin record for a fresh logical
    /// node, cursor back at the latest entry.
    pub open spec fn do_add(self, parent: usize) -> HistoryModel {
        HistoryModel {
            records: self.appended(
                Record { prev: (self.cur() + 1) as usize, parent: parent, remove: false },
            ),
            cursor: None,
        }
    }

    /// The model after `change(node)`: a new version of `node`, keeping the
    /// parent recorded for `node`, cursor back at the latest entry.
    pub open spec fn do_change(self, node: usize) -> HistoryModel {
        HistoryModel {
            records: self.appended(
                Record { prev: node, parent: self.records[node as int].parent, remove: false },
            ),
            cursor: None,
        }
    }

    /// The model after `delete(node)`: a tombstone version of `node`, cursor
    /// back at the latest entry.
    pub open spec fn do_delete(self, node: usize) -> HistoryModel {
        HistoryModel {
            records: self.appended(
                Record { prev: node, parent: self.records[node as int].parent, remove: true },
            ),
            cursor: None,
        }
    }

    /// Record `i` is a candidate child of `parent`: it lies in the active
    /// range and its parent link names `parent` or any earlier version of
    /// `parent` on the version chain.
    pub open spec fn candidate_child(self, parent: int, i: int) -> bool {
        &&& 0 <= parent <= self.cur()
        &&& 1 <= i <= self.cur()
        &&& in_prev_chain(self.records, parent, self.records[i].parent as int)
    }

    /// Record `i` is visible as a child of `parent`: a candidate that is not
    /// a deletion record and is not superseded by any other candidate naming
    /// it as its previous version.
    pub open spec fn visible_child(self, parent: int, i: int) -> bool {
        &&& self.candidate_child(parent, i)
        &&& !self.records[i].remove
        &&& !(exists|c: int|
            #[trigger] self.candidate_child(parent, c) && c != i && self.records[c].prev == i)
    }

    /// The model after `undo`: the cursor fixed one step earlier, clamped at
    /// the sentinel root.
    pub open spec fn do_undo(self) -> HistoryModel {
        HistoryModel {
            records: self.records,
            cursor: Some(if self.cur() > 0 { self.cur() - 1 } else { 0 }),
        }
    }

    /// The model after `redo`: the cursor fixed one step later, or "latest"
    /// once it passes the end of the log; a no-op at "latest".
    pub open spec fn do_redo(self) -> HistoryModel {
        HistoryModel {
            records: self.records,
            cursor: match self.cursor {
                Some(k) => if k + 1 < self.records.len() {
                    Some(k + 1)
                } else {
                    None
                },
                None => None,
            },
        }
    }
}

/// Stores history tree relations: the record log and the history cursor.
#[derive(Clone, Debug, PartialEq, Eq)]
pub struct HistoryTree {
    /// Stores records. Append-only; a suffix is discarded only when an edit
    /// is made while the cursor sits before the end of the log.
    pub records: Vec<Record>,
    /// History cursor. Records at indices up to and including the cursor are
    /// active; later records are invisible. `None` means "latest".
    pub cursor: Option<usize>,
}

impl View for HistoryTree {
    type V = HistoryModel;

    open spec fn view(&self) -> HistoryModel {
        HistoryModel {
            records: self.records@,
            cursor: match self.cursor {
                Some(c) => Some(c as int),
                None => None,
            },
        }
    }
}

impl HistoryTree {
    /// Well-formedness of the tree, stated on its model.
    pub open spec fn wf(self) -> bool {
        self@.wf()
    }

    /// Creates a new history tree holding only the sentinel root record.
    pub fn new() -> (tree: HistoryTree)
        ensures
            tree.wf(),
            tree@.records.len() == 1,
            tree@.records[0] == (Record { prev: 0, parent: 0, remove: false }),
            tree@.cursor is None,
    {
        let mut records: Vec<Record> = Vec::new();
        records.push(Record { prev: 0, parent: 0, remove: false });
        HistoryTree { records, cursor: None }
    }

    /// Gets the root index.
    pub fn root(&self) -> (r: usize)
        ensures
            r == 0,
    {
        0
    }

    /// Gets the effective cursor: the fixed cursor if one is set, else the
    /// index of the newest record.
    pub fn cursor(&self) -> (r: usize)
        requires
            self.wf(),
        ensures
            r == self@.cur(),
    {
        match self.cursor {
            Some(c) => c,
            None => self.records.len() - 1,
        }
    }

    /// Checks the structural invariant at run time.
    ///
    /// Every tree built through `new` and the methods here is well-formed;
    /// this check lets code that assembles or receives a tree by its public
    /// fields establish the invariant before calling the other methods.
    pub fn is_well_formed(&self) -> (r: bool)
        ensures
            r == self.wf(),
    {
        if self.records.len() == 0 {
            return false;
        }
        if self.records[0].prev != 0 || self.records[0].parent != 0 || self.records[0].remove {
            return false;
        }
        let mut i: usize = 0;
        while i < self.records.len()
            invariant
                i <= self.records@.len(),
                forall|k: int| 0 <= k < i ==> (#[trigger] self.records@[k]).prev <= k,
            decreases self.records@.len() - i,
        {
            if self.records[i].prev > i {
                assert(!prev_links_ok(self.records@));
                return false;
            }
            i += 1;
        }
        match self.cursor {
            Some(c) => c < self.records.len(),
            None => true,
        }
    }

    /// Whether `target` lies on the version chain starting at `start`.
    ///
    /// Walks `prev` links backwards from `start` until the self-referential
    /// origin record is reached.
    fn chain_contains(&self, start: usize, target: usize) -> (r: bool)
        requires
            self.wf(),
            start < self.records.len(),
        ensures
            r == in_prev_chain(self@.records, start as int, target as int),
    {
        let mut node = start;
        loop
            invariant
                self.wf(),
                node < self.records.len(),
                in_prev_chain(self@.records, start as int, target as int)
                    == in_prev_chain(self@.records, node as int, target as int),
            decreases node,
        {
            if node == target {
                return true;
            }
            let p = self.records[node].prev;
            if p == node {
                return false;
            }
            node = p;
        }
    }

    /// Adds a new node under `parent` and returns its index.
    ///
    /// The undone future, if any, is discarded first, and the returned index
    /// is strictly greater than every index that was active at call time.
    /// The parent index is not validated; an out-of-range parent merely makes
    /// a node that no `children` query discovers.
    pub fn add(&mut self, parent: usize) -> (n: usize)
        requires
            old(self).wf(),
        ensures
            final(self).wf(),
            final(self)@ == old(self)@.do_add(parent),
            n == old(self)@.cur() + 1,
            final(self)@.records.len() == n + 1,
    {
        let cursor = self.cursor();
        assert(cursor < self.records.len());
        self.records.truncate(cursor + 1);
        self.cursor = None;

        let n = self.records.len();
        self.records.push(Record { prev: n, parent: parent, remove: false });
        proof {
            assert(final(self)@ =~= old(self)@.do_add(parent));
        }
        n
    }

    /// Creates a new version of the node at `*node`, keeping its recorded
    /// parent, and writes the new index back into the handle.
    ///
    /// The undone future, if any, is discarded first, and the new handle is
    /// strictly greater than every index that was active at call time.
    pub fn change(&mut self, node: &mut usize)
        requires
            old(self).wf(),
            *old(node) <= old(self)@.cur(),
        ensures
            final(self).wf(),
            final(self)@ == old(self)@.do_change(*old(node)),
            *final(node) == old(self)@.cur() + 1,
            final(self)@.records.len() == *final(node) + 1,
    {
        let cursor = self.cursor();
        assert(cursor < self.records.len());
        self.records.truncate(cursor + 1);
        self.cursor = None;

        let n = self.records.len();
        let parent = self.records[*node].parent;
        self.records.push(Record { prev: *node, parent: parent, remove: false });
        *node = n;
        proof {
            assert(final(self)@ =~= old(self)@.do_change(*old(node)));
        }
    }

    /// Records a deletion of the node at `node`: a tombstone version is
    /// appended, and the node stops appearing in `children` results as of
    /// this point in history.
    ///
    /// The undone future, if any, is discarded first.
    pub fn delete(&mut self, node: usize)
        requires
            old(self).wf(),
            node <= old(self)@.cur(),
        ensures
            final(self).wf(),
            final(self)@ == old(self)@.do_delete(node),
            final(self)@.records.len() == old(self)@.cur() + 2,
    {
        let cursor = self.cursor();
        assert(cursor < self.records.len());
        self.records.truncate(cursor + 1);
        self.cursor = None;

        let parent = self.records[node].parent;
        self.records.push(Record { prev: node, parent: parent, remove: true });
        proof {
            assert(final(self)@ =~= old(self)@.do_delete(node));
        }
    }

    /// Gets the indices of the current children of `parent`, in ascending
    /// order.
    ///
    /// A record is a child of `parent` when its parent link names `parent` or
    /// any earlier version of `parent`; among the versions of one logical
    /// child only the latest active one is returned, and none at all once a
    /// deletion record for it is active. The query reads the log as of the
    /// effective cursor and never modifies the tree.
    pub fn children(&self, parent: usize) -> (result: Vec<usize>)
        requires
            self.wf(),
        ensures
            forall|k: int, l: int| 0 <= k < l < result@.len() ==> result@[k] < result@[l],
            forall|k: int|
                0 <= k < result@.len() ==> self@.visible_child(parent as int, result@[k] as int),
            forall|i: int| self@.visible_child(parent as int, i) ==> result@.contains(i as usize),
    {
        let cursor = self.cursor();
        if cursor < parent {
            return Vec::new();
        }
        let mut result: Vec<usize> = Vec::new();
        let mut i: usize = 1;
        while i <= cursor
            invariant
                self.wf(),
                cursor == self@.cur(),
                parent <= cursor,
                cursor < self.records.len(),
                1 <= i <= cursor + 1,
                forall|k: int, l: int| 0 <= k < l < result@.len() ==> result@[k] < result@[l],
                forall|k: int|
                    0 <= k < result@.len()
                        ==> result@[k] < i && self@.visible_child(
                        parent as int,
                        result@[k] as int,
                    ),
                forall|m: int|
                    1 <= m < i && self@.visible_child(parent as int, m) ==> result@.contains(
                        m as usize,
                    ),
            decreases cursor + 1 - i,
        {
            let is_cand = self.chain_contains(parent, self.records[i].parent);
            if is_cand && !self.records[i].remove {
                let mut superseded = false;
                let mut j: usize = i + 1;
                while j <= cursor
                    invariant
                        self.wf(),
                        cursor == self@.cur(),
                        parent <= cursor,
                        cursor < self.records.len(),
                        1 <= i <= cursor,
                        i < j <= cursor + 1,
                        superseded == (exists|c: int|
                            i < c < j && #[trigger] self@.candidate_child(parent as int, c)
                                && self@.records[c].prev == i),
                    decreases cursor + 1 - j,
                {
                    if self.records[j].prev == i && self.chain_contains(
                        parent,
                        self.records[j].parent,
                    ) {
                        superseded = true;
                        proof {
                            assert(self@.candidate_child(parent as int, j as int));
                        }
                    }
                    j += 1;
                }
                if !superseded {
                    proof {
                        assert forall|c: int|
                            #[trigger] self@.candidate_child(parent as int, c) && c != i
                                implies self@.records[c].prev != i by {
                            if c <= i {
                                assert(self@.records[c].prev <= c);
                            } else {
                                assert(!(i < c < cursor + 1 && self@.candidate_child(
                                    parent as int,
                                    c,
                                ) && self@.records[c].prev == i));
                            }
                        }
                        assert(self@.visible_child(parent as int, i as int));
                    }
                    let ghost before = result@;
                    result.push(i);
                    proof {
                        assert forall|m: int|
                            1 <= m < i + 1 && self@.visible_child(parent as int, m)
                                implies result@.contains(m as usize) by {
                            if m < i {
                                let k = choose|k: int|
                                    0 <= k < before.len() && before[k] == m as usize;
                                assert(result@[k] == m as usize);
                            } else {
                                assert(result@[result@.len() - 1] == i);
                            }
                        }
                    }
                } else {
                    proof {
                        let c = choose|c: int|
                            i < c < cursor + 1 && #[trigger] self@.candidate_child(
                                parent as int,
                                c,
                            ) && self@.records[c].prev == i;
                        assert(!self@.visible_child(parent as int, i as int));
                    }
                }
            } else {
                proof {
                    assert(!self@.visible_child(parent as int, i as int));
                }
            }
            i += 1;
        }
        result
    }

    /// Goes back one step in history by moving the cursor; no record is
    /// touched. At the sentinel root this is a no-op.
    pub fn undo(&mut self)
        requires
            old(self).wf(),
        ensures
            final(self).wf(),
            final(self)@ == old(self)@.do_undo(),
            final(self)@.records == old(self)@.records,
            final(self)@.cur() == (if old(self)@.cur() > 0 { old(self)@.cur() - 1 } else { 0int }),
    {
        self.cursor = match self.cursor {
            Some(index) => {
                if index > 0 {
                    Some(index - 1)
                } else {
                    Some(0)
                }
            },
            None => {
                if self.records.len() >= 2 {
                    Some(self.records.len() - 2)
                } else {
                    Some(0)
                }
            },
        };
        proof {
            assert(final(self)@ =~= old(self)@.do_undo());
        }
    }

    /// Goes forward one step in history by moving the cursor; no record is
    /// touched. At the latest entry this is a no-op.
    pub fn redo(&mut self)
        requires
            old(self).wf(),
        ensures
            final(self).wf(),
            final(self)@ == old(self)@.do_redo(),
            final(self)@.records == old(self)@.records,
    {
        self.cursor = match self.cursor {
            Some(index) => {
                assert(index < self.records.len());
                if index + 1 >= self.records.len() {
                    None
                } else {
                    Some(index + 1)
                }
            },
            None => None,
        };
        proof {
            assert(final(self)@ =~= old(self)@.do_redo());
        }
    }
}

} // verus!
