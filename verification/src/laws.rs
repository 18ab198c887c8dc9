//! Laws of the history tree, stated and proved on its model: what edits do
//! to the undone future, how `change` and `delete` show up in `children`
//! queries, and how `undo` and `redo` relate.

use vstd::prelude::*;
use crate::HistoryModel;
use crate::Record;
use crate::in_prev_chain;
use crate::parent_stable_chains;
use crate::prev_links_ok;

verus! {

/// Walking a version chain that starts inside `[0, bound]` reads only
/// records in that range: two logs that agree there agree on the walk.
proof fn lemma_chain_depends_on_prefix(
    recs1: Seq<Record>,
    recs2: Seq<Record>,
    bound: int,
    start: int,
    target: int,
)
    requires
        prev_links_ok(recs1),
        prev_links_ok(recs2),
        0 <= start <= bound,
        bound < recs1.len(),
        bound < recs2.len(),
        recs1.take(bound + 1) == recs2.take(bound + 1),
    ensures
        in_prev_chain(recs1, start, target) == in_prev_chain(recs2, start, target),
    decreases start,
{
    assert(recs1.take(bound + 1)[start] == recs1[start]);
    assert(recs2.take(bound + 1)[start] == recs2[start]);
    assert(recs1[start] == recs2[start]);
    if start != target && recs1[start].prev != start {
        lemma_chain_depends_on_prefix(recs1, recs2, bound, recs1[start].prev as int, target);
    }
}

/// Law: visibility of a child depends only on the active records. Two
/// well-formed models with the same effective cursor whose logs agree on the
/// active range answer every `children` query identically; records beyond
/// the cursor can neither add nor hide a child.
pub proof fn lemma_visible_child_depends_on_active(
    m1: HistoryModel,
    m2: HistoryModel,
    parent: int,
    i: int,
)
    requires
        m1.wf(),
        m2.wf(),
        m1.cur() == m2.cur(),
        m1.records.take(m1.cur() + 1) == m2.records.take(m2.cur() + 1),
    ensures
        m1.visible_child(parent, i) == m2.visible_child(parent, i),
{
    let cursor = m1.cur();
    assert forall|c: int| 0 <= c <= cursor implies m1.records[c] == m2.records[c] by {
        assert(m1.records.take(cursor + 1)[c] == m2.records.take(cursor + 1)[c]);
    }
    assert forall|c: int|
        #![trigger m1.candidate_child(parent, c)]
        #![trigger m2.candidate_child(parent, c)]
        m1.candidate_child(parent, c) == m2.candidate_child(parent, c) by {
        if 0 <= parent <= cursor && 1 <= c <= cursor {
            lemma_chain_depends_on_prefix(
                m1.records,
                m2.records,
                cursor,
                parent,
                m1.records[c].parent as int,
            );
        }
    }
    if exists|c: int|
        #[trigger] m1.candidate_child(parent, c) && c != i && m1.records[c].prev == i {
        let c = choose|c: int|
            #[trigger] m1.candidate_child(parent, c) && c != i && m1.records[c].prev == i;
        assert(m2.candidate_child(parent, c) && c != i && m2.records[c].prev == i);
    }
    if exists|c: int|
        #[trigger] m2.candidate_child(parent, c) && c != i && m2.records[c].prev == i {
        let c = choose|c: int|
            #[trigger] m2.candidate_child(parent, c) && c != i && m2.records[c].prev == i;
        assert(m1.candidate_child(parent, c) && c != i && m1.records[c].prev == i);
    }
}

/// Law: an edit discards the undone future. After `add` the log holds
/// exactly the records that were active at call time plus the new record,
/// and a following `redo` is a no-op: there is nothing left to redo.
pub proof fn lemma_edit_discards_future(m: HistoryModel, parent: usize)
    requires
        m.wf(),
    ensures
        m.do_add(parent).records.len() == m.cur() + 2,
        forall|i: int| 0 <= i <= m.cur() ==> m.do_add(parent).records[i] == m.records[i],
        m.do_add(parent).do_redo() == m.do_add(parent),
{
    assert(m.do_add(parent).do_redo() =~= m.do_add(parent));
}

/// Law: a change preserves parent linkage. After `change(node)` the new
/// handle is a visible child of the node's recorded parent, while the old
/// handle is hidden, superseded by the new version.
pub proof fn lemma_change_preserves_linkage(m: HistoryModel, node: usize)
    requires
        m.wf(),
        1 <= node <= m.cur(),
        m.records[node as int].parent <= node,
    ensures
        m.do_change(node).visible_child(m.records[node as int].parent as int, m.cur() + 1),
        !m.do_change(node).visible_child(m.records[node as int].parent as int, node as int),
{
    let m1 = m.do_change(node);
    let p = m.records[node as int].parent as int;
    let n = m.cur() + 1;
    assert forall|i: int| 0 <= i < m1.records.len() implies (#[trigger] m1.records[i]).prev
        <= i by {
        if i < n {
            assert(m1.records[i] == m.records[i]);
        }
    }
    assert(m1.records[n].parent == p);
    assert(in_prev_chain(m1.records, p, p));
    assert(m1.candidate_child(p, n));
    assert forall|c: int| #[trigger] m1.candidate_child(p, c) && c != n
        implies m1.records[c].prev != n by {
        assert(m1.records[c].prev <= c);
    }
    assert(m1.visible_child(p, n));
    assert(m1.candidate_child(p, n) && n != node && m1.records[n].prev == node);
    assert(!m1.visible_child(p, node as int));
}

/// Law: a delete hides the node. After `delete(node)` neither the node nor
/// the tombstone record is a visible child of the node's recorded parent,
/// and a single `undo` restores every `children` query to what it answered
/// before the delete, so the node reappears wherever it was visible.
pub proof fn lemma_delete_hides_node(m: HistoryModel, node: usize)
    requires
        m.wf(),
        1 <= node <= m.cur(),
        m.records[node as int].parent <= node,
    ensures
        !m.do_delete(node).visible_child(m.records[node as int].parent as int, node as int),
        !m.do_delete(node).visible_child(m.records[node as int].parent as int, m.cur() + 1),
        forall|p: int, i: int|
            (#[trigger] m.do_delete(node).do_undo().visible_child(p, i)) == m.visible_child(p, i),
{
    let m1 = m.do_delete(node);
    let p = m.records[node as int].parent as int;
    let n = m.cur() + 1;
    assert forall|i: int| 0 <= i < m1.records.len() implies (#[trigger] m1.records[i]).prev
        <= i by {
        if i < n {
            assert(m1.records[i] == m.records[i]);
        }
    }
    assert(m1.records[n].parent == p);
    assert(in_prev_chain(m1.records, p, p));
    assert(m1.candidate_child(p, n) && n != node && m1.records[n].prev == node);
    assert(!m1.visible_child(p, node as int));
    assert(m1.records[n].remove);
    assert(!m1.visible_child(p, n));

    let m2 = m1.do_undo();
    assert(m2.cur() == m.cur());
    assert(m2.records.take(m.cur() + 1) =~= m.records.take(m.cur() + 1));
    assert forall|q: int, i: int|
        (#[trigger] m2.visible_child(q, i)) == m.visible_child(q, i) by {
        lemma_visible_child_depends_on_active(m2, m, q, i);
    }
}

/// Law: among the visible children of one parent, no entry is the previous
/// version of another; each logical node contributes at most its latest
/// active version to a `children` result.
pub proof fn lemma_visible_children_distinct_versions(
    m: HistoryModel,
    parent: int,
    a: int,
    b: int,
)
    requires
        m.wf(),
        m.visible_child(parent, a),
        m.visible_child(parent, b),
        a != b,
    ensures
        m.records[a].prev != b,
        m.records[b].prev != a,
{
    if m.records[b].prev == a {
        assert(m.candidate_child(parent, b) && b != a && m.records[b].prev == a);
    }
    if m.records[a].prev == b {
        assert(m.candidate_child(parent, a) && a != b && m.records[a].prev == b);
    }
}

/// In a log with parent-stable chains, a candidate child whose version chain
/// passes through `a` on the way down supersedes `a`: some candidate on that
/// chain names `a` as its previous version, so `a` is not visible.
proof fn lemma_chain_descendant_hides(m: HistoryModel, parent: int, start: int, a: int)
    requires
        m.wf(),
        parent_stable_chains(m.records),
        m.candidate_child(parent, start),
        in_prev_chain(m.records, start, a),
        start != a,
        1 <= a,
    ensures
        !m.visible_child(parent, a),
    decreases start,
{
    let x = m.records[start].prev as int;
    assert(x != start);
    assert(in_prev_chain(m.records, x, a));
    if x == a {
        assert(m.candidate_child(parent, start) && start != a && m.records[start].prev == a);
    } else {
        if x == 0 {
            assert(!in_prev_chain(m.records, 0, a));
        }
        assert(m.records[x].parent == m.records[start].parent);
        assert(m.candidate_child(parent, x));
        lemma_chain_descendant_hides(m, parent, x, a);
    }
}

/// Law: a `children` result lists at most one version per logical node. In a
/// log with parent-stable chains — and every edit of this library keeps the
/// chains parent-stable — no visible child of a parent is an earlier version
/// of another of its visible children.
pub proof fn lemma_one_version_per_node(m: HistoryModel, parent: int, a: int, b: int)
    requires
        m.wf(),
        parent_stable_chains(m.records),
        m.visible_child(parent, a),
        m.visible_child(parent, b),
        a != b,
    ensures
        !in_prev_chain(m.records, b, a),
{
    if in_prev_chain(m.records, b, a) {
        lemma_chain_descendant_hides(m, parent, b, a);
    }
}

/// Law: every edit keeps the version chains parent-stable: the record that
/// `change` or `delete` appends copies the parent of the record it points
/// back to, `add` appends an origin record, and truncation only drops a
/// suffix. `undo` and `redo` do not touch the log at all.
pub proof fn lemma_edits_preserve_parent_stability(m: HistoryModel, parent: usize, node: usize)
    requires
        m.wf(),
        m.records.len() <= usize::MAX,
        parent_stable_chains(m.records),
        node <= m.cur(),
    ensures
        parent_stable_chains(m.do_add(parent).records),
        parent_stable_chains(m.do_change(node).records),
        parent_stable_chains(m.do_delete(node).records),
        parent_stable_chains(m.do_undo().records),
        parent_stable_chains(m.do_redo().records),
{
    let n = m.cur() + 1;
    lemma_appended_parent_stable(
        m,
        Record { prev: n as usize, parent: parent, remove: false },
    );
    lemma_appended_parent_stable(
        m,
        Record { prev: node, parent: m.records[node as int].parent, remove: false },
    );
    lemma_appended_parent_stable(
        m,
        Record { prev: node, parent: m.records[node as int].parent, remove: true },
    );
}

/// Appending one record whose `prev` names an active record with the same
/// parent link, or itself, keeps the chains parent-stable.
proof fn lemma_appended_parent_stable(m: HistoryModel, rec: Record)
    requires
        m.wf(),
        parent_stable_chains(m.records),
        rec.prev <= m.cur() + 1,
        rec.prev <= m.cur() ==> m.records[rec.prev as int].parent == rec.parent,
    ensures
        parent_stable_chains(m.appended(rec)),
{
    let recs1 = m.appended(rec);
    let n = m.cur() + 1;
    assert forall|i: int|
        0 <= i < recs1.len() && (#[trigger] recs1[i]).prev != i implies recs1[recs1[i].prev as int].parent
        == recs1[i].parent by {
        if i < n {
            assert(recs1[i] == m.records[i]);
            assert(m.records[i].prev <= i);
            assert(recs1[recs1[i].prev as int] == m.records[m.records[i].prev as int]);
        } else {
            assert(recs1[i] == rec);
            assert(recs1[rec.prev as int] == m.records[rec.prev as int]);
        }
    }
}

/// Law: undo then redo restores the effective cursor, and with it every
/// `children` query, whenever the cursor is not already pinned at the
/// sentinel root of a log that extends beyond it.
pub proof fn lemma_undo_redo_round_trip(m: HistoryModel)
    requires
        m.wf(),
        m.cursor == Some(0int) ==> m.records.len() == 1,
    ensures
        m.do_undo().do_redo().records == m.records,
        m.do_undo().do_redo().cur() == m.cur(),
        forall|p: int, i: int|
            (#[trigger] m.do_undo().do_redo().visible_child(p, i)) == m.visible_child(p, i),
{
    let m2 = m.do_undo().do_redo();
    assert(m2.cur() == m.cur());
    assert forall|p: int, i: int|
        (#[trigger] m2.visible_child(p, i)) == m.visible_child(p, i) by {
        lemma_visible_child_depends_on_active(m2, m, p, i);
    }
}

} // verus!
