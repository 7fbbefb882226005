//! Properties of the session that span several operations: what undo gives
//! back, what every command keeps, how the queue and the panels behave.
use vstd::prelude::*;

use super::actions::{ActionConfig, DecisionSide, DecisionState};
use super::sorting::{SortDirection, SortKey, SortMode, is_index_permutation, is_stable_sort};
use super::state::{
    AppModel, ImageEntry, NavEntryKind, NavModel, count_side, decided_entry, first_image_with_id, first_position_of, keeps_file,
    lemma_count_side_bound, lemma_queue_bound, lemma_reindexed, queue_of, reindexed, unqueued_entry,
};
use super::undo::{UndoAction, UndoEntry};
use super::state::{NavDirection, apply_list, first_undecided_from, last_undecided_before};

verus! {

/// No two images share an id.
pub open spec fn distinct_ids(images: Seq<ImageEntry>) -> bool {
    forall|i: int, j: int| 0 <= i < j < images.len() ==> images[i].id != images[j].id
}

/// No image stands twice in the order.
pub open spec fn distinct_positions(order: Seq<usize>) -> bool {
    forall|i: int, j: int| 0 <= i < j < order.len() ==> order[i] != order[j]
}

proof fn lemma_first_image_is(images: Seq<ImageEntry>, k: int, start: int)
    requires
        distinct_ids(images),
        0 <= start <= k < images.len(),
    ensures
        first_image_with_id(images, images[k].id, start) == Some(k),
    decreases k - start,
{
    if start < k {
        lemma_first_image_is(images, k, start + 1);
    }
}

proof fn lemma_first_position_is(images: Seq<ImageEntry>, order: Seq<usize>, p: int, start: int)
    requires
        distinct_ids(images),
        distinct_positions(order),
        forall|i: int| 0 <= i < order.len() ==> (#[trigger] order[i]) < images.len(),
        0 <= start <= p < order.len(),
    ensures
        first_position_of(images, order, images[order[p] as int].id, start) == Some(p),
    decreases p - start,
{
    if start < p {
        assert(order[start] != order[p]);
        if order[start] < order[p] {
            assert(images[order[start] as int].id != images[order[p] as int].id);
        } else {
            assert(images[order[p] as int].id != images[order[start] as int].id);
        }
        lemma_first_position_is(images, order, p, start + 1);
    }
}

/// Two lists of images that agree on ids and on which images have a queued
/// action give the same queue for any order.
proof fn lemma_queue_of_agree(a: Seq<ImageEntry>, b: Seq<ImageEntry>, order: Seq<usize>)
    requires
        a.len() == b.len(),
        forall|k: int|
            0 <= k < a.len() ==> (#[trigger] a[k]).id == b[k].id && (a[k].queued_action is Some) == (
            b[k].queued_action is Some),
    ensures
        queue_of(a, order) == queue_of(b, order),
    decreases order.len(),
{
    if order.len() > 0 {
        lemma_queue_of_agree(a, b, order.drop_last());
    }
}

/// Undo gives back what a decision changed: deciding the current image and
/// then undoing with the entry the decision describes restores the image's
/// decision and queued action, brings the cursor back to it, rebuilds the
/// queue as it was and leaves the undo history as it was. Only the rename
/// number the decision may have drawn stays with the image. Stated for images
/// with distinct ids, each listed at most once.
pub proof fn law_undo_reverts_decision(m: AppModel, side: DecisionSide, undo_action: Option<UndoAction>)
    requires
        m.wf(),
        m.images.len() <= usize::MAX,
        m.current_image() is Some,
        distinct_ids(m.images),
        distinct_positions(m.order),
    ensures
        ({
            let e = m.current_image()->0;
            let idx = m.current_index()->0 as int;
            let entry = UndoEntry {
                image_id: e.id,
                previous_decision: e.decision,
                previous_queue: e.queued_action,
                previous_cursor: m.cursor,
                undo_action,
            };
            let decided = m.decided(side);
            let after = AppModel { undo_stack: decided.undo_stack.push(entry), ..decided }.undone();
            &&& after.undo_stack == m.undo_stack
            &&& after.order == m.order
            &&& after.cursor == m.cursor
            &&& after.current_id() == Some(e.id)
            &&& after.images.len() == m.images.len()
            &&& forall|i: int| 0 <= i < m.images.len() && i != idx ==> after.images[i] == m.images[i]
            &&& after.images[idx] == ImageEntry { rename_sequence: after.images[idx].rename_sequence, ..e }
            &&& after.queued_ids == queue_of(m.images, m.order)
            &&& after.projection.left_action_count == count_side(m.images, DecisionSide::Left)
            &&& after.projection.right_action_count == count_side(m.images, DecisionSide::Right)
            &&& after.projection.queue_count == queue_of(m.images, m.order).len()
            &&& counters_agree(m) ==> {
                &&& after.queued_ids == m.queued_ids
                &&& after.projection.left_action_count == m.projection.left_action_count
                &&& after.projection.right_action_count == m.projection.right_action_count
                &&& after.projection.queue_count == m.projection.queue_count
            }
        }),
{
    let e = m.current_image()->0;
    let idx = m.current_index()->0 as int;
    let entry = UndoEntry {
        image_id: e.id,
        previous_decision: e.decision,
        previous_queue: e.queued_action,
        previous_cursor: m.cursor,
        undo_action,
    };
    let action = m.action_mapping.spec_for(side);
    let takes = m.takes_rename_number(side);
    let seq = if takes { Some(m.rename_counter) } else { e.rename_sequence };
    let decided = m.decided(side);
    assert(decided.images == m.images.update(idx, decided_entry(e, side, action, m.queue_mode, seq)));
    assert(decided.order == m.order);
    assert(decided.undo_stack == m.undo_stack);
    assert(distinct_ids(decided.images)) by {
        assert forall|i: int, j: int| 0 <= i < j < decided.images.len() implies decided.images[i].id
            != decided.images[j].id by {
            assert(decided.images[i].id == m.images[i].id);
            assert(decided.images[j].id == m.images[j].id);
        }
    }
    let s = AppModel { undo_stack: decided.undo_stack.push(entry), ..decided };
    assert(s.undo_stack.drop_last() =~= m.undo_stack);
    assert(s.undo_stack.last() == entry);
    let s1 = AppModel { undo_stack: s.undo_stack.drop_last(), ..s };
    lemma_first_image_is(decided.images, idx, 0);
    let r = s1.undo_restored(entry);
    let restored = ImageEntry { decision: e.decision, queued_action: e.queued_action, ..decided.images[idx] };
    assert(r.images == decided.images.update(idx, restored));
    assert(distinct_ids(r.images)) by {
        assert forall|i: int, j: int| 0 <= i < j < r.images.len() implies r.images[i].id != r.images[j].id by {
            assert(r.images[i].id == m.images[i].id);
            assert(r.images[j].id == m.images[j].id);
        }
    }
    assert(r.images[m.order[m.cursor as int] as int].id == e.id);
    lemma_first_position_is(r.images, r.order, m.cursor as int, 0);
    let f = r.undo_refocused(entry);
    assert(f.cursor == m.cursor);
    assert(f.images == r.images);
    assert(f.order == m.order);
    lemma_queue_of_agree(f.images, m.images, m.order);
    lemma_count_side_agree(f.images, m.images, DecisionSide::Left);
    lemma_count_side_agree(f.images, m.images, DecisionSide::Right);
    lemma_count_side_bound(m.images, DecisionSide::Left);
    lemma_count_side_bound(m.images, DecisionSide::Right);
    lemma_queue_bound(m.images, m.order);
}

/// Two lists of images that agree on every decision give the same counts.
proof fn lemma_count_side_agree(a: Seq<ImageEntry>, b: Seq<ImageEntry>, side: DecisionSide)
    requires
        a.len() == b.len(),
        forall|k: int| 0 <= k < a.len() ==> (#[trigger] a[k]).decision == b[k].decision,
    ensures
        count_side(a, side) == count_side(b, side),
    decreases a.len(),
{
    if a.len() > 0 {
        lemma_count_side_agree(a.drop_last(), b.drop_last(), side);
    }
}

/// The queue and the counters agree with the images: the queue lists the ids
/// of the queued images in sort order, and the counters count the decisions
/// for each side and the queue.
pub open spec fn counters_agree(m: AppModel) -> bool {
    &&& m.queued_ids == queue_of(m.images, m.order)
    &&& m.projection.left_action_count == count_side(m.images, DecisionSide::Left)
    &&& m.projection.right_action_count == count_side(m.images, DecisionSide::Right)
    &&& m.projection.queue_count == m.queued_ids.len()
}

proof fn lemma_counted(m: AppModel)
    requires
        m.order.len() <= m.images.len() <= usize::MAX,
    ensures
        counters_agree(m.with_queue().with_counters()),
{
    lemma_count_side_bound(m.images, DecisionSide::Left);
    lemma_count_side_bound(m.images, DecisionSide::Right);
    lemma_queue_bound(m.images, m.order);
}

/// Deciding the current image keeps the queue and the counters in agreement
/// with the images.
pub proof fn law_decision_keeps_counters(m: AppModel, side: DecisionSide)
    requires
        m.wf(),
        m.images.len() <= usize::MAX,
        m.current_image() is Some,
    ensures
        counters_agree(m.decided(side)),
{
    let idx = m.current_index()->0 as int;
    let e = m.images[idx];
    let action = m.action_mapping.spec_for(side);
    let takes = m.takes_rename_number(side);
    let seq = if takes { Some(m.rename_counter) } else { e.rename_sequence };
    let m1 = AppModel {
        images: m.images.update(idx, decided_entry(e, side, action, m.queue_mode, seq)),
        rename_counter: if takes { (m.rename_counter + 1) as u64 } else { m.rename_counter },
        ..m
    };
    lemma_counted(m1);
}

/// Undoing keeps the queue and the counters in agreement with the images.
pub proof fn law_undo_keeps_counters(m: AppModel)
    requires
        m.wf(),
        m.images.len() <= usize::MAX,
        m.undo_stack.len() > 0,
    ensures
        counters_agree(m.undone()),
{
    let undo = m.undo_stack.last();
    let m1 = AppModel { undo_stack: m.undo_stack.drop_last(), ..m };
    crate::domain::state::lemma_first_image_in_range(m1.images, undo.image_id, 0);
    let r = m1.undo_restored(undo);
    let f = r.undo_refocused(undo);
    assert(f.images.len() == m.images.len());
    assert(f.order == m.order);
    lemma_counted(f);
}

proof fn lemma_queue_of_unqueued(images: Seq<ImageEntry>, order: Seq<usize>)
    requires
        forall|k: int| 0 <= k < images.len() ==> (#[trigger] images[k]).queued_action is None,
    ensures
        queue_of(images, order) == Seq::<u64>::empty(),
    decreases order.len(),
{
    if order.len() > 0 {
        lemma_queue_of_unqueued(images, order.drop_last());
    }
}

proof fn lemma_count_side_undecided(images: Seq<ImageEntry>, side: DecisionSide)
    requires
        forall|k: int| 0 <= k < images.len() ==> (#[trigger] images[k]).decision is Undecided,
    ensures
        count_side(images, side) == 0,
    decreases images.len(),
{
    if images.len() > 0 {
        lemma_count_side_undecided(images.drop_last(), side);
    }
}

/// Resetting the queue leaves every image undecided, with no queued action
/// and no rename number, empties the queue and the undo history, and zeroes
/// the counters.
pub proof fn law_reset_clears_everything(m: AppModel)
    requires
        m.wf(),
    ensures
        ({
            let r = m.queue_reset();
            &&& counters_agree(r)
            &&& r.queued_ids.len() == 0
            &&& r.undo_stack.len() == 0
            &&& r.projection.left_action_count == 0
            &&& r.projection.right_action_count == 0
            &&& r.projection.queue_count == 0
            &&& r.images.len() == m.images.len()
            &&& forall|k: int| 0 <= k < r.images.len() ==> {
                &&& (#[trigger] r.images[k]).decision is Undecided
                &&& r.images[k].queued_action is None
                &&& r.images[k].rename_sequence is None
                &&& r.images[k].id == m.images[k].id
                &&& r.images[k].path == m.images[k].path
            }
        }),
{
    let r = m.queue_reset();
    lemma_queue_of_unqueued(r.images, r.order);
    lemma_count_side_undecided(r.images, DecisionSide::Left);
    lemma_count_side_undecided(r.images, DecisionSide::Right);
}

/// Taking the selected entry out of the queue keeps the queue and the
/// counters in agreement with the images.
pub proof fn law_queue_removal_keeps_counters(m: AppModel)
    requires
        m.wf(),
        m.images.len() <= usize::MAX,
        m.queue_position() is Some,
    ensures
        counters_agree(m.queue_item_removed()),
{
    let p = m.queue_position()->0;
    let id = m.queued_ids[p];
    crate::domain::state::lemma_first_image_in_range(m.images, id, 0);
    let m1 = match first_image_with_id(m.images, id, 0) {
        Some(j) => AppModel {
            images: m.images.update(
                j,
                ImageEntry { decision: DecisionState::Undecided, queued_action: None, ..m.images[j] },
            ),
            ..m
        },
        None => m,
    };
    lemma_counted(m1);
}

/// Deciding the selected queue entry anew keeps the queue and the counters
/// in agreement with the images.
pub proof fn law_override_keeps_counters(m: AppModel, side: DecisionSide)
    requires
        m.wf(),
        m.images.len() <= usize::MAX,
        m.queue_position() matches Some(p) && first_image_with_id(m.images, m.queued_ids[p], 0) is Some,
    ensures
        counters_agree(m.queue_item_overridden(side)),
{
    let p = m.queue_position()->0;
    let j = first_image_with_id(m.images, m.queued_ids[p], 0)->0;
    crate::domain::state::lemma_first_image_in_range(m.images, m.queued_ids[p], 0);
    let e = m.images[j];
    let action = m.action_mapping.spec_for(side);
    let takes = m.override_takes_rename_number(side);
    let seq = if takes { Some(m.rename_counter) } else { e.rename_sequence };
    let m1 = AppModel {
        images: m.images.update(j, decided_entry(e, side, action, true, seq)),
        rename_counter: if takes { (m.rename_counter + 1) as u64 } else { m.rename_counter },
        ..m
    };
    lemma_counted(m1);
}

/// Taking in the result of an applied queue entry keeps the queue and the
/// counters in agreement with the images.
pub proof fn law_applied_result_keeps_counters(m: AppModel, image_id: u64, action: ActionConfig)
    requires
        m.wf(),
        m.images.len() <= usize::MAX,
    ensures
        counters_agree(m.action_result_applied(image_id, action)),
{
    if !keeps_file(action) && first_position_of(m.images, m.order, image_id, 0) is Some {
        let k = first_position_of(m.images, m.order, image_id, 0)->0;
        crate::domain::state::lemma_first_position_in_range(m.images, m.order, image_id, 0);
        let r = m.order[k];
        lemma_reindexed(m.order, r, m.images.len());
        assert(m.order.contains(r));
        let order = reindexed(m.order, r);
        let cursor: usize = if order.len() == 0 {
            0
        } else if m.cursor < order.len() {
            m.cursor
        } else {
            (order.len() - 1) as usize
        };
        let m1 = AppModel {
            images: m.images.remove(r as int),
            order,
            cursor,
            nav_entries: crate::domain::state::without_file_rows(m.nav_entries, image_id),
            ..m
        };
        lemma_counted(m1);
    } else {
        crate::domain::state::lemma_first_image_in_range(m.images, image_id, 0);
        let m1 = match first_image_with_id(m.images, image_id, 0) {
            Some(j) => AppModel {
                images: m.images.update(j, crate::domain::state::unqueued_entry(m.images[j])),
                ..m
            },
            None => m,
        };
        lemma_counted(m1);
    }
}

/// Taking in a new directory listing sets the queue and the counters from the
/// new images.
pub proof fn law_snapshot_sets_counters(
    m: AppModel,
    images: Seq<ImageEntry>,
    root: Option<String>,
    current: Option<String>,
    order: Seq<usize>,
    nav: Seq<NavModel>,
)
    requires
        order.len() <= images.len() <= usize::MAX,
    ensures
        counters_agree(m.snapshot_taken(images, root, current, order, nav)),
{
    let m1 = AppModel {
        root_dir: if root is Some { root } else { m.root_dir },
        current_dir: current,
        images,
        scan_version: if m.scan_version == u64::MAX { u64::MAX } else { (m.scan_version + 1) as u64 },
        order,
        cursor: 0,
        undo_stack: Seq::empty(),
        rename_counter: 1,
        nav_entries: nav,
        ..m
    };
    lemma_counted(m1);
}

/// The positions in `order` of the entries of the queue, in queue order.
proof fn lemma_queue_positions(images: Seq<ImageEntry>, order: Seq<usize>) -> (ps: Seq<int>)
    requires
        forall|i: int| 0 <= i < order.len() ==> (#[trigger] order[i]) < images.len(),
    ensures
        ps.len() == queue_of(images, order).len(),
        forall|i: int|
            0 <= i < ps.len() ==> 0 <= #[trigger] ps[i] < order.len() && images[order[ps[i]] as int].queued_action is Some
                && queue_of(images, order)[i] == images[order[ps[i]] as int].id,
        forall|i: int, j: int| 0 <= i < j < ps.len() ==> ps[i] < ps[j],
        forall|p: int|
            0 <= p < order.len() && (#[trigger] images[order[p] as int]).queued_action is Some ==> exists|i: int|
                0 <= i < ps.len() && ps[i] == p,
    decreases order.len(),
{
    if order.len() == 0 {
        Seq::empty()
    } else {
        let front = order.drop_last();
        let rest = lemma_queue_positions(images, front);
        let n = order.len() - 1;
        let ps = if images[order[n] as int].queued_action is Some {
            rest.push(n)
        } else {
            rest
        };
        assert forall|p: int|
            0 <= p < order.len() && (#[trigger] images[order[p] as int]).queued_action is Some implies exists|i: int|
                0 <= i < ps.len() && ps[i] == p by {
            if p < n {
                assert(front[p] == order[p]);
                assert(images[front[p] as int].queued_action is Some);
                let i = choose|i: int| 0 <= i < rest.len() && rest[i] == p;
                assert(ps[i] == p);
            } else {
                assert(ps[ps.len() - 1] == p);
            }
        }
        ps
    }
}

/// The queue follows the sort order, not the order in which decisions were
/// made: it holds the id of every image with a queued action, each once, and
/// lists them by their position in the order. Stated for images with
/// distinct ids, each listed at most once.
pub proof fn law_queue_follows_order(images: Seq<ImageEntry>, order: Seq<usize>)
    requires
        distinct_ids(images),
        distinct_positions(order),
        forall|i: int| 0 <= i < order.len() ==> (#[trigger] order[i]) < images.len(),
    ensures
        ({
            let q = queue_of(images, order);
            &&& forall|i: int, j: int| 0 <= i < j < q.len() ==> q[i] != q[j]
            &&& forall|p: int|
                0 <= p < order.len() && (#[trigger] images[order[p] as int]).queued_action is Some ==> q.contains(
                    images[order[p] as int].id,
                )
            &&& forall|i: int|
                0 <= i < q.len() ==> match #[trigger] first_position_of(images, order, q[i], 0) {
                    Some(p) => images[order[p] as int].queued_action is Some,
                    None => false,
                }
            &&& forall|i: int, j: int|
                0 <= i < j < q.len() ==> first_position_of(images, order, q[i], 0)->0 < first_position_of(
                    images,
                    order,
                    q[j],
                    0,
                )->0
        }),
{
    let q = queue_of(images, order);
    let ps = lemma_queue_positions(images, order);
    assert forall|i: int| 0 <= i < q.len() implies first_position_of(images, order, q[i], 0) == Some(ps[i]) by {
        lemma_first_position_is(images, order, ps[i], 0);
    }
    assert forall|i: int, j: int| 0 <= i < j < q.len() implies q[i] != q[j] by {
        let a = order[ps[i]];
        let b = order[ps[j]];
        assert(a != b);
        if a < b {
            assert(images[a as int].id != images[b as int].id);
        } else {
            assert(images[b as int].id != images[a as int].id);
        }
    }
    assert forall|p: int|
        0 <= p < order.len() && (#[trigger] images[order[p] as int]).queued_action is Some implies q.contains(
            images[order[p] as int].id,
        ) by {
        let i = choose|i: int| 0 <= i < ps.len() && ps[i] == p;
        assert(q[i] == images[order[p] as int].id);
    }
    assert forall|i: int|
        0 <= i < q.len() implies match #[trigger] first_position_of(images, order, q[i], 0) {
            Some(p) => images[order[p] as int].queued_action is Some,
            None => false,
        } by {
        assert(first_position_of(images, order, q[i], 0) == Some(ps[i]));
    }
    assert forall|i: int, j: int| 0 <= i < j < q.len() implies first_position_of(images, order, q[i], 0)->0
        < first_position_of(images, order, q[j], 0)->0 by {
        assert(first_position_of(images, order, q[i], 0) == Some(ps[i]));
        assert(first_position_of(images, order, q[j], 0) == Some(ps[j]));
    }
}

/// Deciding an image again replaces its queued action: in queue mode the
/// image carries the new side's action, and the queue lists it exactly once.
pub proof fn law_redecision_replaces_queued_action(m: AppModel, side: DecisionSide)
    requires
        m.wf(),
        m.queue_mode,
        m.current_image() is Some,
        distinct_ids(m.images),
        distinct_positions(m.order),
    ensures
        ({
            let e = m.current_image()->0;
            let idx = m.current_index()->0 as int;
            let d = m.decided(side);
            let action = m.action_mapping.spec_for(side);
            &&& d.images[idx].decision == (DecisionState::Decided { side, action })
            &&& d.images[idx].queued_action == Some(action)
            &&& d.images[idx].id == e.id
            &&& d.queued_ids.contains(e.id)
            &&& forall|i: int, j: int| 0 <= i < j < d.queued_ids.len() && d.queued_ids[i] == e.id ==> d.queued_ids[j] != e.id
        }),
{
    let e = m.current_image()->0;
    let idx = m.current_index()->0 as int;
    let d = m.decided(side);
    assert(d.images.len() == m.images.len());
    assert(d.order == m.order);
    assert(forall|k: int| 0 <= k < d.images.len() ==> (#[trigger] d.images[k]).id == m.images[k].id);
    assert(distinct_ids(d.images)) by {
        assert forall|i: int, j: int| 0 <= i < j < d.images.len() implies d.images[i].id != d.images[j].id by {
            assert(d.images[i].id == m.images[i].id);
            assert(d.images[j].id == m.images[j].id);
        }
    }
    law_queue_follows_order(d.images, d.order);
    assert(d.images[d.order[m.cursor as int] as int].queued_action is Some);
}

/// Showing the queue panel gives it the keyboard and selects a queued entry
/// when there is one (the one selected before while it is still queued, else
/// the first); hiding it takes the keyboard away too. Showing and hiding it
/// again gives back whether it was shown.
pub proof fn law_queue_panel_toggle(m: AppModel)
    ensures
        !m.queue_sidebar_visible ==> {
            &&& m.queue_toggled().queue_is_selected()
            &&& m.queued_ids.len() > 0 ==> (m.queue_toggled().selected_queue_image_id matches Some(id)
                && m.queued_ids.contains(id))
        },
        m.queue_sidebar_visible ==> !m.queue_toggled().queue_sidebar_visible && !m.queue_toggled().queue_focus,
        m.queue_toggled().queue_toggled().queue_sidebar_visible == m.queue_sidebar_visible,
{
    if !m.queue_sidebar_visible && m.queued_ids.len() > 0 {
        match m.selected_queue_image_id {
            Some(id) => {
                crate::domain::state::lemma_first_index_in_range(m.queued_ids, id, 0);
                if let Some(p) = m.queue_position() {
                    assert(m.queued_ids[p] == id);
                } else {
                    assert(m.queued_ids[0] == m.queued_ids[0]);
                }
            },
            None => {
                assert(m.queued_ids[0] == m.queued_ids[0]);
            },
        }
    }
}

/// Closing the files sidebar while the queue panel is shown hands the
/// keyboard to the queue panel; opening it takes the keyboard from the queue
/// panel. Opening and closing it again gives back whether it was open.
pub proof fn law_files_sidebar_toggle(m: AppModel)
    ensures
        m.sidebar_expanded && m.queue_sidebar_visible ==> !m.sidebar_toggled().sidebar_expanded
            && m.sidebar_toggled().queue_is_selected(),
        !m.sidebar_expanded ==> m.sidebar_toggled().sidebar_expanded && !m.sidebar_toggled().queue_is_selected(),
        m.sidebar_toggled().sidebar_toggled().sidebar_expanded == m.sidebar_expanded,
{
}

/// A permutation of the indices below `n` holds each of them.
proof fn lemma_permutation_covers(order: Seq<usize>, n: nat, k: usize)
    requires
        is_index_permutation(order, n),
        k < n,
    ensures
        exists|i: int| 0 <= i < order.len() && order[i] == k,
{
    broadcast use vstd::seq_lib::seq_to_set_is_finite;

    let ints = order.map_values(|x: usize| x as int);
    assert(ints.no_duplicates()) by {
        assert forall|i: int, j: int| 0 <= i < ints.len() && 0 <= j < ints.len() && i != j implies ints[i]
            != ints[j] by {
            assert(order[i] != order[j]);
        }
    }
    ints.unique_seq_to_set();
    vstd::set_lib::lemma_int_range(0, n as int);
    let s = ints.to_set();
    let r = vstd::set_lib::set_int_range(0, n as int);
    assert(s.subset_of(r)) by {
        assert forall|x: int| s.contains(x) implies r.contains(x) by {
            assert(ints.contains(x));
            let i = choose|i: int| 0 <= i < ints.len() && ints[i] == x;
            assert(order[i] < n);
        }
    }
    vstd::set_lib::lemma_subset_equality(s, r);
    assert(r.contains(k as int));
    assert(ints.contains(k as int));
    let i = choose|i: int| 0 <= i < ints.len() && ints[i] == k as int;
    assert(order[i] == k);
}

/// Sorting anew keeps the viewer on the image it showed: after a change of
/// sort mode the current image is the same. Stated for images with distinct
/// ids.
pub proof fn law_sort_keeps_current_image(m: AppModel, mode: SortMode, order: Seq<usize>)
    requires
        m.wf(),
        m.images.len() <= usize::MAX,
        m.current_image() is Some,
        distinct_ids(m.images),
        is_stable_sort(m.images, mode, order),
    ensures
        m.resorted(mode, order).order == order,
        m.resorted(mode, order).current_id() == m.current_id(),
{
    let idx = m.current_index()->0;
    lemma_permutation_covers(order, m.images.len(), idx);
    let p = choose|i: int| 0 <= i < order.len() && order[i] == idx;
    assert(distinct_positions(order)) by {
        assert forall|i: int, j: int| 0 <= i < j < order.len() implies order[i] != order[j] by {
            assert(order.no_duplicates());
        }
    }
    lemma_first_position_is(m.images, order, p, 0);
    let id = m.images[idx as int].id;
    assert(m.current_id() == Some(id));
    assert(first_position_of(m.images, order, id, 0) == Some(p));
    let r = m.resorted(mode, order);
    assert(r.cursor == p);
    assert(r.images == m.images);
    assert(r.order == order);
    assert(r.current_index() == Some(idx));
}

/// The indices of the images with a queued action.
pub open spec fn queued_indices(images: Seq<ImageEntry>) -> Set<int> {
    Set::new(|i: int| 0 <= i < images.len() && images[i].queued_action is Some)
}

/// When the order lists every image once, the queue holds as many entries as
/// there are images with a queued action.
proof fn lemma_queue_len(images: Seq<ImageEntry>, order: Seq<usize>)
    requires
        is_index_permutation(order, images.len()),
        images.len() <= usize::MAX,
    ensures
        queued_indices(images).finite(),
        queue_of(images, order).len() == queued_indices(images).len(),
{
    broadcast use vstd::seq_lib::seq_to_set_is_finite;

    let ps = lemma_queue_positions(images, order);
    assert(ps.no_duplicates()) by {
        assert forall|i: int, j: int| 0 <= i < ps.len() && 0 <= j < ps.len() && i != j implies ps[i] != ps[j] by {
            if i < j {
                assert(ps[i] < ps[j]);
            } else {
                assert(ps[j] < ps[i]);
            }
        }
    }
    ps.unique_seq_to_set();
    let positions = ps.to_set();
    let q = queued_indices(images);
    let f = |p: int| order[p] as int;
    assert(positions.map(f) =~= q) by {
        assert forall|i: int| positions.map(f).contains(i) implies q.contains(i) by {
            let p = choose|p: int| positions.contains(p) && f(p) == i;
            assert(ps.contains(p));
            let k = choose|k: int| 0 <= k < ps.len() && ps[k] == p;
            assert(0 <= ps[k] < order.len());
        }
        assert forall|i: int| q.contains(i) implies positions.map(f).contains(i) by {
            lemma_permutation_covers(order, images.len(), i as usize);
            assert((i as usize) as int == i);
            let p = choose|p: int| 0 <= p < order.len() && order[p] == i as usize;
            assert(images[order[p] as int].queued_action is Some);
            let k = choose|k: int| 0 <= k < ps.len() && ps[k] == p;
            assert(positions.contains(ps[k]));
            assert(f(p) == i);
        }
    }
    assert(vstd::relations::injective_on(f, positions)) by {
        assert forall|a: int, b: int| positions.contains(a) && positions.contains(b) && #[trigger] f(a) == #[trigger] f(
            b,
        ) implies a == b by {
            let ka = choose|k: int| 0 <= k < ps.len() && ps[k] == a;
            let kb = choose|k: int| 0 <= k < ps.len() && ps[k] == b;
            assert(0 <= a < order.len() && 0 <= b < order.len());
            assert(order.no_duplicates());
        }
    }
    vstd::set_lib::lemma_map_size(positions, q, f);
}

/// Sorting anew keeps the queue and the counters in agreement with the
/// images: the queue is rebuilt in the new order and keeps its length.
/// Stated for an order that lists every image once.
pub proof fn law_sort_keeps_counters(m: AppModel, mode: SortMode, order: Seq<usize>)
    requires
        m.wf(),
        m.images.len() <= usize::MAX,
        counters_agree(m),
        is_index_permutation(m.order, m.images.len()),
        is_stable_sort(m.images, mode, order),
    ensures
        counters_agree(m.resorted(mode, order)),
{
    lemma_queue_len(m.images, m.order);
    lemma_queue_len(m.images, order);
}

/// The queue without the entries for one id.
pub open spec fn queue_without(queue: Seq<u64>, id: u64) -> Seq<u64> {
    queue.filter(|x: u64| x != id)
}

proof fn lemma_queue_unqueued_one(images: Seq<ImageEntry>, order: Seq<usize>, j: int)
    requires
        distinct_ids(images),
        0 <= j < images.len(),
        forall|i: int| 0 <= i < order.len() ==> (#[trigger] order[i]) < images.len(),
    ensures
        queue_of(images.update(j, unqueued_entry(images[j])), order) == queue_without(
            queue_of(images, order),
            images[j].id,
        ),
    decreases order.len(),
{
    reveal(Seq::filter);
    let id = images[j].id;
    let after = images.update(j, unqueued_entry(images[j]));
    if order.len() > 0 {
        let front = order.drop_last();
        lemma_queue_unqueued_one(images, front, j);
        let x = order.last() as int;
        let q = queue_of(images, order);
        let rest = queue_of(images, front);
        if images[x].queued_action is Some {
            assert(q == rest.push(images[x].id));
            assert(q.drop_last() =~= rest);
        } else {
            assert(q == rest);
        }
        if x != j {
            assert(after[x] == images[x]);
            if x < j {
                assert(images[x].id != id);
            } else {
                assert(images[j].id != images[x].id);
            }
        }
    }
}

proof fn lemma_queue_id_absent(images: Seq<ImageEntry>, order: Seq<usize>, id: u64)
    requires
        forall|k: int| 0 <= k < images.len() ==> (#[trigger] images[k]).id != id,
        forall|i: int| 0 <= i < order.len() ==> (#[trigger] order[i]) < images.len(),
    ensures
        queue_without(queue_of(images, order), id) == queue_of(images, order),
    decreases order.len(),
{
    reveal(Seq::filter);
    if order.len() > 0 {
        let front = order.drop_last();
        lemma_queue_id_absent(images, front, id);
        let x = order.last() as int;
        let q = queue_of(images, order);
        let rest = queue_of(images, front);
        if images[x].queued_action is Some {
            assert(q == rest.push(images[x].id));
            assert(q.drop_last() =~= rest);
        } else {
            assert(q == rest);
        }
    }
}

proof fn lemma_queue_removed_one(images: Seq<ImageEntry>, order: Seq<usize>, r: usize)
    requires
        distinct_ids(images),
        r < images.len(),
        forall|i: int| 0 <= i < order.len() ==> (#[trigger] order[i]) < images.len(),
    ensures
        queue_of(images.remove(r as int), reindexed(order, r)) == queue_without(
            queue_of(images, order),
            images[r as int].id,
        ),
    decreases order.len(),
{
    reveal(Seq::filter);
    let id = images[r as int].id;
    let after = images.remove(r as int);
    if order.len() > 0 {
        let front = order.drop_last();
        lemma_queue_removed_one(images, front, r);
        let x = order.last();
        let q = queue_of(images, order);
        let rest = queue_of(images, front);
        if images[x as int].queued_action is Some {
            assert(q.drop_last() =~= rest);
        }
        let ro = reindexed(order, r);
        let rf = reindexed(front, r);
        if x > r {
            assert(ro == rf.push((x - 1) as usize));
            assert(ro.drop_last() =~= rf);
            assert(after[x - 1] == images[x as int]);
            assert(images[r as int].id != images[x as int].id);
        } else if x < r {
            assert(ro == rf.push(x));
            assert(ro.drop_last() =~= rf);
            assert(after[x as int] == images[x as int]);
            assert(images[x as int].id != id);
        } else {
            assert(ro == rf);
        }
    }
}

/// Applying one queued entry leaves the rest of the queue as it was, in the
/// same order: the queue only loses the entry of that image, whether the file
/// stayed (its queued action is cleared) or left (the image leaves the list).
/// Stated for images with distinct ids.
pub proof fn law_applied_entry_leaves_rest_of_queue(m: AppModel, image_id: u64, action: ActionConfig)
    requires
        m.wf(),
        counters_agree(m),
        distinct_ids(m.images),
    ensures
        m.action_result_applied(image_id, action).queued_ids == queue_without(m.queued_ids, image_id),
{
    if !keeps_file(action) && first_position_of(m.images, m.order, image_id, 0) is Some {
        let k = first_position_of(m.images, m.order, image_id, 0)->0;
        crate::domain::state::lemma_first_position_in_range(m.images, m.order, image_id, 0);
        let r = m.order[k];
        lemma_queue_removed_one(m.images, m.order, r);
    } else {
        crate::domain::state::lemma_first_image_in_range(m.images, image_id, 0);
        match first_image_with_id(m.images, image_id, 0) {
            Some(j) => {
                lemma_queue_unqueued_one(m.images, m.order, j);
            },
            None => {
                assert forall|k: int| 0 <= k < m.images.len() implies (#[trigger] m.images[k]).id != image_id by {
                    if m.images[k].id == image_id {
                        lemma_first_image_is(m.images, k, 0);
                    }
                }
                lemma_queue_id_absent(m.images, m.order, image_id);
            },
        }
    }
}

/// What every state of a session reached from a scan keeps: it is
/// well-formed, the order lists every image once, and the queue and the
/// counters agree with the images.
pub open spec fn session_invariant(m: AppModel) -> bool {
    &&& m.wf()
    &&& m.images.len() <= usize::MAX
    &&& is_index_permutation(m.order, m.images.len())
    &&& counters_agree(m)
}

/// Deciding the current image keeps the session invariant and leaves the
/// order and the number of images as they were.
pub proof fn law_decision_keeps_invariant(m: AppModel, side: DecisionSide)
    requires
        session_invariant(m),
        m.current_image() is Some,
    ensures
        session_invariant(m.decided(side)),
        m.decided(side).order == m.order,
        m.decided(side).images.len() == m.images.len(),
{
    let d = m.decided(side);
    law_decision_keeps_counters(m, side);
    assert(d.order == m.order);
    assert(d.images.len() == m.images.len());
    assert(forall|k: int| 0 <= k < d.images.len() ==> (#[trigger] d.images[k]).id == m.images[k].id);
    assert(d.nav_entries == m.nav_entries);
    assert forall|i: int|
        0 <= i < d.nav_entries.len() && (#[trigger] d.nav_entries[i]).kind == NavEntryKind::File implies d.nav_entries[i].image_id is Some
            && crate::domain::state::has_image(d.images, d.nav_entries[i].image_id->0) by {
        let id = m.nav_entries[i].image_id->0;
        let j = choose|j: int| 0 <= j < m.images.len() && #[trigger] m.images[j].id == id;
        assert(d.images[j].id == id);
    }
}

/// Optional times in order, a missing time first.
pub open spec fn time_le(a: Option<i128>, b: Option<i128>) -> bool {
    match (a, b) {
        (Some(_), None) => false,
        (Some(x), Some(y)) => x <= y,
        _ => true,
    }
}

/// A sort lists the images by the field its key names: the walk position,
/// the creation time, the modification time or the size (a missing time
/// first), ascending or descending as the mode says.
pub proof fn law_sort_follows_key(entries: Seq<ImageEntry>, mode: SortMode, order: Seq<usize>)
    requires
        is_stable_sort(entries, mode, order),
    ensures
        forall|i: int, j: int|
            #![trigger order[i], order[j]]
            0 <= i < j < order.len() ==> {
                let (a, b) = if mode.direction == SortDirection::Asc {
                    (entries[order[i] as int], entries[order[j] as int])
                } else {
                    (entries[order[j] as int], entries[order[i] as int])
                };
                match mode.key {
                    SortKey::Filesystem => a.original_order <= b.original_order,
                    SortKey::CreatedAt => time_le(a.meta.created, b.meta.created),
                    SortKey::LastModified => time_le(a.meta.modified, b.meta.modified),
                    SortKey::Size => a.meta.size <= b.meta.size,
                    SortKey::Alphabetical => true,
                }
            },
{
    assert forall|i: int, j: int| #![trigger order[i], order[j]] 0 <= i < j < order.len() implies {
        let (a, b) = if mode.direction == SortDirection::Asc {
            (entries[order[i] as int], entries[order[j] as int])
        } else {
            (entries[order[j] as int], entries[order[i] as int])
        };
        match mode.key {
            SortKey::Filesystem => a.original_order <= b.original_order,
            SortKey::CreatedAt => time_le(a.meta.created, b.meta.created),
            SortKey::LastModified => time_le(a.meta.modified, b.meta.modified),
            SortKey::Size => a.meta.size <= b.meta.size,
            SortKey::Alphabetical => true,
        }
    } by {
        assert(super::sorting::entry_order(entries[order[i] as int], entries[order[j] as int], mode) <= 0);
    }
}

proof fn lemma_first_undecided(images: Seq<ImageEntry>, order: Seq<usize>, start: int)
    requires
        0 <= start,
    ensures
        match first_undecided_from(images, order, start) {
            Some(p) => start <= p < order.len() && images[order[p] as int].decision is Undecided && forall|q: int|
                start <= q < p ==> (#[trigger] images[order[q] as int]).decision is Decided,
            None => forall|q: int| start <= q < order.len() ==> (#[trigger] images[order[q] as int]).decision is Decided,
        },
    decreases order.len() - start,
{
    if start < order.len() && !(images[order[start] as int].decision is Undecided) {
        lemma_first_undecided(images, order, start + 1);
    }
}

proof fn lemma_last_undecided(images: Seq<ImageEntry>, order: Seq<usize>, end: int)
    requires
        end <= order.len(),
    ensures
        match last_undecided_before(images, order, end) {
            Some(p) => 0 <= p < end && images[order[p] as int].decision is Undecided && forall|q: int|
                p < q < end ==> (#[trigger] images[order[q] as int]).decision is Decided,
            None => forall|q: int| 0 <= q < end ==> (#[trigger] images[order[q] as int]).decision is Decided,
        },
    decreases end,
{
    if 0 < end && !(images[order[end - 1] as int].decision is Undecided) {
        lemma_last_undecided(images, order, end - 1);
    }
}

/// The state after a jump to the next undecided image, as the jump states it.
pub open spec fn jumped_next(m: AppModel) -> AppModel {
    match first_undecided_from(m.images, m.order, m.cursor + 1) {
        Some(pos) => m.stepped_to(pos as usize, NavDirection::Down),
        None => m,
    }
}

/// The state after a jump to the previous undecided image, as the jump states it.
pub open spec fn jumped_prev(m: AppModel) -> AppModel {
    match last_undecided_before(m.images, m.order, m.cursor as int) {
        Some(pos) => m.stepped_to(pos as usize, NavDirection::Up),
        None => m,
    }
}

/// A jump to the next undecided image lands on the first undecided image
/// after the cursor, passing only decided ones; it stays put when every image
/// after the cursor is decided. A jump back does the same towards the start.
pub proof fn law_jumps_land_on_undecided(m: AppModel)
    requires
        m.wf(),
        m.images.len() <= usize::MAX,
    ensures
        ({
            let n = jumped_next(m);
            if n.cursor != m.cursor {
                &&& m.cursor < n.cursor < m.order.len()
                &&& n.images == m.images && n.order == m.order
                &&& m.images[m.order[n.cursor as int] as int].decision is Undecided
                &&& forall|q: int| m.cursor < q < n.cursor ==> (#[trigger] m.images[m.order[q] as int]).decision is Decided
            } else {
                forall|q: int| m.cursor < q < m.order.len() ==> (#[trigger] m.images[m.order[q] as int]).decision is Decided
            }
        }),
        ({
            let b = jumped_prev(m);
            if b.cursor != m.cursor {
                &&& b.cursor < m.cursor
                &&& b.images == m.images && b.order == m.order
                &&& m.images[m.order[b.cursor as int] as int].decision is Undecided
                &&& forall|q: int| b.cursor < q < m.cursor ==> (#[trigger] m.images[m.order[q] as int]).decision is Decided
            } else {
                m.cursor < m.order.len() ==> forall|q: int| 0 <= q < m.cursor ==> (#[trigger] m.images[m.order[q] as int]).decision is Decided
            }
        }),
{
    lemma_first_undecided(m.images, m.order, m.cursor + 1);
    if m.cursor <= m.order.len() {
        lemma_last_undecided(m.images, m.order, m.cursor as int);
    }
}

/// The action a side stands for.
pub open spec fn side_action(m: AppModel, side: DecisionSide) -> ActionConfig {
    match side {
        DecisionSide::Left => m.action_mapping.left,
        DecisionSide::Right => m.action_mapping.right,
    }
}

/// A decision records the side and its action on the current image and, in
/// queue mode, queues that action. A rename action draws a number for an
/// image that has none: the image gets the counter and the counter grows by
/// one, so no two images draw the same number; otherwise the counter and the
/// image's number stay.
pub proof fn law_decision_draws_rename_numbers(m: AppModel, side: DecisionSide)
    requires
        m.wf(),
        m.current_image() is Some,
        m.rename_counter < u64::MAX,
    ensures
        ({
            let idx = m.current_index()->0 as int;
            let e = m.images[idx];
            let d = m.decided(side);
            let action = side_action(m, side);
            &&& d.images[idx].decision == (DecisionState::Decided { side, action })
            &&& d.images[idx].queued_action == if m.queue_mode { Some(action) } else { None }
            &&& if action is Rename && e.rename_sequence is None {
                &&& d.images[idx].rename_sequence == Some(m.rename_counter)
                &&& d.rename_counter == m.rename_counter + 1
            } else {
                &&& d.images[idx].rename_sequence == e.rename_sequence
                &&& d.rename_counter == m.rename_counter
            }
            &&& forall|k: int| 0 <= k < m.images.len() && k != idx ==> d.images[k] == m.images[k]
            &&& d.images.len() == m.images.len()
        }),
{
}

/// Deciding the selected queue entry anew does the same to its image: the new
/// side's action is queued, and a rename action draws the next number when
/// the image has none.
pub proof fn law_override_draws_rename_numbers(m: AppModel, side: DecisionSide)
    requires
        m.queue_position() matches Some(p) && first_image_with_id(m.images, m.queued_ids[p], 0) is Some,
        m.rename_counter < u64::MAX,
    ensures
        ({
            let p = m.queue_position()->0;
            let j = first_image_with_id(m.images, m.queued_ids[p], 0)->0;
            let e = m.images[j];
            let o = m.queue_item_overridden(side);
            let action = side_action(m, side);
            &&& o.images[j].decision == (DecisionState::Decided { side, action })
            &&& o.images[j].queued_action == Some(action)
            &&& if action is Rename && e.rename_sequence is None {
                &&& o.images[j].rename_sequence == Some(m.rename_counter)
                &&& o.rename_counter == m.rename_counter + 1
            } else {
                &&& o.images[j].rename_sequence == e.rename_sequence
                &&& o.rename_counter == m.rename_counter
            }
        }),
{
    let p = m.queue_position()->0;
    crate::domain::state::lemma_first_index_in_range(m.queued_ids, m.selected_queue_image_id->0, 0);
    crate::domain::state::lemma_first_image_in_range(m.images, m.queued_ids[p], 0);
}

/// The `k`-th step of applying `queue` is the path, the queued action and the
/// rename number of an image whose id is queued.
pub open spec fn step_of_queued_image(images: Seq<ImageEntry>, queue: Seq<u64>, k: int) -> bool {
    exists|j: int|
        #![trigger images[j]]
        0 <= j < images.len() && queue.contains(images[j].id) && images[j].queued_action is Some
            && apply_list(images, queue)[k] == (images[j].path, images[j].queued_action->0, images[j].rename_sequence)
}

/// Each step of applying the queue is the path, the queued action and the
/// rename number of one image whose id is queued: the file is renamed with
/// the number its image drew.
pub proof fn law_apply_list_carries_rename_numbers(images: Seq<ImageEntry>, queue: Seq<u64>)
    ensures
        forall|k: int| 0 <= k < apply_list(images, queue).len() ==> #[trigger] step_of_queued_image(images, queue, k),
    decreases queue.len(),
{
    if queue.len() > 0 {
        let front = queue.drop_last();
        law_apply_list_carries_rename_numbers(images, front);
        crate::domain::state::lemma_first_image_in_range(images, queue.last(), 0);
        let rest = apply_list(images, front);
        assert forall|k: int| 0 <= k < apply_list(images, queue).len() implies #[trigger] step_of_queued_image(images, queue, k) by {
            if k < rest.len() {
                assert(apply_list(images, queue)[k] == rest[k]);
                assert(step_of_queued_image(images, front, k));
                let j = choose|j: int|
                    #![trigger images[j]]
                    0 <= j < images.len() && front.contains(images[j].id) && images[j].queued_action is Some
                        && rest[k] == (images[j].path, images[j].queued_action->0, images[j].rename_sequence);
                let q = choose|q: int| 0 <= q < front.len() && front[q] == images[j].id;
                assert(queue[q] == images[j].id);
                assert(queue.contains(images[j].id));
            } else {
                let j = first_image_with_id(images, queue.last(), 0)->0;
                assert(queue[queue.len() - 1] == images[j].id);
                assert(queue.contains(images[j].id));
                assert(apply_list(images, queue)[k] == (images[j].path, images[j].queued_action->0, images[j].rename_sequence));
            }
        }
    }
}

/// `a` and `b` agree, by character code, before position `d`, and there `a`
/// ends or has the smaller code.
pub open spec fn first_difference(a: Seq<char>, b: Seq<char>, d: int) -> bool {
    &&& 0 <= d <= a.len()
    &&& d <= b.len()
    &&& forall|t: int| 0 <= t < d ==> (a[t] as u32) == (b[t] as u32)
    &&& (d == a.len() || (d < b.len() && (a[d] as u32) < (b[d] as u32)))
}

/// `a` comes no later than `b` in dictionary order by character code: it is
/// a prefix of `b`, or at the first place where they differ its character
/// has the smaller code.
pub open spec fn text_le(a: Seq<char>, b: Seq<char>) -> bool {
    exists|d: int| #[trigger] first_difference(a, b, d)
}

proof fn lemma_text_order_le(a: Seq<char>, b: Seq<char>)
    requires
        super::sorting::text_order(a, b) <= 0,
    ensures
        text_le(a, b),
    decreases a.len(),
{
    if a.len() == 0 {
        assert(first_difference(a, b, 0));
    } else if (a[0] as u32) < (b[0] as u32) {
        assert(first_difference(a, b, 0));
    } else {
        let a1 = a.drop_first();
        let b1 = b.drop_first();
        lemma_text_order_le(a1, b1);
        let d = choose|d: int| #[trigger] first_difference(a1, b1, d);
        assert(b.len() > 0);
        assert forall|t: int| 0 <= t < d + 1 implies (a[t] as u32) == (b[t] as u32) by {
            if t > 0 {
                assert(a[t] == a1[t - 1]);
                assert(b[t] == b1[t - 1]);
            }
        }
        if d < a1.len() {
            assert(a[d + 1] == a1[d]);
            assert(b[d + 1] == b1[d]);
        }
        assert(first_difference(a, b, d + 1));
    }
}

/// Sorting by name lists the images by file name in dictionary order of
/// character codes (descending when the mode says so); an image without a
/// file name comes first in ascending order.
pub proof fn law_sort_by_name(entries: Seq<ImageEntry>, mode: SortMode, order: Seq<usize>)
    requires
        is_stable_sort(entries, mode, order),
        mode.key == SortKey::Alphabetical,
    ensures
        forall|i: int, j: int|
            #![trigger order[i], order[j]]
            0 <= i < j < order.len() ==> {
                let (a, b) = if mode.direction == SortDirection::Asc {
                    (entries[order[i] as int], entries[order[j] as int])
                } else {
                    (entries[order[j] as int], entries[order[i] as int])
                };
                match (crate::paths::file_name_of(a.path@), crate::paths::file_name_of(b.path@)) {
                    (Some(x), Some(y)) => text_le(x, y),
                    (Some(_), None) => false,
                    _ => true,
                }
            },
{
    assert forall|i: int, j: int| #![trigger order[i], order[j]] 0 <= i < j < order.len() implies {
        let (a, b) = if mode.direction == SortDirection::Asc {
            (entries[order[i] as int], entries[order[j] as int])
        } else {
            (entries[order[j] as int], entries[order[i] as int])
        };
        match (crate::paths::file_name_of(a.path@), crate::paths::file_name_of(b.path@)) {
            (Some(x), Some(y)) => text_le(x, y),
            (Some(_), None) => false,
            _ => true,
        }
    } by {
        let a0 = entries[order[i] as int];
        let b0 = entries[order[j] as int];
        assert(super::sorting::entry_order(a0, b0, mode) <= 0);
        let (a, b) = if mode.direction == SortDirection::Asc { (a0, b0) } else { (b0, a0) };
        if let (Some(x), Some(y)) = (crate::paths::file_name_of(a.path@), crate::paths::file_name_of(b.path@)) {
            super::sorting::lemma_text_order(x, y, y);
            lemma_text_order_le(x, y);
        }
    }
}

/// The decision of an image counts for a side.
pub open spec fn decided_for(e: ImageEntry, side: DecisionSide) -> bool {
    e.decision matches DecisionState::Decided { side: s, .. } && s == side
}

/// The counter of a side is the number of images decided for it.
pub proof fn law_count_side_counts_decisions(images: Seq<ImageEntry>, side: DecisionSide)
    ensures
        count_side(images, side) == images.filter(|e: ImageEntry| decided_for(e, side)).len(),
    decreases images.len(),
{
    reveal(Seq::filter);
    if images.len() > 0 {
        law_count_side_counts_decisions(images.drop_last(), side);
    }
}

} // verus!
