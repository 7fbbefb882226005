use std::collections::VecDeque;
use std::hash::{Hash, Hasher};
use std::marker::PhantomData;

use vstd::prelude::*;

use super::actions::{ActionConfig, ActionMapping, DecisionSide, DecisionState};
use super::preload::PreloadState;
use super::sorting::{SortMode, sort_indices};
use super::undo::UndoEntry;
use crate::paths::{
    file_name_of, joined_path, opt_text, parent_of, path_compare, path_eq, path_file_name, path_has_prefix,
    path_join, path_order, path_parent, path_starts_with, path_strip_prefix, same_path, stripped_prefix,
};

verus! {

#[derive(Clone, Copy, Debug, PartialEq, Eq, Structural)]
pub enum AppMode {
    Init,
    Scanning,
    Ready,
    Viewing,
    Applying,
    Done,
}

/// What a scan learned of an image file. Times are nanoseconds from the Unix
/// epoch (negative before it).
#[derive(Clone, Copy, Debug)]
pub struct ImageMeta {
    pub created: Option<i128>,
    pub modified: Option<i128>,
    pub size: u64,
    pub orientation: Option<u16>,
}

#[derive(Clone, Debug)]
pub struct ImageEntry {
    pub id: u64,
    pub path: String,
    pub original_order: usize,
    pub decision: DecisionState,
    pub queued_action: Option<ActionConfig>,
    pub rename_sequence: Option<u64>,
    pub meta: ImageMeta,
}

impl ImageEntry {
    /// A copy equal to `self`.
    pub fn duplicate(&self) -> (res: Self)
        ensures
            res == *self,
    {
        ImageEntry {
            id: self.id,
            path: self.path.clone(),
            original_order: self.original_order,
            decision: self.decision.duplicate(),
            queued_action: super::actions::duplicate_action_opt(&self.queued_action),
            rename_sequence: self.rename_sequence,
            meta: self.meta,
        }
    }
}

#[derive(Clone, Copy, Debug, PartialEq, Eq, Structural)]
pub enum NavEntryKind {
    Directory,
    File,
}

/// A row of the files sidebar: a directory or an image of the current directory.
#[derive(Clone, Debug)]
pub struct NavEntry {
    pub id: u64,
    pub rel_path: String,
    pub label: String,
    pub kind: NavEntryKind,
    pub image_id: Option<u64>,
    pub is_parent_link: bool,
}

impl NavEntry {
    /// A copy equal to `self`.
    pub fn duplicate(&self) -> (res: Self)
        ensures
            res == *self,
    {
        NavEntry {
            id: self.id,
            rel_path: self.rel_path.clone(),
            label: self.label.clone(),
            kind: self.kind,
            image_id: self.image_id,
            is_parent_link: self.is_parent_link,
        }
    }
}

/// The value of a [`NavEntry`].
pub struct NavModel {
    pub id: u64,
    pub rel_path: Seq<char>,
    pub label: Seq<char>,
    pub kind: NavEntryKind,
    pub image_id: Option<u64>,
    pub is_parent_link: bool,
}

impl View for NavEntry {
    type V = NavModel;

    open spec fn view(&self) -> NavModel {
        NavModel {
            id: self.id,
            rel_path: self.rel_path@,
            label: self.label@,
            kind: self.kind,
            image_id: self.image_id,
            is_parent_link: self.is_parent_link,
        }
    }
}

#[derive(Clone, Debug)]
pub struct ApplyResultSummary {
    pub completed: usize,
    pub total: usize,
    pub failed: usize,
    pub errors: Vec<String>,
}

/// Counters and the visible stack window that the views read.
#[derive(Clone, Copy, Debug, Default, PartialEq, Eq, Structural)]
pub struct ReadModelProjection {
    pub left_action_count: usize,
    pub right_action_count: usize,
    pub queue_count: usize,
    pub stack_start: usize,
    pub stack_end: usize,
}

#[derive(Clone, Copy, Debug, PartialEq, Eq, Structural)]
pub enum ModalView {
    DeleteConfirm,
    ApplyConfirm,
    QueueNotEmptyConfirm,
    DirectoryDeleteConfirm,
    Queue,
    Help,
    ApplyResult,
}

#[derive(Clone, Copy, Debug, PartialEq, Eq, Structural)]
pub enum NavDirection {
    Up,
    Down,
}

/// The whole state of a sorting session.
#[derive(Clone, Debug)]
pub struct AppStateInner {
    pub images: Vec<ImageEntry>,
    pub nav_entries: Vec<NavEntry>,
    pub current_dir: Option<String>,
    pub order: Vec<usize>,
    pub cursor: usize,
    pub queued_ids: VecDeque<u64>,
    pub scan_version: u64,
    pub queue_mode: bool,
    pub action_mapping: ActionMapping,
    pub sort_mode: SortMode,
    pub undo_stack: Vec<UndoEntry>,
    pub preload: PreloadState,
    pub rename_counter: u64,
    pub root_dir: Option<String>,
    pub pending_directory_path: Option<String>,
    pub pending_delete_directory_path: Option<String>,
    pub selected_entry_id: Option<u64>,
    pub sidebar_expanded: bool,
    pub directory_actions_entry_id: Option<u64>,
    pub active_modal: Option<ModalView>,
    pub projection: ReadModelProjection,
    pub last_apply_result: Option<ApplyResultSummary>,
    pub nav_direction: Option<NavDirection>,
    pub nav_tick: u64,
    pub queue_sidebar_visible: bool,
    pub queue_focus: bool,
    pub selected_queue_image_id: Option<u64>,
}

/// The value of an [`AppStateInner`]: its collections as sequences.
#[verifier::ext_equal]
pub struct AppModel {
    pub images: Seq<ImageEntry>,
    pub nav_entries: Seq<NavModel>,
    pub current_dir: Option<String>,
    pub order: Seq<usize>,
    pub cursor: usize,
    pub queued_ids: Seq<u64>,
    pub scan_version: u64,
    pub queue_mode: bool,
    pub action_mapping: ActionMapping,
    pub sort_mode: SortMode,
    pub undo_stack: Seq<UndoEntry>,
    pub preload: PreloadState,
    pub rename_counter: u64,
    pub root_dir: Option<String>,
    pub pending_directory_path: Option<String>,
    pub pending_delete_directory_path: Option<String>,
    pub selected_entry_id: Option<u64>,
    pub sidebar_expanded: bool,
    pub directory_actions_entry_id: Option<u64>,
    pub active_modal: Option<ModalView>,
    pub projection: ReadModelProjection,
    pub last_apply_result: Option<ApplyResultSummary>,
    pub nav_direction: Option<NavDirection>,
    pub nav_tick: u64,
    pub queue_sidebar_visible: bool,
    pub queue_focus: bool,
    pub selected_queue_image_id: Option<u64>,
}

impl View for AppStateInner {
    type V = AppModel;

    open spec fn view(&self) -> AppModel {
        AppModel {
            images: self.images@,
            nav_entries: self.nav_entries@.map_values(|e: NavEntry| e@),
            current_dir: self.current_dir,
            order: self.order@,
            cursor: self.cursor,
            queued_ids: self.queued_ids@,
            scan_version: self.scan_version,
            queue_mode: self.queue_mode,
            action_mapping: self.action_mapping,
            sort_mode: self.sort_mode,
            undo_stack: self.undo_stack@,
            preload: self.preload,
            rename_counter: self.rename_counter,
            root_dir: self.root_dir,
            pending_directory_path: self.pending_directory_path,
            pending_delete_directory_path: self.pending_delete_directory_path,
            selected_entry_id: self.selected_entry_id,
            sidebar_expanded: self.sidebar_expanded,
            directory_actions_entry_id: self.directory_actions_entry_id,
            active_modal: self.active_modal,
            projection: self.projection,
            last_apply_result: self.last_apply_result,
            nav_direction: self.nav_direction,
            nav_tick: self.nav_tick,
            queue_sidebar_visible: self.queue_sidebar_visible,
            queue_focus: self.queue_focus,
            selected_queue_image_id: self.selected_queue_image_id,
        }
    }
}

/// The number of steps the stack window reaches on each side of the cursor.
pub const STACK_RADIUS: usize = 5;

/// An optional index as an integer.
pub open spec fn opt_int(o: Option<usize>) -> Option<int> {
    match o {
        Some(i) => Some(i as int),
        None => None,
    }
}

/// `images` holds an image with this id.
pub open spec fn has_image(images: Seq<ImageEntry>, id: u64) -> bool {
    exists|j: int| 0 <= j < images.len() && #[trigger] images[j].id == id
}

/// The image at position `pos` of `order` is still undecided.
pub open spec fn undecided_at(images: Seq<ImageEntry>, order: Seq<usize>, pos: int) -> bool {
    images[order[pos] as int].decision is Undecided
}

/// The first position at or after `start` whose image is undecided.
pub open spec fn first_undecided_from(images: Seq<ImageEntry>, order: Seq<usize>, start: int) -> Option<int>
    decreases order.len() - start,
{
    if start < 0 || start >= order.len() {
        None
    } else if undecided_at(images, order, start) {
        Some(start)
    } else {
        first_undecided_from(images, order, start + 1)
    }
}

/// The last position before `end` whose image is undecided.
pub open spec fn last_undecided_before(images: Seq<ImageEntry>, order: Seq<usize>, end: int) -> Option<int>
    decreases end,
{
    if end <= 0 || end > order.len() {
        None
    } else if undecided_at(images, order, end - 1) {
        Some(end - 1)
    } else {
        last_undecided_before(images, order, end - 1)
    }
}

/// The first position at or after `start` whose image has the given id.
pub open spec fn first_position_of(images: Seq<ImageEntry>, order: Seq<usize>, id: u64, start: int) -> Option<int>
    decreases order.len() - start,
{
    if start < 0 || start >= order.len() {
        None
    } else if images[order[start] as int].id == id {
        Some(start)
    } else {
        first_position_of(images, order, id, start + 1)
    }
}

/// The first position at or after `start` of a sidebar row with the given id.
pub open spec fn first_entry_with_id(nav: Seq<NavModel>, id: u64, start: int) -> Option<int>
    decreases nav.len() - start,
{
    if start < 0 || start >= nav.len() {
        None
    } else if nav[start].id == id {
        Some(start)
    } else {
        first_entry_with_id(nav, id, start + 1)
    }
}

proof fn lemma_first_entry_in_range(nav: Seq<NavModel>, id: u64, start: int)
    ensures
        first_entry_with_id(nav, id, start) matches Some(p) ==> start <= p < nav.len() && nav[p].id == id,
    decreases nav.len() - start,
{
    if 0 <= start < nav.len() && nav[start].id != id {
        lemma_first_entry_in_range(nav, id, start + 1);
    }
}

/// The first index at or after `start` of an image with the given id.
pub open spec fn first_image_with_id(images: Seq<ImageEntry>, id: u64, start: int) -> Option<int>
    decreases images.len() - start,
{
    if start < 0 || start >= images.len() {
        None
    } else if images[start].id == id {
        Some(start)
    } else {
        first_image_with_id(images, id, start + 1)
    }
}

pub(crate) proof fn lemma_first_image_in_range(images: Seq<ImageEntry>, id: u64, start: int)
    ensures
        first_image_with_id(images, id, start) matches Some(p) ==> start <= p < images.len() && images[p].id == id,
    decreases images.len() - start,
{
    if 0 <= start < images.len() && images[start].id != id {
        lemma_first_image_in_range(images, id, start + 1);
    }
}

/// The first index at or after `start` of `id` in a sequence of ids.
pub open spec fn first_index_in(ids: Seq<u64>, id: u64, start: int) -> Option<int>
    decreases ids.len() - start,
{
    if start < 0 || start >= ids.len() {
        None
    } else if ids[start] == id {
        Some(start)
    } else {
        first_index_in(ids, id, start + 1)
    }
}

pub(crate) proof fn lemma_first_index_in_range(ids: Seq<u64>, id: u64, start: int)
    requires
        0 <= start,
    ensures
        first_index_in(ids, id, start) matches Some(p) ==> start <= p < ids.len() && ids[p] == id,
        (exists|q: int| start <= q < ids.len() && ids[q] == id) ==> first_index_in(ids, id, start) is Some,
    decreases ids.len() - start,
{
    if 0 <= start < ids.len() && ids[start] != id {
        lemma_first_index_in_range(ids, id, start + 1);
        if exists|q: int| start <= q < ids.len() && ids[q] == id {
            let q = choose|q: int| start <= q < ids.len() && ids[q] == id;
            assert(start + 1 <= q);
        }
    }
}

/// The queue entry that takes the place of the one at `pos` once it leaves
/// the queue: the entry now at `pos`, else the one before it.
pub open spec fn queue_neighbor(queue: Seq<u64>, pos: int) -> Option<u64> {
    if 0 <= pos < queue.len() {
        Some(queue[pos])
    } else if 0 < pos && pos - 1 < queue.len() {
        Some(queue[pos - 1])
    } else if queue.len() > 0 {
        Some(queue.last())
    } else {
        None
    }
}

/// An image after a decision for `side` with `action`.
pub open spec fn decided_entry(
    e: ImageEntry,
    side: DecisionSide,
    action: ActionConfig,
    queue_mode: bool,
    rename_sequence: Option<u64>,
) -> ImageEntry {
    ImageEntry {
        decision: DecisionState::Decided { side, action },
        queued_action: if queue_mode { Some(action) } else { None },
        rename_sequence,
        ..e
    }
}

/// An image with its decision, queued action and rename number cleared.
pub open spec fn reset_entry(e: ImageEntry) -> ImageEntry {
    ImageEntry { decision: DecisionState::Undecided, queued_action: None, rename_sequence: None, ..e }
}

/// An image with its queued action cleared.
pub open spec fn unqueued_entry(e: ImageEntry) -> ImageEntry {
    ImageEntry { queued_action: None, ..e }
}

/// What applying the queue works through: for each queued id, in queue order,
/// the first image with that id gives its path, queued action and rename
/// number; the id is skipped when that image has no queued action (or no
/// image has the id).
pub open spec fn apply_list(images: Seq<ImageEntry>, queue: Seq<u64>) -> Seq<(String, ActionConfig, Option<u64>)>
    decreases queue.len(),
{
    if queue.len() == 0 {
        Seq::empty()
    } else {
        let rest = apply_list(images, queue.drop_last());
        match first_image_with_id(images, queue.last(), 0) {
            Some(j) => match images[j].queued_action {
                Some(a) => rest.push((images[j].path, a, images[j].rename_sequence)),
                None => rest,
            },
            None => rest,
        }
    }
}

/// `order` with the index `r` taken out and the indices above it shifted down,
/// as when the image at `r` leaves the list.
pub open spec fn reindexed(order: Seq<usize>, r: usize) -> Seq<usize>
    decreases order.len(),
{
    if order.len() == 0 {
        Seq::empty()
    } else {
        let rest = reindexed(order.drop_last(), r);
        let x = order.last();
        if x == r {
            rest
        } else if x > r {
            rest.push((x - 1) as usize)
        } else {
            rest.push(x)
        }
    }
}

/// The row is a file row of the given image.
pub open spec fn is_file_row_of(e: NavModel, image_id: u64) -> bool {
    e.kind == NavEntryKind::File && e.image_id == Some(image_id)
}

/// The sidebar without the file rows of the given image.
pub open spec fn without_file_rows(nav: Seq<NavModel>, image_id: u64) -> Seq<NavModel>
    decreases nav.len(),
{
    if nav.len() == 0 {
        Seq::empty()
    } else {
        let rest = without_file_rows(nav.drop_last(), image_id);
        if is_file_row_of(nav.last(), image_id) {
            rest
        } else {
            rest.push(nav.last())
        }
    }
}

proof fn lemma_without_file_rows(nav: Seq<NavModel>, image_id: u64)
    ensures
        forall|i: int| 0 <= i < without_file_rows(nav, image_id).len() ==> exists|k: int|
            0 <= k < nav.len() && #[trigger] without_file_rows(nav, image_id)[i] == nav[k] && !is_file_row_of(
                nav[k],
                image_id,
            ),
    decreases nav.len(),
{
    if nav.len() > 0 {
        lemma_without_file_rows(nav.drop_last(), image_id);
        let rest = without_file_rows(nav.drop_last(), image_id);
        assert forall|i: int| 0 <= i < without_file_rows(nav, image_id).len() implies exists|k: int|
            0 <= k < nav.len() && #[trigger] without_file_rows(nav, image_id)[i] == nav[k] && !is_file_row_of(
                nav[k],
                image_id,
            ) by {
            if i < rest.len() {
                let k = choose|k: int|
                    0 <= k < nav.drop_last().len() && #[trigger] rest[i] == nav.drop_last()[k] && !is_file_row_of(
                        nav.drop_last()[k],
                        image_id,
                    );
                assert(nav[k] == nav.drop_last()[k]);
            } else {
                assert(without_file_rows(nav, image_id)[i] == nav[nav.len() - 1]);
            }
        }
    }
}

/// The file stays where it was after the action ran (the image remains listed).
pub open spec fn keeps_file(action: ActionConfig) -> bool {
    action is Keep || action is MetadataEdit
}

/// How many images were decided for a side.
pub open spec fn count_side(images: Seq<ImageEntry>, side: DecisionSide) -> nat
    decreases images.len(),
{
    if images.len() == 0 {
        0
    } else {
        count_side(images.drop_last(), side) + (if images.last().decision.spec_side() == Some(side) {
            1nat
        } else {
            0nat
        })
    }
}

/// The ids of the queued images, in the order of `order`.
pub open spec fn queue_of(images: Seq<ImageEntry>, order: Seq<usize>) -> Seq<u64>
    decreases order.len(),
{
    if order.len() == 0 {
        Seq::empty()
    } else {
        let rest = queue_of(images, order.drop_last());
        let idx = order.last() as int;
        if idx < images.len() && images[idx].queued_action is Some {
            rest.push(images[idx].id)
        } else {
            rest
        }
    }
}

impl AppModel {
    /// The state of a new session: nothing listed, queue and history empty.
    pub open spec fn initial(queue_mode: bool, action_mapping: ActionMapping, sort_mode: SortMode) -> AppModel {
    AppModel {
                    images: Seq::empty(),
                    nav_entries: Seq::empty(),
                    current_dir: None,
                    order: Seq::empty(),
                    cursor: 0,
                    queued_ids: Seq::empty(),
                    scan_version: 0,
                    queue_mode,
                    action_mapping,
                    sort_mode,
                    undo_stack: Seq::empty(),
                    preload: PreloadState { next_path: None },
                    rename_counter: 1,
                    root_dir: None,
                    pending_directory_path: None,
                    pending_delete_directory_path: None,
                    selected_entry_id: None,
                    sidebar_expanded: false,
                    directory_actions_entry_id: None,
                    active_modal: None,
                    projection: ReadModelProjection {
                        left_action_count: 0,
                        right_action_count: 0,
                        queue_count: 0,
                        stack_start: 0,
                        stack_end: 0,
                    },
                    last_apply_result: None,
                    nav_direction: None,
                    nav_tick: 0,
                    queue_sidebar_visible: false,
                    queue_focus: false,
                    selected_queue_image_id: None,
                }
    }

    /// What every operation keeps: the order points at images, the cursor is
    /// on the order (or 0 when it is empty), and every file row of the
    /// sidebar names an image that exists.
    pub open spec fn wf(self) -> bool {
        &&& forall|i: int| 0 <= i < self.order.len() ==> (#[trigger] self.order[i]) < self.images.len()
        &&& (self.cursor == 0 || self.cursor < self.order.len())
        &&& self.order.len() <= self.images.len()
        &&& forall|i: int|
            0 <= i < self.nav_entries.len() && (#[trigger] self.nav_entries[i]).kind == NavEntryKind::File
                ==> self.nav_entries[i].image_id is Some && has_image(self.images, self.nav_entries[i].image_id->0)
    }

    pub open spec fn current_index(self) -> Option<usize> {
        if self.cursor < self.order.len() {
            Some(self.order[self.cursor as int])
        } else {
            None
        }
    }

    pub open spec fn current_image(self) -> Option<ImageEntry> {
        match self.current_index() {
            Some(i) => if i < self.images.len() {
                Some(self.images[i as int])
            } else {
                None
            },
            None => None,
        }
    }

    pub open spec fn current_id(self) -> Option<u64> {
        match self.current_image() {
            Some(e) => Some(e.id),
            None => None,
        }
    }

    /// The stack window around the cursor.
    pub open spec fn with_stack(self, radius: usize) -> AppModel {
        let len = self.order.len();
        let start: usize = if len == 0 { 0 } else if self.cursor >= radius { (self.cursor - radius) as usize } else { 0 };
        let end: usize = if len == 0 {
            0
        } else if self.cursor + radius <= len - 1 {
            (self.cursor + radius) as usize
        } else {
            (len - 1) as usize
        };
        AppModel {
            projection: ReadModelProjection { stack_start: start, stack_end: end, ..self.projection },
            ..self
        }
    }

    /// The path of the image after the cursor.
    pub open spec fn next_path(self) -> Option<String> {
        if self.cursor + 1 < self.order.len() && self.order[self.cursor + 1] < self.images.len() {
            Some(self.images[self.order[self.cursor + 1] as int].path)
        } else {
            None
        }
    }

    pub open spec fn with_preload(self) -> AppModel {
        AppModel { preload: PreloadState { next_path: self.next_path() }, ..self }
    }

    pub open spec fn with_nav(self, direction: NavDirection) -> AppModel {
        AppModel {
            nav_direction: Some(direction),
            nav_tick: if self.nav_tick == u64::MAX { u64::MAX } else { (self.nav_tick + 1) as u64 },
            ..self
        }
    }

    pub open spec fn synced(self) -> AppModel {
        AppModel { selected_entry_id: self.current_id(), ..self }
    }

    pub open spec fn with_queue(self) -> AppModel {
        AppModel { queued_ids: queue_of(self.images, self.order), ..self }
    }

    pub open spec fn with_counters(self) -> AppModel {
        AppModel {
            projection: ReadModelProjection {
                left_action_count: count_side(self.images, DecisionSide::Left) as usize,
                right_action_count: count_side(self.images, DecisionSide::Right) as usize,
                queue_count: self.queued_ids.len() as usize,
                ..self.projection
            },
            ..self
        }
    }

    /// The cursor moved to `pos`, a step recorded in `direction` when there is one,
    /// the views following it.
    pub open spec fn moved_to(self, pos: usize, direction: Option<NavDirection>) -> AppModel {
        let m1 = AppModel { cursor: pos, ..self };
        let m2 = match direction {
            Some(d) => m1.with_nav(d),
            None => m1,
        };
        m2.with_stack(STACK_RADIUS).with_preload()
    }

    /// The direction of a move from the cursor to `pos`, if it moves.
    pub open spec fn direction_to(self, pos: usize) -> Option<NavDirection> {
        if pos > self.cursor {
            Some(NavDirection::Down)
        } else if pos < self.cursor {
            Some(NavDirection::Up)
        } else {
            None
        }
    }

    /// The image with id `image_id`, at position `pos`, picked: the cursor
    /// moves there and its row is selected.
    pub open spec fn picked(self, pos: usize, image_id: u64) -> AppModel {
        let m = self.moved_to(pos, self.direction_to(pos));
        AppModel { selected_entry_id: Some(image_id), directory_actions_entry_id: None, ..m }
    }

    /// A step to the next image, when there is one.
    pub open spec fn advanced(self) -> AppModel {
        if self.cursor + 1 < self.order.len() {
            self.stepped_to((self.cursor + 1) as usize, NavDirection::Down)
        } else {
            self
        }
    }

    /// A decision for `side` takes a rename number: the action renames and the
    /// current image has none yet.
    pub open spec fn takes_rename_number(self, side: DecisionSide) -> bool {
        &&& self.action_mapping.spec_for(side) is Rename
        &&& self.current_image() matches Some(e) && e.rename_sequence is None
    }

    /// The state after deciding the current image for `side`: the image records
    /// the decision (and, in queue mode, queues its action), the queue and the
    /// counters are rebuilt, and the cursor moves to the next image.
    pub open spec fn decided(self, side: DecisionSide) -> AppModel {
        let idx = self.current_index()->0 as int;
        let e = self.images[idx];
        let action = self.action_mapping.spec_for(side);
        let takes = self.takes_rename_number(side);
        let seq = if takes { Some(self.rename_counter) } else { e.rename_sequence };
        let m1 = AppModel {
            images: self.images.update(idx, decided_entry(e, side, action, self.queue_mode, seq)),
            rename_counter: if takes { (self.rename_counter + 1) as u64 } else { self.rename_counter },
            ..self
        };
        m1.with_queue().with_counters().advanced()
    }

    /// Every image reset, the queue and the undo history emptied.
    pub open spec fn queue_reset(self) -> AppModel {
        let m = AppModel {
            images: self.images.map_values(|e: ImageEntry| reset_entry(e)),
            queued_ids: Seq::empty(),
            undo_stack: Seq::empty(),
            rename_counter: 1,
            ..self
        };
        let m2 = m.with_counters().with_stack(STACK_RADIUS).with_preload();
        AppModel { directory_actions_entry_id: None, ..m2 }
    }

    /// The last recorded decision undone: the image gets back its decision and
    /// queued action and becomes current (or, when the order lacks it, the cursor
    /// returns to where it was, within the order).
    pub open spec fn undone(self) -> AppModel {
        let undo = self.undo_stack.last();
        let m1 = AppModel { undo_stack: self.undo_stack.drop_last(), ..self };
        m1.undo_restored(undo).undo_refocused(undo).with_queue().with_counters().with_stack(
            STACK_RADIUS,
        ).with_preload()
    }

    /// The first image with the undone id gets back its decision and queued action.
    pub open spec fn undo_restored(self, undo: UndoEntry) -> AppModel {
        match first_image_with_id(self.images, undo.image_id, 0) {
            Some(j) => AppModel {
                images: self.images.update(
                    j,
                    ImageEntry {
                        decision: undo.previous_decision,
                        queued_action: undo.previous_queue,
                        ..self.images[j]
                    },
                ),
                ..self
            },
            None => self,
        }
    }

    /// The undone image becomes current; when the order lacks it the cursor
    /// returns to where it was, kept within the order.
    pub open spec fn undo_refocused(self, undo: UndoEntry) -> AppModel {
        if first_position_of(self.images, self.order, undo.image_id, 0) is Some {
            self.image_selected(undo.image_id)
        } else {
            let max_cursor: usize = if self.order.len() == 0 { 0 } else { (self.order.len() - 1) as usize };
            let c: usize = if undo.previous_cursor <= max_cursor { undo.previous_cursor } else { max_cursor };
            AppModel { cursor: c, ..self }.synced()
        }
    }

    /// The order replaced by `order`, sorted under `mode`; the cursor stays on
    /// the image it was on.
    pub open spec fn resorted(self, mode: SortMode, order: Seq<usize>) -> AppModel {
        let cursor: usize = match self.current_id() {
            Some(id) => match first_position_of(self.images, order, id, 0) {
                Some(p) => p as usize,
                None => self.cursor,
            },
            None => self.cursor,
        };
        let m = AppModel { sort_mode: mode, order, cursor, ..self };
        m.with_queue().with_stack(STACK_RADIUS).with_preload().synced()
    }

    /// Where the selected queue entry stands in the queue.
    pub open spec fn queue_position(self) -> Option<int> {
        match self.selected_queue_image_id {
            Some(id) => first_index_in(self.queued_ids, id, 0),
            None => None,
        }
    }

    /// The queue selection after showing or hiding the queue panel.
    pub open spec fn queue_toggled(self) -> AppModel {
        if !self.queue_sidebar_visible {
            let selected = if self.queue_position() is Some {
                self.selected_queue_image_id
            } else if self.queued_ids.len() > 0 {
                Some(self.queued_ids[0])
            } else {
                None
            };
            AppModel {
                queue_sidebar_visible: true,
                queue_focus: true,
                selected_queue_image_id: selected,
                ..self
            }
        } else {
            AppModel { queue_sidebar_visible: false, queue_focus: false, ..self }
        }
    }

    /// The queued id selected in the queue panel, followed by the queue
    /// selection moving to its neighbour once it left the queue.
    pub open spec fn queue_selection_repaired(self, left_position: Option<int>) -> AppModel {
        match left_position {
            Some(p) => AppModel { selected_queue_image_id: queue_neighbor(self.queued_ids, p), ..self },
            None => self,
        }
    }

    /// The selected queue entry taken out of the queue: its image is undecided
    /// again and the selection moves to a neighbour.
    pub open spec fn queue_item_removed(self) -> AppModel {
        let p = self.queue_position()->0;
        let id = self.queued_ids[p];
        let m1 = match first_image_with_id(self.images, id, 0) {
            Some(j) => AppModel {
                images: self.images.update(
                    j,
                    ImageEntry { decision: DecisionState::Undecided, queued_action: None, ..self.images[j] },
                ),
                ..self
            },
            None => self,
        };
        m1.with_queue().with_counters().queue_selection_repaired(Some(p))
    }

    /// Overriding the selected queue entry takes a rename number.
    pub open spec fn override_takes_rename_number(self, side: DecisionSide) -> bool {
        &&& self.action_mapping.spec_for(side) is Rename
        &&& self.queue_position() matches Some(p)
        &&& first_image_with_id(self.images, self.queued_ids[p], 0) matches Some(j)
        &&& self.images[j].rename_sequence is None
    }

    /// The selected queue entry decided anew for `side`, its queued action replaced.
    pub open spec fn queue_item_overridden(self, side: DecisionSide) -> AppModel {
        let p = self.queue_position()->0;
        let j = first_image_with_id(self.images, self.queued_ids[p], 0)->0;
        let e = self.images[j];
        let action = self.action_mapping.spec_for(side);
        let takes = self.override_takes_rename_number(side);
        let seq = if takes { Some(self.rename_counter) } else { e.rename_sequence };
        let m1 = AppModel {
            images: self.images.update(j, decided_entry(e, side, action, true, seq)),
            rename_counter: if takes { (self.rename_counter + 1) as u64 } else { self.rename_counter },
            ..self
        };
        m1.with_queue().with_counters()
    }

    /// The image with the given id after its queued action ran: when the file
    /// left its place the image leaves the list, the order and the sidebar;
    /// otherwise only its queued action is cleared.
    pub open spec fn action_result_applied(self, image_id: u64, action: ActionConfig) -> AppModel {
        let left_position = first_index_in(self.queued_ids, image_id, 0);
        let m1 = if !keeps_file(action) && first_position_of(self.images, self.order, image_id, 0) is Some {
            let k = first_position_of(self.images, self.order, image_id, 0)->0;
            let r = self.order[k];
            let order = reindexed(self.order, r);
            let cursor: usize = if order.len() == 0 {
                0
            } else if self.cursor < order.len() {
                self.cursor
            } else {
                (order.len() - 1) as usize
            };
            AppModel {
                images: self.images.remove(r as int),
                order,
                cursor,
                nav_entries: without_file_rows(self.nav_entries, image_id),
                ..self
            }
        } else {
            match first_image_with_id(self.images, image_id, 0) {
                Some(j) => AppModel { images: self.images.update(j, unqueued_entry(self.images[j])), ..self },
                None => self,
            }
        };
        let m2 = m1.with_queue().with_counters().with_stack(STACK_RADIUS).with_preload().synced();
        if self.selected_queue_image_id == Some(image_id) {
            m2.queue_selection_repaired(left_position)
        } else {
            m2
        }
    }

    /// A new directory listing taken in: the images, sorted by `order`, the
    /// sidebar `nav`, the cursor on the first image, decisions history cleared.
    pub open spec fn snapshot_taken(
        self,
        images: Seq<ImageEntry>,
        root: Option<String>,
        current: Option<String>,
        order: Seq<usize>,
        nav: Seq<NavModel>,
    ) -> AppModel {
        let m = AppModel {
            root_dir: if root is Some { root } else { self.root_dir },
            current_dir: current,
            images,
            scan_version: if self.scan_version == u64::MAX { u64::MAX } else { (self.scan_version + 1) as u64 },
            order,
            cursor: 0,
            undo_stack: Seq::empty(),
            rename_counter: 1,
            nav_entries: nav,
            ..self
        };
        let m2 = m.with_queue().with_counters().with_stack(STACK_RADIUS).with_preload().synced();
        AppModel { directory_actions_entry_id: None, ..m2 }
    }

    /// `self` is `before` after taking in the images of the root directory
    /// (what `set_images` promises).
    pub open spec fn images_taken(self, before: AppModel, images: Seq<ImageEntry>, root: Option<String>) -> bool {
        &&& super::sorting::is_stable_sort(images, before.sort_mode, self.order)
        &&& is_sidebar_for(
            self.nav_entries,
            if root is Some { root } else { before.root_dir },
            root,
            Seq::empty(),
            images,
            self.order,
        )
        &&& self == before.snapshot_taken(images, root, root, self.order, self.nav_entries)
        &&& self.wf()
    }

    /// The files sidebar opened, taking the keyboard from the queue panel, or
    /// closed, handing the keyboard to the queue panel when that is shown.
    pub open spec fn sidebar_toggled(self) -> AppModel {
        if !self.sidebar_expanded {
            AppModel { sidebar_expanded: true, queue_focus: false, ..self }
        } else {
            AppModel { sidebar_expanded: false, queue_focus: self.queue_sidebar_visible, ..self }
        }
    }

    /// The queue panel is shown and has the keyboard.
    pub open spec fn queue_is_selected(self) -> bool {
        self.queue_sidebar_visible && self.queue_focus
    }

    /// The path of the selected row, when it is a directory and a root is set.
    pub open spec fn selected_directory_path(self) -> Option<Seq<char>> {
        match (self.root_dir, self.selected_entry()) {
            (Some(root), Some(e)) => if e.kind == NavEntryKind::Directory {
                Some(joined_path(root@, e.rel_path))
            } else {
                None
            },
            _ => None,
        }
    }

    /// The parent of the current directory, when the current directory is not
    /// the root and the parent lies within the root.
    pub open spec fn parent_directory_path(self) -> Option<Seq<char>> {
        match (self.root_dir, self.current_dir) {
            (Some(root), Some(current)) => if same_path(current@, root@) {
                None
            } else {
                match parent_of(current@) {
                    Some(parent) => if path_starts_with(parent, root@) {
                        Some(parent)
                    } else {
                        None
                    },
                    None => None,
                }
            },
            _ => None,
        }
    }

    /// The state after picking the image with the given id, when the order holds it.
    pub open spec fn image_selected(self, image_id: u64) -> AppModel {
        match first_position_of(self.images, self.order, image_id, 0) {
            Some(pos) => self.picked(pos as usize, image_id),
            None => self,
        }
    }

    /// The sidebar row that is selected, if it exists.
    pub open spec fn selected_entry(self) -> Option<NavModel> {
        match self.selected_entry_id {
            Some(id) => match first_entry_with_id(self.nav_entries, id, 0) {
                Some(p) => Some(self.nav_entries[p]),
                None => None,
            },
            None => None,
        }
    }

    /// The state after selecting the sidebar row with the given id, and whether it exists
    /// (and, for a file row, whether its image is in the order).
    pub open spec fn entry_selected(self, entry_id: u64) -> (AppModel, bool) {
        match first_entry_with_id(self.nav_entries, entry_id, 0) {
            Some(p) => {
                let m = AppModel { selected_entry_id: Some(entry_id), directory_actions_entry_id: None, ..self };
                match self.nav_entries[p].image_id {
                    Some(image_id) => (
                        m.image_selected(image_id),
                        first_position_of(m.images, m.order, image_id, 0) is Some,
                    ),
                    None => (m, true),
                }
            },
            None => (self, false),
        }
    }

    /// The position in the sidebar of the selected row, if any.
    pub open spec fn selected_entry_position(self) -> Option<int> {
        match self.selected_entry_id {
            Some(id) => first_entry_with_id(self.nav_entries, id, 0),
            None => None,
        }
    }

    /// A step of the cursor to `pos` by the viewer: the sidebar selection follows
    /// the current image and the directory actions close.
    pub open spec fn stepped_to(self, pos: usize, direction: NavDirection) -> AppModel {
        let m = self.moved_to(pos, Some(direction)).synced();
        AppModel { directory_actions_entry_id: None, ..m }
    }
}

proof fn lemma_first_undecided_in_range(images: Seq<ImageEntry>, order: Seq<usize>, start: int)
    ensures
        first_undecided_from(images, order, start) matches Some(p) ==> start <= p < order.len(),
    decreases order.len() - start,
{
    if 0 <= start < order.len() && !undecided_at(images, order, start) {
        lemma_first_undecided_in_range(images, order, start + 1);
    }
}

proof fn lemma_last_undecided_in_range(images: Seq<ImageEntry>, order: Seq<usize>, end: int)
    ensures
        last_undecided_before(images, order, end) matches Some(p) ==> 0 <= p < end <= order.len(),
    decreases end,
{
    if 0 < end <= order.len() && !undecided_at(images, order, end - 1) {
        lemma_last_undecided_in_range(images, order, end - 1);
    }
}

pub(crate) proof fn lemma_first_position_in_range(images: Seq<ImageEntry>, order: Seq<usize>, id: u64, start: int)
    ensures
        first_position_of(images, order, id, start) matches Some(p) ==> start <= p < order.len()
            && images[order[p] as int].id == id,
    decreases order.len() - start,
{
    if 0 <= start < order.len() && images[order[start] as int].id != id {
        lemma_first_position_in_range(images, order, id, start + 1);
    }
}

impl AppStateInner {
    pub fn new(queue_mode: bool, action_mapping: ActionMapping, sort_mode: SortMode) -> (res: Self)
        ensures
            res@ == AppModel::initial(queue_mode, action_mapping, sort_mode),
            res@.wf(),
    {
        let res = AppStateInner {
            images: Vec::new(),
            nav_entries: Vec::new(),
            current_dir: None,
            order: Vec::new(),
            cursor: 0,
            queued_ids: VecDeque::new(),
            scan_version: 0,
            queue_mode,
            action_mapping,
            sort_mode,
            undo_stack: Vec::new(),
            preload: PreloadState { next_path: None },
            rename_counter: 1,
            root_dir: None,
            pending_directory_path: None,
            pending_delete_directory_path: None,
            selected_entry_id: None,
            sidebar_expanded: false,
            directory_actions_entry_id: None,
            active_modal: None,
            projection: ReadModelProjection {
                left_action_count: 0,
                right_action_count: 0,
                queue_count: 0,
                stack_start: 0,
                stack_end: 0,
            },
            last_apply_result: None,
            nav_direction: None,
            nav_tick: 0,
            queue_sidebar_visible: false,
            queue_focus: false,
            selected_queue_image_id: None,
        };
        assert(res@.nav_entries =~= Seq::<NavModel>::empty());
        res
    }

    pub fn current_index(&self) -> (res: Option<usize>)
        ensures
            res == self@.current_index(),
    {
        if self.cursor < self.order.len() {
            Some(self.order[self.cursor])
        } else {
            None
        }
    }

    pub fn current(&self) -> (res: Option<&ImageEntry>)
        ensures
            match res {
                Some(e) => self@.current_image() == Some(*e),
                None => self@.current_image() is None,
            },
    {
        match self.current_index() {
            Some(idx) => if idx < self.images.len() {
                Some(&self.images[idx])
            } else {
                None
            },
            None => None,
        }
    }

    /// The current image, for changing it in place.
    pub fn current_mut(&mut self) -> (res: Option<&mut ImageEntry>)
        ensures
            match res {
                Some(e) => {
                    &&& old(self)@.current_image() == Some(*e)
                    &&& final(self)@ == (AppModel {
                        images: old(self)@.images.update(old(self)@.current_index()->0 as int, *final(e)),
                        ..old(self)@
                    })
                },
                None => old(self)@.current_image() is None && final(self)@ == old(self)@,
            },
    {
        let idx = match self.current_index() {
            Some(idx) => idx,
            None => return None,
        };
        if idx < self.images.len() {
            Some(&mut self.images[idx])
        } else {
            None
        }
    }

    fn record_nav(&mut self, direction: NavDirection)
        ensures
            final(self)@ == old(self)@.with_nav(direction),
    {
        self.nav_direction = Some(direction);
        self.nav_tick = self.nav_tick.saturating_add(1);
    }

    fn update_stack_projection(&mut self, radius: usize)
        ensures
            final(self)@ == old(self)@.with_stack(radius),
    {
        let len = self.order.len();
        if len == 0 {
            self.projection.stack_start = 0;
            self.projection.stack_end = 0;
            return;
        }
        self.projection.stack_start = self.cursor.saturating_sub(radius);
        let reach = self.cursor.saturating_add(radius);
        self.projection.stack_end = if reach <= len - 1 { reach } else { len - 1 };
    }

    fn update_preload(&mut self)
        ensures
            final(self)@ == old(self)@.with_preload(),
    {
        let mut next_path: Option<String> = None;
        if self.cursor < self.order.len() && self.cursor + 1 < self.order.len() {
            let idx = self.order[self.cursor + 1];
            if idx < self.images.len() {
                next_path = Some(self.images[idx].path.clone());
            }
        }
        self.preload.next_path = next_path;
    }

    fn current_id(&self) -> (res: Option<u64>)
        ensures
            res == self@.current_id(),
    {
        match self.current() {
            Some(e) => Some(e.id),
            None => None,
        }
    }

    fn sync_selected_to_current_image(&mut self)
        ensures
            final(self)@ == old(self)@.synced(),
    {
        self.selected_entry_id = self.current_id();
    }

    /// Moves the cursor to `pos`, recording the step and refreshing the views.
    fn move_cursor(&mut self, pos: usize, direction: Option<NavDirection>)
        ensures
            final(self)@ == old(self)@.moved_to(pos, direction),
    {
        self.cursor = pos;
        match direction {
            Some(d) => self.record_nav(d),
            None => {},
        }
        self.update_stack_projection(STACK_RADIUS);
        self.update_preload();
    }

    fn step_to(&mut self, pos: usize, direction: NavDirection)
        ensures
            final(self)@ == old(self)@.stepped_to(pos, direction),
    {
        self.move_cursor(pos, Some(direction));
        self.sync_selected_to_current_image();
        self.directory_actions_entry_id = None;
    }

    /// Moves to the next image, if there is one.
    pub fn next(&mut self)
        requires
            old(self)@.wf(),
        ensures
            final(self)@ == if old(self).cursor + 1 < old(self).order.len() {
                old(self)@.stepped_to((old(self).cursor + 1) as usize, NavDirection::Down)
            } else {
                old(self)@
            },
            final(self)@.wf(),
    {
        if self.cursor < self.order.len() && self.cursor + 1 < self.order.len() {
            self.step_to(self.cursor + 1, NavDirection::Down);
        }
    }

    /// Moves to the previous image, if there is one.
    pub fn prev(&mut self)
        requires
            old(self)@.wf(),
        ensures
            final(self)@ == if old(self).cursor > 0 {
                old(self)@.stepped_to((old(self).cursor - 1) as usize, NavDirection::Up)
            } else {
                old(self)@
            },
            final(self)@.wf(),
    {
        if self.cursor > 0 {
            self.step_to(self.cursor - 1, NavDirection::Up);
        }
    }

    fn first_undecided_position(&self, start: usize) -> (res: Option<usize>)
        requires
            self@.wf(),
        ensures
            opt_int(res) == first_undecided_from(self@.images, self@.order, start as int),
    {
        let mut pos = start;
        if pos >= self.order.len() {
            return None;
        }
        while pos < self.order.len()
            invariant
                self@.wf(),
                start <= pos <= self.order.len(),
                first_undecided_from(self@.images, self@.order, start as int)
                    == first_undecided_from(self@.images, self@.order, pos as int),
            decreases self.order.len() - pos,
        {
            let idx = self.order[pos];
            if self.images[idx].decision.is_undecided() {
                return Some(pos);
            }
            pos = pos + 1;
        }
        None
    }

    fn last_undecided_position(&self, end: usize) -> (res: Option<usize>)
        requires
            self@.wf(),
            end <= self.order.len(),
        ensures
            opt_int(res) == last_undecided_before(self@.images, self@.order, end as int),
    {
        let mut e = end;
        while e > 0
            invariant
                self@.wf(),
                e <= end <= self.order.len(),
                last_undecided_before(self@.images, self@.order, end as int)
                    == last_undecided_before(self@.images, self@.order, e as int),
            decreases e,
        {
            let idx = self.order[e - 1];
            if self.images[idx].decision.is_undecided() {
                return Some(e - 1);
            }
            e = e - 1;
        }
        None
    }

    /// Moves to the next undecided image after the cursor, if there is one.
    pub fn jump_next_undecided(&mut self)
        requires
            old(self)@.wf(),
        ensures
            final(self)@ == match first_undecided_from(old(self)@.images, old(self)@.order, old(self).cursor + 1) {
                Some(pos) => old(self)@.stepped_to(pos as usize, NavDirection::Down),
                None => old(self)@,
            },
            final(self)@.wf(),
    {
        if self.order.len() == 0 {
            return;
        }
        match self.first_undecided_position(self.cursor + 1) {
            Some(pos) => {
                proof { lemma_first_undecided_in_range(self@.images, self@.order, self.cursor + 1); }
                self.step_to(pos, NavDirection::Down);
            },
            None => {},
        }
    }

    /// Moves to the closest undecided image before the cursor, if there is one.
    pub fn jump_prev_undecided(&mut self)
        requires
            old(self)@.wf(),
        ensures
            final(self)@ == match last_undecided_before(old(self)@.images, old(self)@.order, old(self).cursor as int) {
                Some(pos) => old(self)@.stepped_to(pos as usize, NavDirection::Up),
                None => old(self)@,
            },
            final(self)@.wf(),
    {
        if self.order.len() == 0 || self.cursor == 0 {
            return;
        }
        match self.last_undecided_position(self.cursor) {
            Some(pos) => {
                proof { lemma_last_undecided_in_range(self@.images, self@.order, self.cursor as int); }
                self.step_to(pos, NavDirection::Up);
            },
            None => {},
        }
    }

    /// The first position of the order whose image has the given id.
    fn position_of(&self, image_id: u64) -> (res: Option<usize>)
        requires
            self@.wf(),
        ensures
            opt_int(res) == first_position_of(self@.images, self@.order, image_id, 0),
    {
        let mut pos: usize = 0;
        while pos < self.order.len()
            invariant
                self@.wf(),
                pos <= self.order.len(),
                first_position_of(self@.images, self@.order, image_id, 0)
                    == first_position_of(self@.images, self@.order, image_id, pos as int),
            decreases self.order.len() - pos,
        {
            if self.images[self.order[pos]].id == image_id {
                return Some(pos);
            }
            pos = pos + 1;
        }
        None
    }

    /// Moves the cursor to the image with the given id and selects its row.
    /// Returns whether the order holds such an image.
    pub fn select_image_by_id(&mut self, image_id: u64) -> (found: bool)
        requires
            old(self)@.wf(),
        ensures
            found == (first_position_of(old(self)@.images, old(self)@.order, image_id, 0) is Some),
            final(self)@ == old(self)@.image_selected(image_id),
            final(self)@.wf(),
    {
        match self.position_of(image_id) {
            Some(position) => {
                proof { lemma_first_position_in_range(self@.images, self@.order, image_id, 0); }
                let direction = if position > self.cursor {
                    Some(NavDirection::Down)
                } else if position < self.cursor {
                    Some(NavDirection::Up)
                } else {
                    None
                };
                self.move_cursor(position, direction);
                self.selected_entry_id = Some(image_id);
                self.directory_actions_entry_id = None;
                true
            },
            None => false,
        }
    }
}

impl AppStateInner {
    fn entry_position(&self, entry_id: u64) -> (res: Option<usize>)
        ensures
            opt_int(res) == first_entry_with_id(self@.nav_entries, entry_id, 0),
    {
        let mut pos: usize = 0;
        while pos < self.nav_entries.len()
            invariant
                pos <= self.nav_entries.len(),
                first_entry_with_id(self@.nav_entries, entry_id, 0)
                    == first_entry_with_id(self@.nav_entries, entry_id, pos as int),
            decreases self.nav_entries.len() - pos,
        {
            assert(self@.nav_entries[pos as int] == self.nav_entries@[pos as int]@);
            if self.nav_entries[pos].id == entry_id {
                return Some(pos);
            }
            pos = pos + 1;
        }
        None
    }

    /// Selects the sidebar row with the given id; a file row also moves the
    /// cursor to its image. Returns whether the row exists (and, for a file
    /// row, whether its image is in the order).
    pub fn select_entry_by_id(&mut self, entry_id: u64) -> (found: bool)
        requires
            old(self)@.wf(),
        ensures
            final(self)@ == old(self)@.entry_selected(entry_id).0,
            found == old(self)@.entry_selected(entry_id).1,
            final(self)@.wf(),
    {
        match self.entry_position(entry_id) {
            Some(pos) => {
                proof { lemma_first_entry_in_range(self@.nav_entries, entry_id, 0); }
                assert(self@.nav_entries[pos as int] == self.nav_entries@[pos as int]@);
                let image_id = self.nav_entries[pos].image_id;
                self.selected_entry_id = Some(entry_id);
                self.directory_actions_entry_id = None;
                assert(self@.nav_entries == old(self)@.nav_entries);
                assert(self@.images == old(self)@.images);
                assert(self@.order == old(self)@.order);
                match image_id {
                    Some(image_id) => self.select_image_by_id(image_id),
                    None => true,
                }
            },
            None => false,
        }
    }

    /// Selects the first row of the sidebar.
    pub fn select_first_entry(&mut self) -> (found: bool)
        requires
            old(self)@.wf(),
        ensures
            old(self)@.nav_entries.len() == 0 ==> !found && final(self)@ == old(self)@,
            old(self)@.nav_entries.len() > 0 ==> final(self)@ == old(self)@.entry_selected(
                old(self)@.nav_entries[0].id,
            ).0 && found == old(self)@.entry_selected(
                old(self)@.nav_entries[0].id,
            ).1,
            final(self)@.wf(),
    {
        if self.nav_entries.len() == 0 {
            return false;
        }
        assert(self@.nav_entries[0] == self.nav_entries@[0]@);
        let id = self.nav_entries[0].id;
        self.select_entry_by_id(id)
    }

    /// Selects the last row of the sidebar.
    pub fn select_last_entry(&mut self) -> (found: bool)
        requires
            old(self)@.wf(),
        ensures
            old(self)@.nav_entries.len() == 0 ==> !found && final(self)@ == old(self)@,
            old(self)@.nav_entries.len() > 0 ==> final(self)@ == old(self)@.entry_selected(
                old(self)@.nav_entries.last().id,
            ).0 && found == old(self)@.entry_selected(
                old(self)@.nav_entries.last().id,
            ).1,
            final(self)@.wf(),
    {
        let n = self.nav_entries.len();
        if n == 0 {
            return false;
        }
        assert(self@.nav_entries[n - 1] == self.nav_entries@[n - 1]@);
        let id = self.nav_entries[n - 1].id;
        self.select_entry_by_id(id)
    }

    /// Picks the first image of the order.
    pub fn select_first_image(&mut self) -> (found: bool)
        requires
            old(self)@.wf(),
        ensures
            old(self)@.order.len() == 0 ==> !found && final(self)@ == old(self)@,
            old(self)@.order.len() > 0 ==> {
                let id = old(self)@.images[old(self)@.order[0] as int].id;
                &&& found == (first_position_of(old(self)@.images, old(self)@.order, id, 0) is Some)
                &&& final(self)@ == old(self)@.image_selected(id)
            },
            final(self)@.wf(),
    {
        if self.order.len() == 0 {
            return false;
        }
        let idx = self.order[0];
        let id = self.images[idx].id;
        self.select_image_by_id(id)
    }

    /// Picks the last image of the order.
    pub fn select_last_image(&mut self) -> (found: bool)
        requires
            old(self)@.wf(),
        ensures
            old(self)@.order.len() == 0 ==> !found && final(self)@ == old(self)@,
            old(self)@.order.len() > 0 ==> {
                let id = old(self)@.images[old(self)@.order.last() as int].id;
                &&& found == (first_position_of(old(self)@.images, old(self)@.order, id, 0) is Some)
                &&& final(self)@ == old(self)@.image_selected(id)
            },
            final(self)@.wf(),
    {
        let n = self.order.len();
        if n == 0 {
            return false;
        }
        let idx = self.order[n - 1];
        let id = self.images[idx].id;
        self.select_image_by_id(id)
    }

    fn selected_entry_position(&self) -> (res: Option<usize>)
        ensures
            opt_int(res) == self@.selected_entry_position(),
    {
        match self.selected_entry_id {
            Some(id) => self.entry_position(id),
            None => None,
        }
    }

    /// Selects the row after the selected one (the first row when none is
    /// selected). Returns false at the last row.
    pub fn select_next_entry(&mut self) -> (found: bool)
        requires
            old(self)@.wf(),
        ensures
            ({
                let m = old(self)@;
                let n = m.nav_entries.len();
                if n == 0 {
                    !found && final(self)@ == m
                } else {
                    match m.selected_entry_position() {
                        Some(p) => if p + 1 < n {
                            final(self)@ == m.entry_selected(m.nav_entries[p + 1].id).0 && found == m.entry_selected(m.nav_entries[p + 1].id).1
                        } else {
                            !found && final(self)@ == m
                        },
                        None => final(self)@ == m.entry_selected(m.nav_entries[0].id).0 && found == m.entry_selected(m.nav_entries[0].id).1,
                    }
                }
            }),
            final(self)@.wf(),
    {
        let n = self.nav_entries.len();
        if n == 0 {
            return false;
        }
        let next_pos = match self.selected_entry_position() {
            Some(pos) => {
                proof { lemma_first_entry_in_range(self@.nav_entries, self.selected_entry_id->0, 0); }
                if pos + 1 < n {
                    pos + 1
                } else {
                    return false;
                }
            },
            None => 0,
        };
        assert(self@.nav_entries[next_pos as int] == self.nav_entries@[next_pos as int]@);
        let id = self.nav_entries[next_pos].id;
        self.select_entry_by_id(id)
    }

    /// Selects the row before the selected one (the first row when none is
    /// selected). Returns false at the first row.
    pub fn select_prev_entry(&mut self) -> (found: bool)
        requires
            old(self)@.wf(),
        ensures
            ({
                let m = old(self)@;
                let n = m.nav_entries.len();
                if n == 0 {
                    !found && final(self)@ == m
                } else {
                    match m.selected_entry_position() {
                        Some(p) => if p > 0 {
                            final(self)@ == m.entry_selected(m.nav_entries[p - 1].id).0 && found == m.entry_selected(m.nav_entries[p - 1].id).1
                        } else {
                            !found && final(self)@ == m
                        },
                        None => final(self)@ == m.entry_selected(m.nav_entries[0].id).0 && found == m.entry_selected(m.nav_entries[0].id).1,
                    }
                }
            }),
            final(self)@.wf(),
    {
        let n = self.nav_entries.len();
        if n == 0 {
            return false;
        }
        let prev_pos = match self.selected_entry_position() {
            Some(pos) => {
                proof { lemma_first_entry_in_range(self@.nav_entries, self.selected_entry_id->0, 0); }
                if pos > 0 {
                    pos - 1
                } else {
                    return false;
                }
            },
            None => 0,
        };
        assert(self@.nav_entries[prev_pos as int] == self.nav_entries@[prev_pos as int]@);
        let id = self.nav_entries[prev_pos].id;
        self.select_entry_by_id(id)
    }

    /// The selected sidebar row, if it exists.
    pub fn selected_entry(&self) -> (res: Option<&NavEntry>)
        ensures
            match res {
                Some(e) => self@.selected_entry() == Some(e@),
                None => self@.selected_entry() is None,
            },
    {
        match self.selected_entry_position() {
            Some(pos) => {
                proof { lemma_first_entry_in_range(self@.nav_entries, self.selected_entry_id->0, 0); }
                assert(self@.nav_entries[pos as int] == self.nav_entries@[pos as int]@);

                Some(&self.nav_entries[pos])
            },
            None => None,
        }
    }

    /// Whether the selected row is a directory.
    pub fn selected_entry_is_directory(&self) -> (res: bool)
        ensures
            res == (self@.selected_entry() matches Some(e) && e.kind == NavEntryKind::Directory),
    {
        match self.selected_entry() {
            Some(entry) => entry.kind == NavEntryKind::Directory,
            None => false,
        }
    }

    /// The path of the selected directory: the root joined with its relative path.
    pub fn selected_directory_path(&self) -> (res: Option<String>)
        ensures
            opt_text(res) == self@.selected_directory_path(),
    {
        let root = match &self.root_dir {
            Some(root) => root,
            None => return None,
        };
        let entry = match self.selected_entry() {
            Some(entry) => entry,
            None => return None,
        };
        if entry.kind != NavEntryKind::Directory {
            return None;
        }
        Some(path_join(root.as_str(), entry.rel_path.as_str()))
    }

    /// The directory that opening the selected row leads to.
    pub fn navigate_to_selected_directory(&self) -> (res: Option<String>)
        ensures
            opt_text(res) == self@.selected_directory_path(),
    {
        self.selected_directory_path()
    }

    /// The parent of the current directory, when it lies inside the root and
    /// the current directory is not the root itself.
    pub fn navigate_to_parent_directory(&self) -> (res: Option<String>)
        ensures
            opt_text(res) == self@.parent_directory_path(),
    {
        let root = match &self.root_dir {
            Some(root) => root,
            None => return None,
        };
        let current = match &self.current_dir {
            Some(current) => current,
            None => return None,
        };
        if path_eq(current.as_str(), root.as_str()) {
            return None;
        }
        match path_parent(current.as_str()) {
            Some(parent) => if path_has_prefix(parent.as_str(), root.as_str()) {
                Some(parent)
            } else {
                None
            },
            None => None,
        }
    }

    pub fn close_directory_actions(&mut self)
        ensures
            final(self)@ == (AppModel { directory_actions_entry_id: None, ..old(self)@ }),
    {
        self.directory_actions_entry_id = None;
    }

    /// Opens the actions of the selected directory row; refused for file rows
    /// and for the row that leads to the parent.
    pub fn open_directory_actions_for_selected(&mut self) -> (opened: bool)
        ensures
            opened == (old(self)@.selected_entry() matches Some(e) && e.kind == NavEntryKind::Directory
                && !e.is_parent_link),
            final(self)@ == if opened {
                AppModel { directory_actions_entry_id: old(self).selected_entry_id, ..old(self)@ }
            } else {
                old(self)@
            },
    {
        if !self.selected_entry_is_directory() {
            return false;
        }
        let is_parent = match self.selected_entry() {
            Some(entry) => entry.is_parent_link,
            None => false,
        };
        if is_parent {
            return false;
        }
        self.directory_actions_entry_id = self.selected_entry_id;
        true
    }
}

pub(crate) proof fn lemma_count_side_bound(images: Seq<ImageEntry>, side: DecisionSide)
    ensures
        count_side(images, side) <= images.len(),
    decreases images.len(),
{
    if images.len() > 0 {
        lemma_count_side_bound(images.drop_last(), side);
    }
}

pub(crate) proof fn lemma_queue_bound(images: Seq<ImageEntry>, order: Seq<usize>)
    ensures
        queue_of(images, order).len() <= order.len(),
    decreases order.len(),
{
    if order.len() > 0 {
        lemma_queue_bound(images, order.drop_last());
    }
}

/// Outcome of a decision on the current image.
#[derive(Clone, Debug)]
pub struct DecisionOutcome {
    pub image_id: u64,
    pub action: ActionConfig,
    pub previous_decision: DecisionState,
    pub previous_queue: Option<ActionConfig>,
    pub cursor_before: usize,
    pub cursor_after: usize,
    pub immediate: bool,
}

impl AppStateInner {
    fn rebuild_queue_from_order(&mut self)
        ensures
            final(self)@ == old(self)@.with_queue(),
    {
        self.queued_ids.clear();
        let mut i: usize = 0;
        while i < self.order.len()
            invariant
                i <= self.order.len(),
                self@ == (AppModel { queued_ids: self@.queued_ids, ..old(self)@ }),
                self@.queued_ids == queue_of(self@.images, self@.order.take(i as int)),
            decreases self.order.len() - i,
        {
            let idx = self.order[i];
            assert(self@.order.take(i + 1).drop_last() =~= self@.order.take(i as int));
            if idx < self.images.len() {
                if self.images[idx].queued_action.is_some() {
                    self.queued_ids.push_back(self.images[idx].id);
                }
            }
            i = i + 1;
        }
        assert(self@.order.take(self.order.len() as int) =~= self@.order);
    }

    fn rebuild_projection_counters(&mut self)
        ensures
            final(self)@ == old(self)@.with_counters(),
    {
        let mut left: usize = 0;
        let mut right: usize = 0;
        let mut i: usize = 0;
        while i < self.images.len()
            invariant
                i <= self.images.len(),
                left == count_side(self@.images.take(i as int), DecisionSide::Left),
                right == count_side(self@.images.take(i as int), DecisionSide::Right),
            decreases self.images.len() - i,
        {
            proof {
                assert(self@.images.take(i + 1).drop_last() =~= self@.images.take(i as int));
                lemma_count_side_bound(self@.images.take(i as int), DecisionSide::Left);
                lemma_count_side_bound(self@.images.take(i as int), DecisionSide::Right);
            }
            match &self.images[i].decision {
                DecisionState::Decided { side: DecisionSide::Left, .. } => left = left + 1,
                DecisionState::Decided { side: DecisionSide::Right, .. } => right = right + 1,
                DecisionState::Undecided => {},
            }
            i = i + 1;
        }
        assert(self@.images.take(self.images.len() as int) =~= self@.images);
        self.projection.left_action_count = left;
        self.projection.right_action_count = right;
        self.projection.queue_count = self.queued_ids.len();
    }

    fn rebuild_projection(&mut self)
        ensures
            final(self)@ == old(self)@.with_counters().with_stack(STACK_RADIUS),
    {
        self.rebuild_projection_counters();
        self.update_stack_projection(STACK_RADIUS);
    }

    /// Decides the current image for `side`: it records the decision and, in
    /// queue mode, queues the side's action; the queue and counters follow and
    /// the cursor moves on. Returns what changed, or `None` without a current image.
    pub fn apply_decision(&mut self, side: DecisionSide) -> (outcome: Option<DecisionOutcome>)
        requires
            old(self)@.wf(),
            old(self)@.takes_rename_number(side) ==> old(self).rename_counter < u64::MAX,
        ensures
            final(self)@.wf(),
            match outcome {
                None => old(self)@.current_image() is None && final(self)@ == old(self)@,
                Some(o) => {
                    let e = old(self)@.current_image()->0;
                    &&& old(self)@.current_image() is Some
                    &&& final(self)@ == old(self)@.decided(side)
                    &&& o.image_id == e.id
                    &&& o.action == old(self).action_mapping.spec_for(side)
                    &&& o.previous_decision == e.decision
                    &&& o.previous_queue == e.queued_action
                    &&& o.cursor_before == old(self).cursor
                    &&& o.cursor_after == final(self).cursor
                    &&& o.immediate == !old(self).queue_mode
                },
            },
    {
        let action = self.action_mapping.action_for(side);
        let queue_mode = self.queue_mode;
        let cursor_before = self.cursor;
        let idx = match self.current_index() {
            Some(idx) => idx,
            None => return None,
        };
        if idx >= self.images.len() {
            return None;
        }
        let ghost m0 = self@;
        let takes = match &action {
            ActionConfig::Rename { .. } => self.images[idx].rename_sequence.is_none(),
            _ => false,
        };
        let previous = self.images[idx].duplicate();
        let sequence = if takes { Some(self.rename_counter) } else { previous.rename_sequence };
        let updated = ImageEntry {
            id: previous.id,
            path: previous.path.clone(),
            original_order: previous.original_order,
            decision: DecisionState::Decided { side, action: action.duplicate() },
            queued_action: if queue_mode { Some(action.duplicate()) } else { None },
            rename_sequence: sequence,
            meta: previous.meta,
        };
        self.images.set(idx, updated);
        if takes {
            self.rename_counter = self.rename_counter + 1;
        }
        assert(self@.images == m0.images.update(idx as int, decided_entry(m0.images[idx as int], side, action, queue_mode, sequence)));
        assert(self@.wf()) by {
            assert(forall|j: int| 0 <= j < self@.images.len() ==> self@.images[j].id == m0.images[j].id);
            assert forall|i: int| 0 <= i < self@.nav_entries.len() && (#[trigger] self@.nav_entries[i]).kind == NavEntryKind::File
                implies self@.nav_entries[i].image_id is Some && has_image(self@.images, self@.nav_entries[i].image_id->0) by {
                let id = self@.nav_entries[i].image_id->0;
                let j = choose|j: int| 0 <= j < m0.images.len() && #[trigger] m0.images[j].id == id;
                assert(self@.images[j].id == id);
            }
        }
        self.rebuild_queue_from_order();
        self.rebuild_projection_counters();
        self.next();
        Some(DecisionOutcome {
            image_id: previous.id,
            action,
            previous_decision: previous.decision,
            previous_queue: previous.queued_action,
            cursor_before,
            cursor_after: self.cursor,
            immediate: !queue_mode,
        })
    }
}

/// The well-formedness of a state carries over to one with the same order,
/// cursor and sidebar whose images keep their ids.
proof fn lemma_wf_same_ids(m1: AppModel, m2: AppModel)
    requires
        m1.wf(),
        m2.order == m1.order,
        m2.cursor == m1.cursor,
        m2.nav_entries == m1.nav_entries,
        m2.images.len() == m1.images.len(),
        forall|j: int| 0 <= j < m1.images.len() ==> #[trigger] m2.images[j].id == m1.images[j].id,
    ensures
        m2.wf(),
{
    assert forall|i: int| 0 <= i < m2.nav_entries.len() && (#[trigger] m2.nav_entries[i]).kind == NavEntryKind::File
        implies m2.nav_entries[i].image_id is Some && has_image(m2.images, m2.nav_entries[i].image_id->0) by {
        let id = m2.nav_entries[i].image_id->0;
        let j = choose|j: int| 0 <= j < m1.images.len() && #[trigger] m1.images[j].id == id;
        assert(m2.images[j].id == id);
    }
}

impl AppStateInner {
    pub(crate) fn first_image_with_id(&self, image_id: u64) -> (res: Option<usize>)
        ensures
            opt_int(res) == first_image_with_id(self@.images, image_id, 0),
            res matches Some(j) ==> j < self.images.len(),
    {
        let mut j: usize = 0;
        while j < self.images.len()
            invariant
                j <= self.images.len(),
                first_image_with_id(self@.images, image_id, 0) == first_image_with_id(self@.images, image_id, j as int),
            decreases self.images.len() - j,
        {
            if self.images[j].id == image_id {
                return Some(j);
            }
            j = j + 1;
        }
        None
    }

    /// Clears every decision, the queue and the undo history.
    pub fn reset_queue_state(&mut self)
        requires
            old(self)@.wf(),
        ensures
            final(self)@ == old(self)@.queue_reset(),
            final(self)@.wf(),
    {
        let mut i: usize = 0;
        while i < self.images.len()
            invariant
                i <= self.images.len(),
                self@ == (AppModel { images: self@.images, ..old(self)@ }),
                self@.images.len() == old(self)@.images.len(),
                forall|j: int| 0 <= j < i ==> self@.images[j] == reset_entry(#[trigger] old(self)@.images[j]),
                forall|j: int| i <= j < self@.images.len() ==> self@.images[j] == old(self)@.images[j],
            decreases self.images.len() - i,
        {
            let e = self.images[i].duplicate();
            let cleared = ImageEntry {
                id: e.id,
                path: e.path,
                original_order: e.original_order,
                decision: DecisionState::Undecided,
                queued_action: None,
                rename_sequence: None,
                meta: e.meta,
            };
            self.images.set(i, cleared);
            i = i + 1;
        }
        assert(self@.images =~= old(self)@.images.map_values(|e: ImageEntry| reset_entry(e)));
        self.queued_ids.clear();
        self.undo_stack.clear();
        self.rename_counter = 1;
        proof { lemma_wf_same_ids(old(self)@, self@); }
        self.rebuild_projection();
        self.update_preload();
        self.directory_actions_entry_id = None;
    }

    pub fn record_undo(&mut self, entry: UndoEntry)
        ensures
            final(self)@ == (AppModel { undo_stack: old(self)@.undo_stack.push(entry), ..old(self)@ }),
    {
        self.undo_stack.push(entry);
    }

    fn restore_undone_image(&mut self, undo: &UndoEntry)
        requires
            old(self)@.wf(),
        ensures
            final(self)@ == old(self)@.undo_restored(*undo),
            final(self)@.wf(),
    {
        match self.first_image_with_id(undo.image_id) {
            Some(j) => {
                proof { lemma_first_image_in_range(self@.images, undo.image_id, 0); }
                let e = self.images[j].duplicate();
                let restored = ImageEntry {
                    id: e.id,
                    path: e.path,
                    original_order: e.original_order,
                    decision: undo.previous_decision.duplicate(),
                    queued_action: super::actions::duplicate_action_opt(&undo.previous_queue),
                    rename_sequence: e.rename_sequence,
                    meta: e.meta,
                };
                self.images.set(j, restored);
                proof { lemma_wf_same_ids(old(self)@, self@); }
            },
            None => {},
        }
    }

    fn refocus_after_undo(&mut self, undo: &UndoEntry)
        requires
            old(self)@.wf(),
        ensures
            final(self)@ == old(self)@.undo_refocused(*undo),
            final(self)@.wf(),
    {
        if !self.select_image_by_id(undo.image_id) {
            let max_cursor = self.order.len().saturating_sub(1);
            self.cursor = if undo.previous_cursor <= max_cursor { undo.previous_cursor } else { max_cursor };
            self.sync_selected_to_current_image();
        }
    }

    /// Undoes the last recorded decision; returns what it restored.
    pub fn undo_last(&mut self) -> (res: Option<UndoEntry>)
        requires
            old(self)@.wf(),
        ensures
            final(self)@.wf(),
            old(self)@.undo_stack.len() == 0 ==> res is None && final(self)@ == old(self)@,
            old(self)@.undo_stack.len() > 0 ==> res == Some(old(self)@.undo_stack.last())
                && final(self)@ == old(self)@.undone(),
    {
        let undo = match self.undo_stack.pop() {
            Some(undo) => undo,
            None => return None,
        };
        self.restore_undone_image(&undo);
        self.refocus_after_undo(&undo);
        self.rebuild_queue_from_order();
        self.rebuild_projection();
        self.update_preload();
        Some(undo)
    }

    pub fn show_view(&mut self, view: ModalView)
        ensures
            final(self)@ == (AppModel { active_modal: Some(view), ..old(self)@ }),
    {
        self.active_modal = Some(view);
    }

    /// Closes the open modal and returns it.
    pub fn close_view(&mut self) -> (res: Option<ModalView>)
        ensures
            res == old(self).active_modal,
            final(self)@ == (AppModel { active_modal: None, ..old(self)@ }),
    {
        self.active_modal.take()
    }

    /// Closes `view` if it is the open modal.
    pub fn hide_view(&mut self, view: ModalView)
        ensures
            final(self)@ == if old(self).active_modal == Some(view) {
                AppModel { active_modal: None, ..old(self)@ }
            } else {
                old(self)@
            },
    {
        if self.active_modal == Some(view) {
            self.active_modal = None;
        }
    }

    pub fn has_view(&self, view: ModalView) -> (res: bool)
        ensures
            res == (self.active_modal == Some(view)),
    {
        self.active_modal == Some(view)
    }

    /// For each queued id in queue order: the path, action and rename number
    /// that applying it uses.
    pub fn queued_actions_for_apply(&self) -> (res: Vec<(String, ActionConfig, Option<u64>)>)
        ensures
            res@ == apply_list(self@.images, self@.queued_ids),
    {
        let mut res: Vec<(String, ActionConfig, Option<u64>)> = Vec::new();
        let mut i: usize = 0;
        while i < self.queued_ids.len()
            invariant
                i <= self.queued_ids.len(),
                res@ == apply_list(self@.images, self@.queued_ids.take(i as int)),
            decreases self.queued_ids.len() - i,
        {
            let id = self.queued_ids[i];
            assert(self@.queued_ids.take(i + 1).drop_last() =~= self@.queued_ids.take(i as int));
            match self.first_image_with_id(id) {
                Some(j) => {
                    proof { lemma_first_image_in_range(self@.images, id, 0); }
                    let image = &self.images[j];
                    match &image.queued_action {
                        Some(action) => {
                            res.push((image.path.clone(), action.duplicate(), image.rename_sequence));
                        },
                        None => {},
                    }
                },
                None => {},
            }
            i = i + 1;
        }
        assert(self@.queued_ids.take(self.queued_ids.len() as int) =~= self@.queued_ids);
        res
    }

    /// Drops every queued action and empties the queue.
    pub fn clear_queued_actions(&mut self)
        requires
            old(self)@.wf(),
        ensures
            final(self)@ == (AppModel {
                images: old(self)@.images.map_values(|e: ImageEntry| unqueued_entry(e)),
                queued_ids: Seq::empty(),
                ..old(self)@
            }).with_counters(),
            final(self)@.wf(),
    {
        let mut i: usize = 0;
        while i < self.images.len()
            invariant
                i <= self.images.len(),
                self@ == (AppModel { images: self@.images, ..old(self)@ }),
                self@.images.len() == old(self)@.images.len(),
                forall|j: int| 0 <= j < i ==> self@.images[j] == unqueued_entry(#[trigger] old(self)@.images[j]),
                forall|j: int| i <= j < self@.images.len() ==> self@.images[j] == old(self)@.images[j],
            decreases self.images.len() - i,
        {
            let e = self.images[i].duplicate();
            let cleared = ImageEntry {
                id: e.id,
                path: e.path,
                original_order: e.original_order,
                decision: e.decision,
                queued_action: None,
                rename_sequence: e.rename_sequence,
                meta: e.meta,
            };
            self.images.set(i, cleared);
            i = i + 1;
        }
        assert(self@.images =~= old(self)@.images.map_values(|e: ImageEntry| unqueued_entry(e)));
        self.queued_ids.clear();
        proof { lemma_wf_same_ids(old(self)@, self@); }
        self.rebuild_projection_counters();
    }

    pub fn projection(&self) -> (res: &ReadModelProjection)
        ensures
            *res == self.projection,
    {
        &self.projection
    }

    /// Sorts the images under `mode`, keeping the cursor on the current image.
    pub fn set_sort_mode(&mut self, mode: SortMode)
        requires
            old(self)@.wf(),
        ensures
            super::sorting::is_stable_sort(old(self)@.images, mode, final(self)@.order),
            final(self)@ == old(self)@.resorted(mode, final(self)@.order),
            final(self)@.wf(),
    {
        let current_id = self.current_id();
        let ghost m0 = self@;
        self.sort_mode = mode;
        let order = sort_indices(self.images.as_slice(), mode);
        self.order = order;
        match current_id {
            Some(id) => {
                match self.position_of(id) {
                    Some(position) => {
                        proof { lemma_first_position_in_range(self@.images, self@.order, id, 0); }
                        self.cursor = position;
                    },
                    None => {},
                }
            },
            None => {},
        }
        self.rebuild_queue_from_order();
        self.update_stack_projection(STACK_RADIUS);
        self.update_preload();
        self.sync_selected_to_current_image();
    }

    /// Opens or closes the files sidebar. Opening it takes the keyboard from the
    /// queue panel; closing it hands the keyboard to the queue panel when that is shown.
    pub fn toggle_sidebar(&mut self)
        ensures
            final(self)@ == old(self)@.sidebar_toggled(),
    {
        self.sidebar_expanded = !self.sidebar_expanded;
        if self.sidebar_expanded {
            self.queue_focus = false;
        } else {
            self.queue_focus = self.queue_sidebar_visible;
        }
    }
}

pub(crate) proof fn lemma_reindexed(order: Seq<usize>, r: usize, n: nat)
    requires
        r < n,
        forall|i: int| 0 <= i < order.len() ==> order[i] < n,
    ensures
        forall|i: int| 0 <= i < reindexed(order, r).len() ==> reindexed(order, r)[i] < n - 1,
        reindexed(order, r).len() <= order.len(),
        order.contains(r) ==> reindexed(order, r).len() < order.len(),
    decreases order.len(),
{
    if order.len() > 0 {
        lemma_reindexed(order.drop_last(), r, n);
        if order.contains(r) && order.last() != r {
            let k = choose|k: int| 0 <= k < order.len() && order[k] == r;
            assert(order.drop_last()[k] == r);
        }
    }
}

impl AppStateInner {
    fn queue_position(&self) -> (res: Option<usize>)
        ensures
            opt_int(res) == self@.queue_position(),
    {
        match self.selected_queue_image_id {
            Some(id) => self.queue_index_of(id),
            None => None,
        }
    }

    fn queue_index_of(&self, id: u64) -> (res: Option<usize>)
        ensures
            opt_int(res) == first_index_in(self@.queued_ids, id, 0),
    {
        let mut i: usize = 0;
        while i < self.queued_ids.len()
            invariant
                i <= self.queued_ids.len(),
                first_index_in(self@.queued_ids, id, 0) == first_index_in(self@.queued_ids, id, i as int),
            decreases self.queued_ids.len() - i,
        {
            if self.queued_ids[i] == id {
                return Some(i);
            }
            i = i + 1;
        }
        None
    }

    /// Whether the queue panel is shown and has the keyboard.
    pub fn queue_is_selected(&self) -> (res: bool)
        ensures
            res == self@.queue_is_selected(),
    {
        self.queue_sidebar_visible && self.queue_focus
    }

    /// Shows or hides the queue panel. Showing it gives it the keyboard and
    /// keeps its selection when that is still queued, else selects the first entry.
    pub fn toggle_queue_sidebar(&mut self)
        ensures
            final(self)@ == old(self)@.queue_toggled(),
    {
        if !self.queue_sidebar_visible {
            let keep = self.queue_position().is_some();
            if !keep {
                self.selected_queue_image_id = if self.queued_ids.len() > 0 {
                    Some(self.queued_ids[0])
                } else {
                    None
                };
            }
            self.queue_sidebar_visible = true;
            self.queue_focus = true;
        } else {
            self.queue_sidebar_visible = false;
            self.queue_focus = false;
        }
    }

    /// Gives the keyboard to the queue panel.
    pub fn activate_queue_focus(&mut self)
        ensures
            final(self)@ == (AppModel { queue_focus: true, ..old(self)@ }),
    {
        self.queue_focus = true;
    }

    /// Selects the first queue entry; false when the queue is empty.
    pub fn select_queue_first(&mut self) -> (found: bool)
        ensures
            found == (old(self)@.queued_ids.len() > 0),
            final(self)@ == if found {
                AppModel { selected_queue_image_id: Some(old(self)@.queued_ids[0]), ..old(self)@ }
            } else {
                old(self)@
            },
    {
        if self.queued_ids.len() == 0 {
            return false;
        }
        self.selected_queue_image_id = Some(self.queued_ids[0]);
        true
    }

    /// Selects the last queue entry; false when the queue is empty.
    pub fn select_queue_last(&mut self) -> (found: bool)
        ensures
            found == (old(self)@.queued_ids.len() > 0),
            final(self)@ == if found {
                AppModel { selected_queue_image_id: Some(old(self)@.queued_ids.last()), ..old(self)@ }
            } else {
                old(self)@
            },
    {
        let n = self.queued_ids.len();
        if n == 0 {
            return false;
        }
        self.selected_queue_image_id = Some(self.queued_ids[n - 1]);
        true
    }

    /// Selects the queue entry after the selected one (the first entry when
    /// none is selected); false at the last entry.
    pub fn select_queue_next(&mut self) -> (moved: bool)
        ensures
            ({
                let m = old(self)@;
                let q = m.queued_ids;
                if q.len() == 0 {
                    !moved && final(self)@ == m
                } else {
                    match m.queue_position() {
                        Some(p) => if p + 1 < q.len() {
                            moved && final(self)@ == (AppModel { selected_queue_image_id: Some(q[p + 1]), ..m })
                        } else {
                            !moved && final(self)@ == m
                        },
                        None => moved && final(self)@ == (AppModel { selected_queue_image_id: Some(q[0]), ..m }),
                    }
                }
            }),
    {
        let n = self.queued_ids.len();
        if n == 0 {
            return false;
        }
        let next = match self.queue_position() {
            Some(p) => {
                proof { lemma_first_index_in_range(self@.queued_ids, self.selected_queue_image_id->0, 0); }
                if p + 1 < n {
                    p + 1
                } else {
                    return false;
                }
            },
            None => 0,
        };
        self.selected_queue_image_id = Some(self.queued_ids[next]);
        true
    }

    /// Selects the queue entry before the selected one (the first entry when
    /// none is selected); false at the first entry.
    pub fn select_queue_prev(&mut self) -> (moved: bool)
        ensures
            ({
                let m = old(self)@;
                let q = m.queued_ids;
                if q.len() == 0 {
                    !moved && final(self)@ == m
                } else {
                    match m.queue_position() {
                        Some(p) => if p > 0 {
                            moved && final(self)@ == (AppModel { selected_queue_image_id: Some(q[p - 1]), ..m })
                        } else {
                            !moved && final(self)@ == m
                        },
                        None => moved && final(self)@ == (AppModel { selected_queue_image_id: Some(q[0]), ..m }),
                    }
                }
            }),
    {
        let n = self.queued_ids.len();
        if n == 0 {
            return false;
        }
        let prev = match self.queue_position() {
            Some(p) => {
                proof { lemma_first_index_in_range(self@.queued_ids, self.selected_queue_image_id->0, 0); }
                if p > 0 {
                    p - 1
                } else {
                    return false;
                }
            },
            None => 0,
        };
        self.selected_queue_image_id = Some(self.queued_ids[prev]);
        true
    }

    /// Selects the queue entry of the given image; false when it is not queued.
    pub fn select_queue_item_by_id(&mut self, image_id: u64) -> (found: bool)
        ensures
            found == (first_index_in(old(self)@.queued_ids, image_id, 0) is Some),
            final(self)@ == if found {
                AppModel { selected_queue_image_id: Some(image_id), ..old(self)@ }
            } else {
                old(self)@
            },
    {
        if self.queue_index_of(image_id).is_some() {
            self.selected_queue_image_id = Some(image_id);
            true
        } else {
            false
        }
    }

    /// Takes the selected entry out of the queue; its image is undecided again
    /// and the selection moves to a neighbour. Returns the image's id.
    pub fn remove_selected_queue_item(&mut self) -> (removed: Option<u64>)
        requires
            old(self)@.wf(),
        ensures
            final(self)@.wf(),
            match old(self)@.queue_position() {
                Some(p) => removed == Some(old(self)@.queued_ids[p]) && final(self)@ == old(self)@.queue_item_removed(),
                None => removed is None && final(self)@ == old(self)@,
            },
    {
        let p = match self.queue_position() {
            Some(p) => p,
            None => return None,
        };
        proof { lemma_first_index_in_range(self@.queued_ids, self.selected_queue_image_id->0, 0); }
        let id = self.queued_ids[p];
        match self.first_image_with_id(id) {
            Some(j) => {
                proof { lemma_first_image_in_range(self@.images, id, 0); }
                let e = self.images[j].duplicate();
                let cleared = ImageEntry {
                    id: e.id,
                    path: e.path,
                    original_order: e.original_order,
                    decision: DecisionState::Undecided,
                    queued_action: None,
                    rename_sequence: e.rename_sequence,
                    meta: e.meta,
                };
                self.images.set(j, cleared);
                proof { lemma_wf_same_ids(old(self)@, self@); }
            },
            None => {},
        }
        self.rebuild_queue_from_order();
        self.rebuild_projection_counters();
        self.repair_queue_selection(p);
        Some(id)
    }

    fn repair_queue_selection(&mut self, left_position: usize)
        ensures
            final(self)@ == old(self)@.queue_selection_repaired(Some(left_position as int)),
    {
        let n = self.queued_ids.len();
        self.selected_queue_image_id = if left_position < n {
            Some(self.queued_ids[left_position])
        } else if 0 < left_position && left_position - 1 < n {
            Some(self.queued_ids[left_position - 1])
        } else if n > 0 {
            Some(self.queued_ids[n - 1])
        } else {
            None
        };
    }

    /// Decides the image of the selected queue entry anew for `side`, replacing
    /// its queued action. False when no queued entry is selected.
    pub fn override_selected_queue_action(&mut self, side: DecisionSide) -> (done: bool)
        requires
            old(self)@.wf(),
            old(self)@.override_takes_rename_number(side) ==> old(self).rename_counter < u64::MAX,
        ensures
            final(self)@.wf(),
            done == (old(self)@.queue_position() matches Some(p)
                && first_image_with_id(old(self)@.images, old(self)@.queued_ids[p], 0) is Some),
            final(self)@ == if done { old(self)@.queue_item_overridden(side) } else { old(self)@ },
    {
        let p = match self.queue_position() {
            Some(p) => p,
            None => return false,
        };
        proof { lemma_first_index_in_range(self@.queued_ids, self.selected_queue_image_id->0, 0); }
        let id = self.queued_ids[p];
        let j = match self.first_image_with_id(id) {
            Some(j) => j,
            None => return false,
        };
        proof { lemma_first_image_in_range(self@.images, id, 0); }
        let action = self.action_mapping.action_for(side);
        let e = self.images[j].duplicate();
        let takes = match &action {
            ActionConfig::Rename { .. } => e.rename_sequence.is_none(),
            _ => false,
        };
        let sequence = if takes { Some(self.rename_counter) } else { e.rename_sequence };
        let updated = ImageEntry {
            id: e.id,
            path: e.path,
            original_order: e.original_order,
            decision: DecisionState::Decided { side, action: action.duplicate() },
            queued_action: Some(action),
            rename_sequence: sequence,
            meta: e.meta,
        };
        self.images.set(j, updated);
        if takes {
            self.rename_counter = self.rename_counter + 1;
        }
        proof { lemma_wf_same_ids(old(self)@, self@); }
        self.rebuild_queue_from_order();
        self.rebuild_projection_counters();
        true
    }

    /// The selected queue entry as applying it needs it: the image id, path,
    /// queued action and rename number.
    pub fn queue_selected_item_for_apply(&self) -> (res: Option<(u64, String, ActionConfig, Option<u64>)>)
        ensures
            res == match self@.queue_position() {
                Some(p) => match first_image_with_id(self@.images, self@.queued_ids[p], 0) {
                    Some(j) => match self@.images[j].queued_action {
                        Some(a) => Some(
                            (self@.queued_ids[p], self@.images[j].path, a, self@.images[j].rename_sequence),
                        ),
                        None => None,
                    },
                    None => None,
                },
                None => None,
            },
    {
        let p = match self.queue_position() {
            Some(p) => p,
            None => return None,
        };
        proof { lemma_first_index_in_range(self@.queued_ids, self.selected_queue_image_id->0, 0); }
        let id = self.queued_ids[p];
        let j = match self.first_image_with_id(id) {
            Some(j) => j,
            None => return None,
        };
        proof { lemma_first_image_in_range(self@.images, id, 0); }
        let image = &self.images[j];
        match &image.queued_action {
            Some(action) => Some((id, image.path.clone(), action.duplicate(), image.rename_sequence)),
            None => None,
        }
    }
}

impl AppStateInner {
    /// Removes the image at position `k` of the order from the list, the order
    /// and the sidebar.
    fn drop_image_at(&mut self, k: usize, image_id: u64)
        requires
            old(self)@.wf(),
            k < old(self)@.order.len(),
            old(self)@.images[old(self)@.order[k as int] as int].id == image_id,
        ensures
            final(self)@.wf(),
            ({
                let m = old(self)@;
                let r = m.order[k as int];
                let order = reindexed(m.order, r);
                let cursor: usize = if order.len() == 0 {
                    0
                } else if m.cursor < order.len() {
                    m.cursor
                } else {
                    (order.len() - 1) as usize
                };
                final(self)@ == (AppModel {
                    images: m.images.remove(r as int),
                    order,
                    cursor,
                    nav_entries: without_file_rows(m.nav_entries, image_id),
                    ..m
                })
            }),
    {
        let ghost m = self@;
        let r = self.order[k];
        proof {
            lemma_reindexed(m.order, r, m.images.len());
            assert(m.order.contains(r));
        }
        let mut order: Vec<usize> = Vec::new();
        let mut i: usize = 0;
        while i < self.order.len()
            invariant
                self@ == m,
                r < m.images.len(),
                i <= self.order.len(),
                order@ == reindexed(m.order.take(i as int), r),
            decreases self.order.len() - i,
        {
            assert(m.order.take(i + 1).drop_last() =~= m.order.take(i as int));
            let x = self.order[i];
            if x > r {
                order.push(x - 1);
            } else if x < r {
                order.push(x);
            }
            i = i + 1;
        }
        assert(m.order.take(m.order.len() as int) =~= m.order);
        let mut nav: Vec<NavEntry> = Vec::new();
        let mut i: usize = 0;
        while i < self.nav_entries.len()
            invariant
                self@ == m,
                i <= self.nav_entries.len(),
                nav@.map_values(|e: NavEntry| e@) == without_file_rows(m.nav_entries.take(i as int), image_id),
            decreases self.nav_entries.len() - i,
        {
            assert(m.nav_entries.take(i + 1).drop_last() =~= m.nav_entries.take(i as int));
            assert(m.nav_entries[i as int] == self.nav_entries@[i as int]@);
            let e = &self.nav_entries[i];
            let is_row = e.kind == NavEntryKind::File && e.image_id == Some(image_id);
            if !is_row {
                let ghost before = nav@;
                nav.push(e.duplicate());
                assert(nav@.map_values(|e: NavEntry| e@) =~= before.map_values(|e: NavEntry| e@).push(e@));
            }
            i = i + 1;
        }
        assert(m.nav_entries.take(m.nav_entries.len() as int) =~= m.nav_entries);
        self.images.remove(r);
        self.order = order;
        self.nav_entries = nav;
        let n = self.order.len();
        self.cursor = if n == 0 {
            0
        } else if self.cursor < n {
            self.cursor
        } else {
            n - 1
        };
        proof {
            let m2 = self@;
            assert forall|i: int| 0 <= i < m2.nav_entries.len() && (#[trigger] m2.nav_entries[i]).kind == NavEntryKind::File
                implies m2.nav_entries[i].image_id is Some && has_image(m2.images, m2.nav_entries[i].image_id->0) by {
                lemma_without_file_rows(m.nav_entries, image_id);
                let kk = choose|kk: int| 0 <= kk < m.nav_entries.len() && #[trigger] without_file_rows(m.nav_entries, image_id)[i]
                    == m.nav_entries[kk] && !is_file_row_of(m.nav_entries[kk], image_id);
                assert(m.nav_entries[kk].kind == NavEntryKind::File);
                let id2 = m.nav_entries[kk].image_id->0;
                assert(id2 != image_id);
                let j = choose|j: int| 0 <= j < m.images.len() && #[trigger] m.images[j].id == id2;
                assert(j != r);
                if j < r {
                    assert(m2.images[j].id == id2);
                } else {
                    assert(m2.images[j - 1].id == id2);
                }
            }
        }
    }

    /// Records that the queued action of the given image ran: when the file
    /// left its place the image leaves the list, the order and the sidebar,
    /// otherwise its queued action is cleared; the queue, counters and views
    /// follow, and a queue selection on it moves to a neighbour.
    pub fn apply_selected_queue_action_result(&mut self, image_id: u64, action: &ActionConfig)
        requires
            old(self)@.wf(),
        ensures
            final(self)@.wf(),
            final(self)@ == old(self)@.action_result_applied(image_id, *action),
    {
        let left_position = self.queue_index_of(image_id);
        let was_selected = self.selected_queue_image_id == Some(image_id);
        let keeps = match action {
            ActionConfig::Keep => true,
            ActionConfig::MetadataEdit { .. } => true,
            _ => false,
        };
        let position = if keeps { None } else { self.position_of(image_id) };
        match position {
            Some(k) => {
                proof { lemma_first_position_in_range(self@.images, self@.order, image_id, 0); }
                self.drop_image_at(k, image_id);
            },
            None => {
                match self.first_image_with_id(image_id) {
                    Some(j) => {
                        proof { lemma_first_image_in_range(self@.images, image_id, 0); }
                        let e = self.images[j].duplicate();
                        let cleared = ImageEntry {
                            id: e.id,
                            path: e.path,
                            original_order: e.original_order,
                            decision: e.decision,
                            queued_action: None,
                            rename_sequence: e.rename_sequence,
                            meta: e.meta,
                        };
                        self.images.set(j, cleared);
                        proof { lemma_wf_same_ids(old(self)@, self@); }
                    },
                    None => {},
                }
            },
        }
        self.rebuild_queue_from_order();
        self.rebuild_projection_counters();
        self.update_stack_projection(STACK_RADIUS);
        self.update_preload();
        self.sync_selected_to_current_image();
        if was_selected {
            match left_position {
                Some(p) => self.repair_queue_selection(p),
                None => {},
            }
        }
    }
}

/// Paths in the order `Path` gives them, pair by pair.
pub open spec fn paths_in_order(paths: Seq<String>) -> bool {
    forall|i: int| 0 <= i < paths.len() - 1 ==> path_order(paths[i]@, #[trigger] paths[i + 1]@) <= 0
}

/// `sorted` is `paths` rearranged, `src` saying where each of its paths came
/// from: in path order, and two paths that compare equal (the later one
/// against the earlier) stay in the order they had in `paths`.
pub open spec fn is_path_sort_by(sorted: Seq<String>, paths: Seq<String>, src: Seq<int>) -> bool {
    &&& src.len() == sorted.len()
    &&& sorted.len() == paths.len()
    &&& forall|i: int| 0 <= i < src.len() ==> 0 <= #[trigger] src[i] < paths.len() && sorted[i] == paths[src[i]]
    &&& src.no_duplicates()
    &&& paths_in_order(sorted)
    &&& forall|i: int, j: int|
        0 <= i < j < sorted.len() && path_order(#[trigger] sorted[j]@, #[trigger] sorted[i]@) == 0 ==> src[i] < src[j]
}

/// `sorted` holds the paths of `paths`, each as often, in path order, equal
/// paths in the order they came in.
pub open spec fn is_path_sort(sorted: Seq<String>, paths: Seq<String>) -> bool {
    &&& sorted.to_multiset() == paths.to_multiset()
    &&& paths_in_order(sorted)
    &&& exists|src: Seq<int>| #[trigger] is_path_sort_by(sorted, paths, src)
}

/// Sorts paths the way `Path` orders them, keeping equal paths in their order.
#[verifier::rlimit(50)]
pub fn sort_paths(paths: Vec<String>) -> (sorted: Vec<String>)
    ensures
        is_path_sort(sorted@, paths@),
{
    let mut sorted: Vec<String> = Vec::new();
    let mut k: usize = 0;
    let ghost mut src: Seq<int> = Seq::empty();
    assert(paths@.take(0) =~= sorted@);
    while k < paths.len()
        invariant
            k <= paths.len(),
            sorted@.to_multiset() == paths@.take(k as int).to_multiset(),
            is_path_sort_by(sorted@, paths@.take(k as int), src),
        decreases paths.len() - k,
    {
        let x = paths[k].clone();
        let mut p: usize = sorted.len();
        while p > 0
            invariant
                p <= sorted.len(),
                forall|i: int| p <= i < sorted.len() ==> path_order(sorted@[i]@, x@) > 0,
            ensures
                p <= sorted.len(),
                p == 0 || path_order(sorted@[p - 1]@, x@) <= 0,
                forall|i: int| p <= i < sorted.len() ==> path_order(sorted@[i]@, x@) > 0,
            decreases p,
        {
            let c = path_compare(sorted[p - 1].as_str(), x.as_str());
            if c <= 0 {
                break;
            }
            p = p - 1;
        }
        let ghost before = sorted@;
        if p < sorted.len() {
            let _ = path_compare(x.as_str(), sorted[p].as_str());
        }
        let ghost xv = x;
        let ghost src0 = src;
        sorted.insert(p, x);
        proof {
            src = src0.insert(p as int, k as int);
            let pk = paths@.take(k as int);
            let pk1 = paths@.take(k + 1);
            assert(sorted@ == before.insert(p as int, xv));
            assert forall|i: int| 0 <= i < src.len() implies 0 <= #[trigger] src[i] < pk1.len() && sorted@[i] == pk1[src[i]] by {
                if i < p {
                    assert(src[i] == src0[i]);
                    assert(pk[src0[i]] == pk1[src0[i]]);
                } else if i > p {
                    assert(src[i] == src0[i - 1]);
                    assert(pk[src0[i - 1]] == pk1[src0[i - 1]]);
                }
            }
            assert(src.no_duplicates()) by {
                assert forall|i: int, j: int| 0 <= i < src.len() && 0 <= j < src.len() && i != j implies src[i] != src[j] by {
                    if i != p && j != p {
                        let a = if i < p { i } else { i - 1 };
                        let b = if j < p { j } else { j - 1 };
                        assert(src[i] == src0[a] && src[j] == src0[b]);
                        assert(0 <= src0[a] < pk.len());
                    } else if i == p {
                        let b = if j < p { j } else { j - 1 };
                        assert(src[j] == src0[b]);
                        assert(0 <= src0[b] < pk.len());
                    } else {
                        let a = if i < p { i } else { i - 1 };
                        assert(src[i] == src0[a]);
                        assert(0 <= src0[a] < pk.len());
                    }
                }
            }
            assert forall|i: int, j: int|
                0 <= i < j < sorted@.len() && path_order(#[trigger] sorted@[j]@, #[trigger] sorted@[i]@) == 0 implies src[i] < src[j] by {
                if j < p {
                    assert(sorted@[i] == before[i] && sorted@[j] == before[j]);
                    assert(src[i] == src0[i] && src[j] == src0[j]);
                } else if j == p {
                    assert(src[i] == src0[i]);
                    assert(0 <= src0[i] < pk.len());
                } else if i == p {
                    assert(sorted@[j] == before[j - 1]);
                    assert(path_order(before[j - 1]@, xv@) > 0);
                } else if i < p {
                    assert(sorted@[i] == before[i] && sorted@[j] == before[j - 1]);
                    assert(src[i] == src0[i] && src[j] == src0[j - 1]);
                } else {
                    assert(sorted@[i] == before[i - 1] && sorted@[j] == before[j - 1]);
                    assert(src[i] == src0[i - 1] && src[j] == src0[j - 1]);
                }
            }
            assert(xv == paths@[k as int]);
            assert(paths@.take(k + 1) =~= paths@.take(k as int).push(paths@[k as int]));
            vstd::seq_lib::to_multiset_insert(before, p as int, xv);
            vstd::seq_lib::to_multiset_build(paths@.take(k as int), xv);
            assert(sorted@.to_multiset() == before.to_multiset().insert(xv));
            assert(paths@.take(k + 1).to_multiset() == paths@.take(k as int).to_multiset().insert(xv));
            assert forall|i: int| 0 <= i < sorted@.len() - 1 implies path_order(sorted@[i]@, #[trigger] sorted@[i + 1]@) <= 0 by {
                if i + 1 < p {
                    assert(sorted@[i] == before[i] && sorted@[i + 1] == before[i + 1]);
                    assert(path_order(before[i]@, before[i + 1]@) <= 0);
                } else if i + 1 == p {
                    assert(sorted@[i] == before[i] && sorted@[i + 1] == xv);
                } else if i == p {
                    assert(sorted@[i] == xv && sorted@[i + 1] == before[p as int]);
                    assert(path_order(before[p as int]@, xv@) > 0);
                } else {
                    assert(sorted@[i] == before[i - 1] && sorted@[i + 1] == before[i]);
                    let j = i - 1;
                    assert(path_order(before[j]@, before[j + 1]@) <= 0);
                }
            }
        }
        k = k + 1;
    }
    assert(paths@.take(paths.len() as int) =~= paths@);
    assert(is_path_sort_by(sorted@, paths@, src));
    sorted
}

/// What `Hash` of a path gives under `DefaultHasher::new()`, whose instances
/// all start from the same keys.
pub uninterp spec fn path_hash(p: Seq<char>) -> u64;

/// `Hash` of a path under `DefaultHasher::new()`; the contract names the
/// result. Which algorithm it is (and so which value) is left unsaid.
#[verifier::external_body]
fn hash_path(rel_path: &str) -> (res: u64)
    ensures
        res == path_hash(rel_path@),
{
    let mut hasher = std::collections::hash_map::DefaultHasher::new();
    std::path::PathBuf::from(rel_path).hash(&mut hasher);
    hasher.finish()
}

/// The id of a directory row: the path's hash with the top bit set, so that it
/// never equals the id of an image numbered below 2^63.
pub open spec fn directory_id(rel: Seq<char>) -> u64 {
    (path_hash(rel) & !(1u64 << 63)) | (1u64 << 63)
}

fn directory_entry_id(rel_path: &str) -> (id: u64)
    ensures
        id == directory_id(rel_path@),
        id >= 0x8000_0000_0000_0000u64,
{
    let h = hash_path(rel_path);
    let id = (h & !(1u64 << 63)) | (1u64 << 63);
    assert(((h & !(1u64 << 63)) | (1u64 << 63)) >= 0x8000_0000_0000_0000u64) by (bit_vector);
    id
}

/// The label of a row: the last component of its path, else the whole path.
pub open spec fn row_label(rel: Seq<char>) -> Seq<char> {
    match file_name_of(rel) {
        Some(name) => name,
        None => rel,
    }
}

/// The path of an image relative to the root, when it lies within it.
pub open spec fn relative_to_root(path: Seq<char>, root: Option<String>) -> Seq<char> {
    match root {
        Some(r) => match stripped_prefix(path, r@) {
            Some(q) => q,
            None => path,
        },
        None => path,
    }
}

/// The sidebar row of an image.
pub open spec fn file_row(e: ImageEntry, root: Option<String>) -> NavModel {
    let rel = relative_to_root(e.path@, root);
    NavModel {
        id: e.id,
        rel_path: rel,
        label: row_label(rel),
        kind: NavEntryKind::File,
        image_id: Some(e.id),
        is_parent_link: false,
    }
}

/// The file rows of the images, in the order of `order`.
pub open spec fn file_rows(images: Seq<ImageEntry>, order: Seq<usize>, root: Option<String>) -> Seq<NavModel>
    decreases order.len(),
{
    if order.len() == 0 {
        Seq::empty()
    } else {
        let rest = file_rows(images, order.drop_last(), root);
        if order.last() < images.len() {
            rest.push(file_row(images[order.last() as int], root))
        } else {
            rest
        }
    }
}

/// The path, relative to the root, of the row that leads to the parent of the
/// current directory, when there is one.
pub open spec fn parent_row_path(root: Option<String>, current: Option<String>) -> Option<Seq<char>> {
    match (root, current) {
        (Some(r), Some(c)) => if same_path(c@, r@) {
            None
        } else {
            match parent_of(c@) {
                Some(p) => stripped_prefix(p, r@),
                None => None,
            }
        },
        _ => None,
    }
}

/// A directory row for `rel` (the parent row when `parent_link`).
pub open spec fn is_directory_row(row: NavModel, rel: Seq<char>, parent_link: bool) -> bool {
    &&& row.rel_path == rel
    &&& row.label == if parent_link { ".."@ } else { row_label(rel) }
    &&& row.kind == NavEntryKind::Directory
    &&& row.image_id is None
    &&& row.is_parent_link == parent_link
    &&& row.id == directory_id(rel)
    &&& row.id >= 0x8000_0000_0000_0000u64
}

/// The sidebar lists, in this order: the parent row (when the current
/// directory is below the root), a row per directory of `dirs`, and a row per
/// image in sort order.
pub open spec fn is_sidebar_for(
    nav: Seq<NavModel>,
    root: Option<String>,
    current: Option<String>,
    dirs: Seq<String>,
    images: Seq<ImageEntry>,
    order: Seq<usize>,
) -> bool {
    let head: int = if parent_row_path(root, current) is Some { 1 } else { 0 };
    &&& nav.len() == head + dirs.len() + file_rows(images, order, root).len()
    &&& parent_row_path(root, current) matches Some(rel) ==> is_directory_row(nav[0], rel, true)
    &&& forall|i: int| 0 <= i < dirs.len() ==> is_directory_row(nav[head + i], (#[trigger] dirs[i])@, false)
    &&& nav.subrange(head + dirs.len(), nav.len() as int) == file_rows(images, order, root)
}

proof fn lemma_file_rows(images: Seq<ImageEntry>, order: Seq<usize>, root: Option<String>)
    ensures
        forall|i: int| 0 <= i < file_rows(images, order, root).len() ==> {
            let row = #[trigger] file_rows(images, order, root)[i];
            row.kind == NavEntryKind::File && row.image_id is Some && has_image(images, row.image_id->0)
        },
    decreases order.len(),
{
    if order.len() > 0 {
        lemma_file_rows(images, order.drop_last(), root);
        let rest = file_rows(images, order.drop_last(), root);
        assert forall|i: int| 0 <= i < file_rows(images, order, root).len() implies {
            let row = #[trigger] file_rows(images, order, root)[i];
            row.kind == NavEntryKind::File && row.image_id is Some && has_image(images, row.image_id->0)
        } by {
            if i < rest.len() {
                assert(file_rows(images, order, root)[i] == rest[i]);
            } else {
                let idx = order.last() as int;
                assert(images[idx].id == images[idx].id);
            }
        }
    }
}

/// The label of a row for `rel`.
fn label_for(rel: &String) -> (label: String)
    ensures
        label@ == row_label(rel@),
{
    match path_file_name(rel.as_str()) {
        Some(name) => name,
        None => rel.clone(),
    }
}

impl AppStateInner {
    fn image_row(&self, idx: usize) -> (row: NavEntry)
        requires
            idx < self.images.len(),
        ensures
            row@ == file_row(self@.images[idx as int], self.root_dir),
    {
        let image = &self.images[idx];
        let rel_path = match &self.root_dir {
            Some(root) => match path_strip_prefix(image.path.as_str(), root.as_str()) {
                Some(q) => q,
                None => image.path.clone(),
            },
            None => image.path.clone(),
        };
        let label = label_for(&rel_path);
        NavEntry {
            id: image.id,
            rel_path,
            label,
            kind: NavEntryKind::File,
            image_id: Some(image.id),
            is_parent_link: false,
        }
    }

    fn parent_row(&self) -> (row: Option<NavEntry>)
        ensures
            match parent_row_path(self.root_dir, self.current_dir) {
                Some(rel) => row matches Some(r) && is_directory_row(r@, rel, true),
                None => row is None,
            },
    {
        let (root, current) = match (&self.root_dir, &self.current_dir) {
            (Some(root), Some(current)) => (root, current),
            _ => return None,
        };
        if path_eq(current.as_str(), root.as_str()) {
            return None;
        }
        let parent = match path_parent(current.as_str()) {
            Some(parent) => parent,
            None => return None,
        };
        let rel_path = match path_strip_prefix(parent.as_str(), root.as_str()) {
            Some(rel) => rel,
            None => return None,
        };
        let id = directory_entry_id(rel_path.as_str());
        Some(NavEntry {
            id,
            rel_path,
            label: String::from_str(".."),
            kind: NavEntryKind::Directory,
            image_id: None,
            is_parent_link: true,
        })
    }

    /// Rebuilds the sidebar from the directories and the images in sort order.
    fn rebuild_nav_entries(&mut self, directories: Vec<String>)
        ensures
            exists|dirs: Seq<String>| {
                &&& is_path_sort(dirs, directories@)
                &&& is_sidebar_for(
                    final(self)@.nav_entries,
                    old(self).root_dir,
                    old(self).current_dir,
                    dirs,
                    old(self)@.images,
                    old(self)@.order,
                )
            },
            final(self)@ == (AppModel { nav_entries: final(self)@.nav_entries, ..old(self)@ }),
    {
        let dirs = sort_paths(directories);
        let mut entries: Vec<NavEntry> = Vec::new();
        let parent = self.parent_row();
        let head: usize = match parent {
            Some(row) => {
                entries.push(row);
                1
            },
            None => 0,
        };
        let ghost head_rows = entries@.map_values(|e: NavEntry| e@);
        let mut i: usize = 0;
        while i < dirs.len()
            invariant
                i <= dirs.len(),
                head == (if parent_row_path(self.root_dir, self.current_dir) is Some { 1usize } else { 0usize }),
                entries.len() == head + i,
                parent_row_path(self.root_dir, self.current_dir) matches Some(rel) ==> is_directory_row(entries@[0]@, rel, true),
                forall|k: int| 0 <= k < i ==> is_directory_row(#[trigger] entries@[head + k]@, dirs@[k]@, false),
            decreases dirs.len() - i,
        {
            let rel = dirs[i].clone();
            let label = label_for(&rel);
            let id = directory_entry_id(rel.as_str());
            entries.push(NavEntry {
                id,
                rel_path: rel,
                label,
                kind: NavEntryKind::Directory,
                image_id: None,
                is_parent_link: false,
            });
            i = i + 1;
        }
        let dir_end = entries.len();
        let mut k: usize = 0;
        while k < self.order.len()
            invariant
                k <= self.order.len(),
                dir_end == head + dirs.len(),
                entries.len() >= dir_end,
                head == (if parent_row_path(self.root_dir, self.current_dir) is Some { 1usize } else { 0usize }),
                parent_row_path(self.root_dir, self.current_dir) matches Some(rel) ==> is_directory_row(entries@[0]@, rel, true),
                forall|j: int| 0 <= j < dirs.len() ==> is_directory_row(#[trigger] entries@[head + j]@, dirs@[j]@, false),
                entries@.map_values(|e: NavEntry| e@).subrange(dir_end as int, entries.len() as int)
                    == file_rows(self@.images, self@.order.take(k as int), self.root_dir),
            decreases self.order.len() - k,
        {
            assert(self@.order.take(k + 1).drop_last() =~= self@.order.take(k as int));
            let idx = self.order[k];
            if idx < self.images.len() {
                let row = self.image_row(idx);
                let ghost before = entries@;
                entries.push(row);
                assert(entries@.map_values(|e: NavEntry| e@).subrange(dir_end as int, entries.len() as int)
                    =~= before.map_values(|e: NavEntry| e@).subrange(dir_end as int, before.len() as int).push(row@));
                assert forall|j: int| 0 <= j < dirs.len() implies is_directory_row(#[trigger] entries@[head + j]@, dirs@[j]@, false) by {
                    assert(entries@[head + j] == before[head + j]);
                }
            }
            k = k + 1;
        }
        assert(self@.order.take(self.order.len() as int) =~= self@.order);
        self.nav_entries = entries;
        proof {
            let nav = self@.nav_entries;
            assert(forall|j: int| 0 <= j < nav.len() ==> nav[j] == entries@[j]@);
            assert(nav.subrange(dir_end as int, nav.len() as int)
                =~= entries@.map_values(|e: NavEntry| e@).subrange(dir_end as int, entries.len() as int));
            assert(is_sidebar_for(nav, self.root_dir, self.current_dir, dirs@, self@.images, self@.order));
        }
    }
}

proof fn lemma_sidebar_wf(
    nav: Seq<NavModel>,
    root: Option<String>,
    current: Option<String>,
    dirs: Seq<String>,
    images: Seq<ImageEntry>,
    order: Seq<usize>,
)
    requires
        is_sidebar_for(nav, root, current, dirs, images, order),
    ensures
        forall|i: int|
            0 <= i < nav.len() && (#[trigger] nav[i]).kind == NavEntryKind::File
                ==> nav[i].image_id is Some && has_image(images, nav[i].image_id->0),
{
    lemma_file_rows(images, order, root);
    let head: int = if parent_row_path(root, current) is Some { 1 } else { 0 };
    let rows = file_rows(images, order, root);
    assert forall|i: int| 0 <= i < nav.len() && (#[trigger] nav[i]).kind == NavEntryKind::File
        implies nav[i].image_id is Some && has_image(images, nav[i].image_id->0) by {
        if i < head {
        } else if i < head + dirs.len() {
            let j = i - head;
            assert(is_directory_row(nav[head + j], dirs[j]@, false));
        } else {
            assert(nav[i] == nav.subrange(head + dirs.len(), nav.len() as int)[i - head - dirs.len()]);
            assert(nav[i] == rows[i - head - dirs.len()]);
        }
    }
}

impl AppStateInner {
    /// Takes in a new listing of the current directory: images (sorted by the
    /// sort mode), subdirectories (sorted as paths), the root and the current
    /// directory. The cursor returns to the first image and the undo history,
    /// rename numbers and directory actions are cleared.
    pub fn set_directory_snapshot(
        &mut self,
        images: Vec<ImageEntry>,
        directories: Vec<String>,
        root_dir: Option<String>,
        current_dir: Option<String>,
    )
        ensures
            super::sorting::is_stable_sort(images@, old(self).sort_mode, final(self)@.order),
            exists|dirs: Seq<String>| {
                &&& is_path_sort(dirs, directories@)
                &&& is_sidebar_for(
                    final(self)@.nav_entries,
                    if root_dir is Some { root_dir } else { old(self).root_dir },
                    current_dir,
                    dirs,
                    images@,
                    final(self)@.order,
                )
            },
            final(self)@ == old(self)@.snapshot_taken(
                images@,
                root_dir,
                current_dir,
                final(self)@.order,
                final(self)@.nav_entries,
            ),
            final(self)@.wf(),
    {
        if root_dir.is_some() {
            self.root_dir = root_dir;
        }
        self.current_dir = current_dir;
        self.images = images;
        self.scan_version = self.scan_version.saturating_add(1);
        self.order = sort_indices(self.images.as_slice(), self.sort_mode);
        self.cursor = 0;
        self.undo_stack.clear();
        self.rename_counter = 1;
        self.rebuild_queue_from_order();
        self.rebuild_nav_entries(directories);
        proof {
            let dirs = choose|dirs: Seq<String>| {
                &&& is_path_sort(dirs, directories@)
                &&& is_sidebar_for(self@.nav_entries, self.root_dir, self.current_dir, dirs, self@.images, self@.order)
            };
            lemma_sidebar_wf(self@.nav_entries, self.root_dir, self.current_dir, dirs, self@.images, self@.order);
        }
        self.rebuild_projection();
        self.update_preload();
        self.sync_selected_to_current_image();
        self.directory_actions_entry_id = None;
    }

    /// Takes in the images of the root directory, with no subdirectories.
    pub fn set_images(&mut self, images: Vec<ImageEntry>, root_dir: Option<String>)
        ensures
            super::sorting::is_stable_sort(images@, old(self).sort_mode, final(self)@.order),
            is_sidebar_for(
                final(self)@.nav_entries,
                if root_dir is Some { root_dir } else { old(self).root_dir },
                root_dir,
                Seq::empty(),
                images@,
                final(self)@.order,
            ),
            final(self)@ == old(self)@.snapshot_taken(
                images@,
                root_dir,
                root_dir,
                final(self)@.order,
                final(self)@.nav_entries,
            ),
            final(self)@.wf(),
    {
        let current_dir = match &root_dir {
            Some(root) => Some(root.clone()),
            None => None,
        };
        let ghost none: Seq<String> = Seq::empty();
        self.set_directory_snapshot(images, Vec::new(), root_dir, current_dir);
        proof {
            let dirs = choose|dirs: Seq<String>| {
                &&& is_path_sort(dirs, none)
                &&& is_sidebar_for(
                    self@.nav_entries,
                    if root_dir is Some { root_dir } else { old(self).root_dir },
                    current_dir,
                    dirs,
                    images@,
                    self@.order,
                )
            };
            assert(dirs.len() == 0) by {
                if dirs.len() > 0 {
                    assert(dirs.to_multiset().count(dirs[0]) > 0) by {
                        broadcast use vstd::seq_lib::group_to_multiset_ensures;
                        assert(dirs.contains(dirs[0]));
                    }
                    assert(none.to_multiset() =~= vstd::multiset::Multiset::empty()) by {
                        broadcast use vstd::seq_lib::group_to_multiset_ensures;
                    }
                }
            }
            assert(dirs =~= none);
        }
    }
}

#[derive(Clone, Debug)]
pub struct Init;

#[derive(Clone, Debug)]
pub struct Scanning;

#[derive(Clone, Debug)]
pub struct Ready;

#[derive(Clone, Debug)]
pub struct Viewing;

#[derive(Clone, Debug)]
pub struct Applying;

#[derive(Clone, Debug)]
pub struct Done;

/// A session in the phase `S`.
#[derive(Debug)]
pub struct App<S> {
    pub state: AppStateInner,
    pub marker: PhantomData<S>,
}

impl<S> App<S> {
    /// The same session in another phase.
    fn into_phase<T>(self) -> (res: App<T>)
        ensures
            res.state == self.state,
    {
        App { state: self.state, marker: PhantomData }
    }
}

impl App<Init> {
    pub fn new(queue_mode: bool, action_mapping: ActionMapping, sort_mode: SortMode) -> (res: Self)
        ensures
            res.state@ == AppModel::initial(queue_mode, action_mapping, sort_mode),
    {
        App { state: AppStateInner::new(queue_mode, action_mapping, sort_mode), marker: PhantomData }
    }

    pub fn start_scan(self) -> (res: App<Scanning>)
        ensures
            res.state == self.state,
    {
        self.into_phase()
    }
}

impl App<Scanning> {
    /// Ends the scan with the images of the root directory.
    pub fn with_images(self, images: Vec<ImageEntry>, root_dir: Option<String>) -> (res: App<Ready>)
        ensures
            res.state@.images_taken(self.state@, images@, root_dir),
    {
        let mut app = self;
        app.state.set_images(images, root_dir);
        app.into_phase()
    }
}

impl App<Ready> {
    pub fn start_viewing(self) -> (res: App<Viewing>)
        ensures
            res.state == self.state,
    {
        self.into_phase()
    }
}

impl App<Viewing> {
    pub fn start_applying(self) -> (res: App<Applying>)
        ensures
            res.state == self.state,
    {
        self.into_phase()
    }
}

impl App<Applying> {
    pub fn finish(self) -> (res: App<Done>)
        ensures
            res.state == self.state,
    {
        self.into_phase()
    }
}

impl App<Done> {
    pub fn restart(self) -> (res: App<Init>)
        ensures
            res.state == self.state,
    {
        self.into_phase()
    }
}

/// A session in whichever phase it is in.
#[derive(Debug)]
pub enum AppState {
    Init(App<Init>),
    Scanning(App<Scanning>),
    Ready(App<Ready>),
    Viewing(App<Viewing>),
    Applying(App<Applying>),
    Done(App<Done>),
}

impl AppState {
    /// The session's state, whatever the phase.
    pub open spec fn inner(self) -> AppStateInner {
        match self {
            AppState::Init(app) => app.state,
            AppState::Scanning(app) => app.state,
            AppState::Ready(app) => app.state,
            AppState::Viewing(app) => app.state,
            AppState::Applying(app) => app.state,
            AppState::Done(app) => app.state,
        }
    }

    pub open spec fn spec_mode(self) -> AppMode {
        match self {
            AppState::Init(_) => AppMode::Init,
            AppState::Scanning(_) => AppMode::Scanning,
            AppState::Ready(_) => AppMode::Ready,
            AppState::Viewing(_) => AppMode::Viewing,
            AppState::Applying(_) => AppMode::Applying,
            AppState::Done(_) => AppMode::Done,
        }
    }

    pub fn new(queue_mode: bool, action_mapping: ActionMapping, sort_mode: SortMode) -> (res: Self)
        ensures
            res.spec_mode() == AppMode::Init,
            res.inner()@ == AppModel::initial(queue_mode, action_mapping, sort_mode),
    {
        AppState::Init(App::new(queue_mode, action_mapping, sort_mode))
    }

    pub fn mode(&self) -> (res: AppMode)
        ensures
            res == self.spec_mode(),
    {
        match self {
            AppState::Init(_) => AppMode::Init,
            AppState::Scanning(_) => AppMode::Scanning,
            AppState::Ready(_) => AppMode::Ready,
            AppState::Viewing(_) => AppMode::Viewing,
            AppState::Applying(_) => AppMode::Applying,
            AppState::Done(_) => AppMode::Done,
        }
    }

    pub fn state(&self) -> (res: &AppStateInner)
        ensures
            *res == self.inner(),
    {
        match self {
            AppState::Init(app) => &app.state,
            AppState::Scanning(app) => &app.state,
            AppState::Ready(app) => &app.state,
            AppState::Viewing(app) => &app.state,
            AppState::Applying(app) => &app.state,
            AppState::Done(app) => &app.state,
        }
    }

    pub fn state_mut(&mut self) -> (res: &mut AppStateInner)
        ensures
            *res == old(self).inner(),
            final(self).spec_mode() == old(self).spec_mode(),
            final(self).inner() == *final(res),
    {
        match self {
            AppState::Init(app) => &mut app.state,
            AppState::Scanning(app) => &mut app.state,
            AppState::Ready(app) => &mut app.state,
            AppState::Viewing(app) => &mut app.state,
            AppState::Applying(app) => &mut app.state,
            AppState::Done(app) => &mut app.state,
        }
    }

    /// Takes the session out, leaving an empty one in its place.
    fn take(&mut self) -> (res: AppState)
        ensures
            res == *old(self),
    {
        let placeholder = AppStateInner::new(
            false,
            ActionMapping { left: ActionConfig::Keep, right: ActionConfig::Keep },
            SortMode { key: super::sorting::SortKey::Filesystem, direction: super::sorting::SortDirection::Asc },
        );
        let mut taken = AppState::Done(App { state: placeholder, marker: PhantomData });
        std::mem::swap(self, &mut taken);
        taken
    }

    /// Init → Scanning; any other phase stays as it is.
    pub fn transition_to_scanning(&mut self)
        ensures
            old(self).spec_mode() == AppMode::Init ==> final(self).spec_mode() == AppMode::Scanning
                && final(self).inner() == old(self).inner(),
            old(self).spec_mode() != AppMode::Init ==> *final(self) == *old(self),
    {
        let taken = self.take();
        *self = match taken {
            AppState::Init(app) => AppState::Scanning(app.start_scan()),
            other => other,
        };
    }

    /// Scanning → Ready with the images of the root directory; any other phase
    /// stays as it is.
    pub fn transition_to_ready(&mut self, images: Vec<ImageEntry>, root_dir: Option<String>)
        ensures
            old(self).spec_mode() == AppMode::Scanning ==> final(self).spec_mode() == AppMode::Ready
                && final(self).inner()@.images_taken(old(self).inner()@, images@, root_dir),
            old(self).spec_mode() != AppMode::Scanning ==> *final(self) == *old(self),
    {
        let taken = self.take();
        *self = match taken {
            AppState::Scanning(app) => AppState::Ready(app.with_images(images, root_dir)),
            other => other,
        };
    }

    /// Ready → Viewing; any other phase stays as it is.
    pub fn transition_to_viewing(&mut self)
        ensures
            old(self).spec_mode() == AppMode::Ready ==> final(self).spec_mode() == AppMode::Viewing
                && final(self).inner() == old(self).inner(),
            old(self).spec_mode() != AppMode::Ready ==> *final(self) == *old(self),
    {
        let taken = self.take();
        *self = match taken {
            AppState::Ready(app) => AppState::Viewing(app.start_viewing()),
            other => other,
        };
    }

    /// Viewing → Applying; any other phase stays as it is.
    pub fn transition_to_applying(&mut self)
        ensures
            old(self).spec_mode() == AppMode::Viewing ==> final(self).spec_mode() == AppMode::Applying
                && final(self).inner() == old(self).inner(),
            old(self).spec_mode() != AppMode::Viewing ==> *final(self) == *old(self),
    {
        let taken = self.take();
        *self = match taken {
            AppState::Viewing(app) => AppState::Applying(app.start_applying()),
            other => other,
        };
    }

    /// Applying → Done; any other phase stays as it is.
    pub fn transition_to_done(&mut self)
        ensures
            old(self).spec_mode() == AppMode::Applying ==> final(self).spec_mode() == AppMode::Done
                && final(self).inner() == old(self).inner(),
            old(self).spec_mode() != AppMode::Applying ==> *final(self) == *old(self),
    {
        let taken = self.take();
        *self = match taken {
            AppState::Applying(app) => AppState::Done(app.finish()),
            other => other,
        };
    }
}

} // verus!
