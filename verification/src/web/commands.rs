//! What each command of the page does to the session, and what it asks for
//! next: another directory, a decision, or parts of the page rendered again.
//! The work that touches files or the network is left to the caller.
use vstd::prelude::*;

use super::render::UiPatch;
use super::view::sort_mode_named;
use crate::domain::actions::{ActionConfig, DecisionSide, DecisionState};
use crate::domain::sorting::is_stable_sort;
use crate::domain::state::{
    AppModel, AppStateInner, ApplyResultSummary, ImageEntry, ModalView, NavDirection, NavEntryKind, first_image_with_id,
    first_index_in, unqueued_entry,
};
use crate::domain::undo::UndoEntry;
use crate::fs::FsConfig;
use crate::paths::{joined_path, opt_text, parent_of, path_has_prefix, path_join, path_parent, path_starts_with};
use crate::text::{push_all, trim_text, trimmed};

verus! {

/// What a command asks for once it changed the session.
#[derive(Clone, Debug)]
pub enum FollowUp {
    /// Open another directory, asking first when the queue is not empty.
    ChangeDirectory(String),
    /// Decide the current image for a side.
    Decide(DecisionSide),
    /// Render these parts of the page again.
    Render(UiPatch),
}

/// The state with the actions of a directory row closed.
pub open spec fn closed(m: AppModel) -> AppModel {
    AppModel { directory_actions_entry_id: None, ..m }
}

/// The selected sidebar row is a directory.
pub open spec fn directory_selected(m: AppModel) -> bool {
    m.selected_entry() matches Some(e) && e.kind == NavEntryKind::Directory
}

/// The left command: on a directory row it goes up to the parent directory
/// (or, with no parent to go to, only renders the viewer again); otherwise it
/// decides the current image for the left side.
pub fn left_command(state: &mut AppStateInner) -> (next: FollowUp)
    ensures
        final(state)@ == closed(old(state)@),
        match next {
            FollowUp::ChangeDirectory(path) => directory_selected(old(state)@)
                && old(state)@.parent_directory_path() == Some(path@),
            FollowUp::Render(patch) => directory_selected(old(state)@)
                && old(state)@.parent_directory_path() is None && patch == UiPatch::navigation(),
            FollowUp::Decide(side) => !directory_selected(old(state)@) && side == DecisionSide::Left,
        },
{
    state.close_directory_actions();
    if state.selected_entry_is_directory() {
        match state.navigate_to_parent_directory() {
            Some(path) => FollowUp::ChangeDirectory(path),
            None => FollowUp::Render(UiPatch::viewer_and_signals()),
        }
    } else {
        FollowUp::Decide(DecisionSide::Left)
    }
}

/// The right command: on a directory row it opens that directory; otherwise
/// (or when the directory has no path) it decides the current image for the
/// right side.
pub fn right_command(state: &mut AppStateInner) -> (next: FollowUp)
    ensures
        final(state)@ == closed(old(state)@),
        match next {
            FollowUp::ChangeDirectory(path) => directory_selected(old(state)@)
                && old(state)@.selected_directory_path() == Some(path@),
            FollowUp::Decide(side) => side == DecisionSide::Right && (!directory_selected(old(state)@)
                || old(state)@.selected_directory_path() is None),
            FollowUp::Render(_) => false,
        },
{
    state.close_directory_actions();
    if state.selected_entry_is_directory() {
        match state.navigate_to_selected_directory() {
            Some(path) => FollowUp::ChangeDirectory(path),
            None => FollowUp::Decide(DecisionSide::Right),
        }
    } else {
        FollowUp::Decide(DecisionSide::Right)
    }
}

/// The row a step through the sidebar selects: the next (or previous) row,
/// the first one when none is selected, none past either end.
pub open spec fn entry_step_target(m: AppModel, forward: bool) -> Option<u64> {
    let n = m.nav_entries.len();
    if n == 0 {
        None
    } else {
        match m.selected_entry_position() {
            Some(p) => if forward {
                if p + 1 < n {
                    Some(m.nav_entries[p + 1].id)
                } else {
                    None
                }
            } else {
                if p > 0 {
                    Some(m.nav_entries[p - 1].id)
                } else {
                    None
                }
            },
            None => Some(m.nav_entries[0].id),
        }
    }
}

/// A step of the viewer to the next (or previous) image, when there is one.
pub open spec fn image_stepped(m: AppModel, forward: bool) -> AppModel {
    if forward {
        if m.cursor + 1 < m.order.len() {
            m.stepped_to((m.cursor + 1) as usize, NavDirection::Down)
        } else {
            m
        }
    } else {
        if m.cursor > 0 {
            m.stepped_to((m.cursor - 1) as usize, NavDirection::Up)
        } else {
            m
        }
    }
}

/// A step forward or back: through the sidebar rows while the sidebar is
/// open, through the images otherwise.
pub open spec fn stepped(m: AppModel, forward: bool) -> AppModel {
    let c = closed(m);
    if c.sidebar_expanded {
        match entry_step_target(c, forward) {
            Some(id) => c.entry_selected(id).0,
            None => c,
        }
    } else {
        image_stepped(c, forward)
    }
}

/// The next and previous commands.
pub fn step_command(state: &mut AppStateInner, forward: bool)
    requires
        old(state)@.wf(),
    ensures
        final(state)@ == stepped(old(state)@, forward),
        final(state)@.wf(),
{
    state.close_directory_actions();
    if state.sidebar_expanded {
        if forward {
            state.select_next_entry();
        } else {
            state.select_prev_entry();
        }
    } else {
        if forward {
            state.next();
        } else {
            state.prev();
        }
    }
}

/// A jump to the first (or last) item: of the queue panel while it has the
/// keyboard, of the sidebar while it is open, of the images otherwise.
pub open spec fn edge_reached(m: AppModel, to_end: bool) -> AppModel {
    let c = closed(m);
    if c.queue_is_selected() {
        if c.queued_ids.len() > 0 {
            AppModel {
                selected_queue_image_id: Some(if to_end { c.queued_ids.last() } else { c.queued_ids[0] }),
                ..c
            }
        } else {
            c
        }
    } else if c.sidebar_expanded {
        if c.nav_entries.len() > 0 {
            c.entry_selected(if to_end { c.nav_entries.last().id } else { c.nav_entries[0].id }).0
        } else {
            c
        }
    } else {
        if c.order.len() > 0 {
            let pos = if to_end { c.order.len() - 1 } else { 0 };
            c.image_selected(c.images[c.order[pos] as int].id)
        } else {
            c
        }
    }
}

/// The home and end commands.
pub fn edge_command(state: &mut AppStateInner, to_end: bool)
    requires
        old(state)@.wf(),
    ensures
        final(state)@ == edge_reached(old(state)@, to_end),
        final(state)@.wf(),
{
    state.close_directory_actions();
    if state.queue_is_selected() {
        if to_end {
            state.select_queue_last();
        } else {
            state.select_queue_first();
        }
    } else if state.sidebar_expanded {
        if to_end {
            state.select_last_entry();
        } else {
            state.select_first_entry();
        }
    } else {
        if to_end {
            state.select_last_image();
        } else {
            state.select_first_image();
        }
    }
}

/// The help command opens the help, or closes it when it is open.
pub fn help_command(state: &mut AppStateInner)
    ensures
        final(state)@ == (AppModel {
            active_modal: if old(state).active_modal == Some(ModalView::Help) {
                None
            } else {
                Some(ModalView::Help)
            },
            ..closed(old(state)@)
        }),
{
    state.close_directory_actions();
    if state.active_modal == Some(ModalView::Help) {
        state.close_view();
    } else {
        state.show_view(ModalView::Help);
    }
}

/// Selecting a sidebar row by id; returns whether it was found.
pub fn select_command(state: &mut AppStateInner, entry_id: u64) -> (found: bool)
    requires
        old(state)@.wf(),
    ensures
        found == old(state)@.entry_selected(entry_id).1,
        final(state)@ == if found {
            closed(old(state)@.entry_selected(entry_id).0)
        } else {
            old(state)@.entry_selected(entry_id).0
        },
        final(state)@.wf(),
{
    let found = state.select_entry_by_id(entry_id);
    if found {
        state.close_directory_actions();
    }
    found
}

/// The close command: the modal, the directory actions and any pending
/// directory change or deletion are dropped.
pub fn close_command(state: &mut AppStateInner)
    ensures
        final(state)@ == (AppModel {
            active_modal: None,
            pending_directory_path: None,
            pending_delete_directory_path: None,
            ..closed(old(state)@)
        }),
{
    state.close_view();
    state.close_directory_actions();
    state.pending_directory_path = None;
    state.pending_delete_directory_path = None;
}

/// Showing or hiding the queue panel.
pub fn show_queue_command(state: &mut AppStateInner)
    ensures
        final(state)@ == closed(old(state)@).queue_toggled(),
{
    state.close_directory_actions();
    state.toggle_queue_sidebar();
}

/// Opening or closing the files sidebar.
pub fn toggle_files_command(state: &mut AppStateInner)
    ensures
        final(state)@ == closed(old(state)@.sidebar_toggled()),
{
    state.toggle_sidebar();
    state.close_directory_actions();
}

/// The request to apply the queue opens the confirmation.
pub fn apply_request_command(state: &mut AppStateInner)
    ensures
        final(state)@ == (AppModel { active_modal: Some(ModalView::ApplyConfirm), ..closed(old(state)@) }),
{
    state.close_directory_actions();
    state.show_view(ModalView::ApplyConfirm);
}

/// Some image has a queued deletion.
pub open spec fn has_queued_delete(m: AppModel) -> bool {
    exists|i: int| 0 <= i < m.images.len() && (#[trigger] m.images[i]).queued_action matches Some(ActionConfig::Delete)
}

/// The apply command closes its confirmation; when deletions are destructive
/// and one is queued it asks again before anything runs. Returns whether it
/// asked.
pub fn apply_command(state: &mut AppStateInner, destructive_delete: bool) -> (asks: bool)
    ensures
        asks == (destructive_delete && has_queued_delete(old(state)@)),
        ({
            let hidden = if old(state).active_modal == Some(ModalView::ApplyConfirm) {
                AppModel { active_modal: None, ..old(state)@ }
            } else {
                old(state)@
            };
            final(state)@ == if asks {
                AppModel { active_modal: Some(ModalView::DeleteConfirm), ..hidden }
            } else {
                hidden
            }
        }),
{
    state.hide_view(ModalView::ApplyConfirm);
    let mut has_delete = false;
    let mut i: usize = 0;
    while i < state.images.len()
        invariant
            i <= state.images.len(),
            has_delete == exists|k: int|
                0 <= k < i && (#[trigger] state@.images[k]).queued_action matches Some(ActionConfig::Delete),
        decreases state.images.len() - i,
    {
        let is_delete = match &state.images[i].queued_action {
            Some(ActionConfig::Delete) => true,
            _ => false,
        };
        if is_delete {
            assert(state@.images[i as int].queued_action matches Some(ActionConfig::Delete));
            has_delete = true;
        }
        i = i + 1;
    }
    let asks = destructive_delete && has_delete;
    if asks {
        state.show_view(ModalView::DeleteConfirm);
    }
    asks
}

/// Selecting a queued image: the queue panel selects it, the viewer moves to
/// it and the queue panel takes the keyboard.
pub open spec fn item_activated(m: AppModel, image_id: u64) -> (AppModel, bool) {
    if first_index_in(m.queued_ids, image_id, 0) is Some {
        let m1 = AppModel { selected_queue_image_id: Some(image_id), ..m };
        (AppModel { queue_focus: true, ..m1.image_selected(image_id) }, true)
    } else {
        (m, false)
    }
}

pub fn activate_item_selection(state: &mut AppStateInner, image_id: u64) -> (selected: bool)
    requires
        old(state)@.wf(),
    ensures
        selected == item_activated(old(state)@, image_id).1,
        final(state)@ == item_activated(old(state)@, image_id).0,
        final(state)@.wf(),
{
    let selected = state.select_queue_item_by_id(image_id);
    if selected {
        state.select_image_by_id(image_id);
        state.activate_queue_focus();
    }
    selected
}

/// The queued id a step through the queue panel selects: the next (or
/// previous) one, the first when none is selected, none past either end.
pub open spec fn queue_step_target(m: AppModel, forward: bool) -> Option<u64> {
    let q = m.queued_ids;
    if q.len() == 0 {
        None
    } else {
        match m.queue_position() {
            Some(p) => if forward {
                if p + 1 < q.len() {
                    Some(q[p + 1])
                } else {
                    None
                }
            } else {
                if p > 0 {
                    Some(q[p - 1])
                } else {
                    None
                }
            },
            None => Some(q[0]),
        }
    }
}

/// A step through the queue panel; the viewer follows the selected image.
pub fn move_queue_selection(state: &mut AppStateInner, forward: bool)
    requires
        old(state)@.wf(),
    ensures
        final(state)@ == match queue_step_target(old(state)@, forward) {
            Some(id) => item_activated(AppModel { selected_queue_image_id: Some(id), ..old(state)@ }, id).0,
            None => old(state)@,
        },
        final(state)@.wf(),
{
    let moved = if forward {
        state.select_queue_next()
    } else {
        state.select_queue_prev()
    };
    if moved {
        match state.selected_queue_image_id {
            Some(selected) => {
                activate_item_selection(state, selected);
            },
            None => {},
        }
    }
}

/// The open and open-parent commands of the sidebar: the directory to go to,
/// or, with none, the viewer rendered again.
pub fn open_command(state: &AppStateInner, parent: bool) -> (next: FollowUp)
    ensures
        ({
            let target = if parent { state@.parent_directory_path() } else { state@.selected_directory_path() };
            match next {
                FollowUp::ChangeDirectory(path) => target == Some(path@),
                FollowUp::Render(patch) => target is None && patch == UiPatch::navigation(),
                FollowUp::Decide(_) => false,
            }
        }),
{
    let target = if parent {
        state.navigate_to_parent_directory()
    } else {
        state.navigate_to_selected_directory()
    };
    match target {
        Some(path) => FollowUp::ChangeDirectory(path),
        None => FollowUp::Render(UiPatch::viewer_and_signals()),
    }
}

/// Opening a sidebar row by id: it is selected, and a directory row leads to
/// its directory. `None` when no such row exists (or its image is not listed).
pub fn open_entry_command(state: &mut AppStateInner, entry_id: u64) -> (next: Option<FollowUp>)
    requires
        old(state)@.wf(),
    ensures
        final(state)@ == old(state)@.entry_selected(entry_id).0,
        final(state)@.wf(),
        match next {
            None => !old(state)@.entry_selected(entry_id).1,
            Some(FollowUp::ChangeDirectory(path)) => old(state)@.entry_selected(entry_id).1
                && final(state)@.selected_directory_path() == Some(path@),
            Some(FollowUp::Render(patch)) => old(state)@.entry_selected(entry_id).1
                && final(state)@.selected_directory_path() is None && patch == UiPatch::navigation(),
            Some(FollowUp::Decide(_)) => false,
        },
{
    if !state.select_entry_by_id(entry_id) {
        return None;
    }
    Some(open_command(state, false))
}

/// A change of directory is asked for: with a non-empty queue the target is
/// kept and the page asks what to do with the queue (returns true); otherwise
/// nothing is pending and the caller goes ahead.
pub fn request_directory_change(state: &mut AppStateInner, target: String) -> (asks: bool)
    ensures
        asks == (old(state)@.queued_ids.len() > 0),
        final(state)@ == if asks {
            AppModel {
                pending_directory_path: Some(target),
                active_modal: Some(ModalView::QueueNotEmptyConfirm),
                ..closed(old(state)@)
            }
        } else {
            AppModel { pending_directory_path: None, ..closed(old(state)@) }
        },
{
    state.close_directory_actions();
    if state.queued_ids.len() > 0 {
        state.pending_directory_path = Some(target);
        state.active_modal = Some(ModalView::QueueNotEmptyConfirm);
        true
    } else {
        state.pending_directory_path = None;
        false
    }
}

/// The modal after dropping a pending choice: closed when it is `view`.
pub open spec fn without_modal(active: Option<ModalView>, view: ModalView) -> Option<ModalView> {
    if active == Some(view) {
        None
    } else {
        active
    }
}

/// Staying in the directory: nothing is pending any more.
pub fn cancel_directory_change(state: &mut AppStateInner)
    ensures
        final(state)@ == (AppModel {
            pending_directory_path: None,
            pending_delete_directory_path: None,
            active_modal: without_modal(old(state).active_modal, ModalView::QueueNotEmptyConfirm),
            ..old(state)@
        }),
{
    state.pending_directory_path = None;
    state.pending_delete_directory_path = None;
    if state.active_modal == Some(ModalView::QueueNotEmptyConfirm) {
        state.active_modal = None;
    }
}

/// The state with every queued action dropped and the queue emptied.
pub open spec fn queue_dropped(m: AppModel) -> AppModel {
    (AppModel {
        images: m.images.map_values(|e: ImageEntry| unqueued_entry(e)),
        queued_ids: Seq::empty(),
        ..m
    }).with_counters()
}

/// Going ahead with a pending change of directory, the queue applied by the
/// caller or, with `discard_queue`, dropped here. Returns the target, if one
/// was pending.
pub fn take_directory_change(state: &mut AppStateInner, discard_queue: bool) -> (target: Option<String>)
    requires
        old(state)@.wf(),
    ensures
        target == old(state).pending_directory_path,
        ({
            let m1 = AppModel {
                pending_directory_path: None,
                pending_delete_directory_path: None,
                ..old(state)@
            };
            let m2 = if discard_queue { queue_dropped(m1) } else { m1 };
            final(state)@ == AppModel {
                active_modal: without_modal(old(state).active_modal, ModalView::QueueNotEmptyConfirm),
                ..m2
            }
        }),
        final(state)@.wf(),
{
    let target = state.pending_directory_path.take();
    state.pending_delete_directory_path = None;
    if discard_queue {
        state.clear_queued_actions();
    }
    if state.active_modal == Some(ModalView::QueueNotEmptyConfirm) {
        state.active_modal = None;
    }
    target
}

/// Asking to delete the selected directory (never the row that leads to the
/// parent): the path is kept and the page asks for confirmation.
pub fn request_directory_delete(state: &mut AppStateInner) -> (path: Option<String>)
    ensures
        opt_text(path) == if old(state)@.selected_entry() matches Some(e) && e.is_parent_link {
            None
        } else {
            old(state)@.selected_directory_path()
        },
        final(state)@ == match path {
            Some(p) => AppModel {
                pending_delete_directory_path: Some(p),
                active_modal: Some(ModalView::DirectoryDeleteConfirm),
                ..old(state)@
            },
            None => old(state)@,
        },
{
    let is_parent_link = match state.selected_entry() {
        Some(entry) => entry.is_parent_link,
        None => false,
    };
    let path = if is_parent_link {
        None
    } else {
        state.selected_directory_path()
    };
    match &path {
        Some(p) => {
            state.pending_delete_directory_path = Some(p.clone());
            state.active_modal = Some(ModalView::DirectoryDeleteConfirm);
        },
        None => {},
    }
    path
}

/// Going ahead with a pending deletion: returns the directory to delete.
pub fn take_directory_delete(state: &mut AppStateInner) -> (path: Option<String>)
    ensures
        path == old(state).pending_delete_directory_path,
        final(state)@ == (AppModel {
            pending_delete_directory_path: None,
            active_modal: without_modal(old(state).active_modal, ModalView::DirectoryDeleteConfirm),
            ..old(state)@
        }),
{
    let path = state.pending_delete_directory_path.take();
    if state.active_modal == Some(ModalView::DirectoryDeleteConfirm) {
        state.active_modal = None;
    }
    path
}

/// What renaming the selected directory comes to.
#[derive(Clone, Debug)]
pub enum RenameStep {
    /// Nothing to do: the name is blank or no directory is selected.
    Ignore,
    /// The request is refused: the directory has no parent, or the new path
    /// leaves the root.
    Refuse,
    /// Rename the directory `from` to `to`.
    Rename { from: String, to: String },
}

/// Renaming the selected directory to `raw_name`, trimmed: it stays in its
/// parent directory and within the root.
pub fn rename_command(state: &AppStateInner, raw_name: &str) -> (step: RenameStep)
    ensures
        ({
            let name = trimmed(raw_name@);
            let m = state@;
            match step {
                RenameStep::Ignore => name.len() == 0 || m.selected_directory_path() is None,
                RenameStep::Refuse => {
                    &&& name.len() > 0
                    &&& m.selected_directory_path() matches Some(source)
                    &&& match parent_of(source) {
                        None => true,
                        Some(parent) => match m.root_dir {
                            Some(root) => !path_starts_with(joined_path(parent, name), root@),
                            None => false,
                        },
                    }
                },
                RenameStep::Rename { from, to } => {
                    &&& name.len() > 0
                    &&& m.selected_directory_path() == Some(from@)
                    &&& parent_of(from@) matches Some(parent)
                    &&& to@ == joined_path(parent, name)
                    &&& (m.root_dir matches Some(root) ==> path_starts_with(to@, root@))
                },
            }
        }),
{
    let name = trim_text(raw_name);
    if name.as_str().unicode_len() == 0 {
        return RenameStep::Ignore;
    }
    let source = match state.selected_directory_path() {
        Some(source) => source,
        None => return RenameStep::Ignore,
    };
    let parent = match path_parent(source.as_str()) {
        Some(parent) => parent,
        None => return RenameStep::Refuse,
    };
    let target = path_join(parent.as_str(), name.as_str());
    match &state.root_dir {
        Some(root) => {
            if !path_has_prefix(target.as_str(), root.as_str()) {
                return RenameStep::Refuse;
            }
        },
        None => {},
    }
    RenameStep::Rename { from: source, to: target }
}

/// Choosing a sort mode by its menu value: `None` for an unknown value;
/// otherwise the images are sorted anew and the directory to scan again is
/// returned.
pub fn sort_command(state: &mut AppStateInner, name: &str) -> (res: Option<Option<String>>)
    requires
        old(state)@.wf(),
    ensures
        final(state)@.wf(),
        match sort_mode_named(name@) {
            None => res is None && final(state)@ == old(state)@,
            Some(mode) => {
                &&& res == Some(old(state).current_dir)
                &&& is_stable_sort(old(state)@.images, mode, final(state)@.order)
                &&& final(state)@ == old(state)@.resorted(mode, final(state)@.order)
            },
        },
{
    let mode = match super::view::parse_sort_mode(name) {
        Some(mode) => mode,
        None => return None,
    };
    state.set_sort_mode(mode);
    let current = match &state.current_dir {
        Some(dir) => Some(dir.clone()),
        None => None,
    };
    Some(current)
}

/// An action to run on a file right after a decision, outside queue mode.
#[derive(Clone, Debug)]
pub struct ImmediateAction {
    pub config: FsConfig,
    pub path: String,
    pub action: ActionConfig,
    pub rename_sequence: Option<u64>,
    pub image_id: u64,
}

/// What a decision leaves to the caller: the image whose card changed, the
/// entry to record for undo (its undo action filled in once the file work
/// ran), and the file work to run at once.
#[derive(Clone, Debug)]
pub struct DecisionStep {
    pub changed_image_id: Option<u64>,
    pub undo_entry: Option<UndoEntry>,
    pub immediate: Option<ImmediateAction>,
}

/// Decides the current image for `side`. Outside queue mode, and with a root
/// set, the side's action on the image's file is to run at once.
pub fn decide_command(state: &mut AppStateInner, side: DecisionSide, destructive_delete: bool) -> (step: DecisionStep)
    requires
        old(state)@.wf(),
        old(state)@.takes_rename_number(side) ==> old(state).rename_counter < u64::MAX,
    ensures
        final(state)@.wf(),
        match old(state)@.current_image() {
            None => {
                &&& final(state)@ == old(state)@
                &&& step.changed_image_id is None
                &&& step.undo_entry is None
                &&& step.immediate is None
            },
            Some(e) => {
                &&& final(state)@ == old(state)@.decided(side)
                &&& step.changed_image_id == Some(e.id)
                &&& step.undo_entry == Some(
                    UndoEntry {
                        image_id: e.id,
                        previous_decision: e.decision,
                        previous_queue: e.queued_action,
                        previous_cursor: old(state).cursor,
                        undo_action: None,
                    },
                )
                &&& step.immediate == match (old(state).root_dir, first_image_with_id(final(state)@.images, e.id, 0)) {
                    (Some(root), Some(j)) => if !old(state).queue_mode {
                        Some(
                            ImmediateAction {
                                config: FsConfig { root_dir: root, destructive_delete },
                                path: final(state)@.images[j].path,
                                action: old(state).action_mapping.spec_for(side),
                                rename_sequence: final(state)@.images[j].rename_sequence,
                                image_id: e.id,
                            },
                        )
                    } else {
                        None
                    },
                    _ => None,
                }
            },
        },
{
    let root = match &state.root_dir {
        Some(root) => Some(root.clone()),
        None => None,
    };
    let outcome = match state.apply_decision(side) {
        Some(outcome) => outcome,
        None => return DecisionStep { changed_image_id: None, undo_entry: None, immediate: None },
    };
    let undo_entry = UndoEntry {
        image_id: outcome.image_id,
        previous_decision: outcome.previous_decision.duplicate(),
        previous_queue: crate::domain::actions::duplicate_action_opt(&outcome.previous_queue),
        previous_cursor: outcome.cursor_before,
        undo_action: None,
    };
    let immediate = match root {
        Some(root) => if outcome.immediate {
            match state.first_image_with_id(outcome.image_id) {
                Some(j) => Some(
                    ImmediateAction {
                        config: FsConfig::new(root, destructive_delete),
                        path: state.images[j].path.clone(),
                        action: outcome.action.duplicate(),
                        rename_sequence: state.images[j].rename_sequence,
                        image_id: outcome.image_id,
                    },
                ),
                None => None,
            }
        } else {
            None
        },
        None => None,
    };
    DecisionStep { changed_image_id: Some(outcome.image_id), undo_entry: Some(undo_entry), immediate }
}

/// The largest id among the images, 0 for none.
pub open spec fn max_id(images: Seq<ImageEntry>) -> u64
    decreases images.len(),
{
    if images.len() == 0 {
        0
    } else {
        let rest = max_id(images.drop_last());
        if images.last().id > rest {
            images.last().id
        } else {
            rest
        }
    }
}

/// A freshly scanned image as the session takes it in: numbered `id`, with
/// no decision, queued action or rename number.
pub open spec fn fresh_entry(e: ImageEntry, id: u64) -> ImageEntry {
    ImageEntry { id, decision: DecisionState::Undecided, queued_action: None, rename_sequence: None, ..e }
}

/// Numbers the images of a new scan after the largest id the session used,
/// in scan order, and clears what they carried.
pub fn renumber_scanned(existing: &Vec<ImageEntry>, scanned: &Vec<ImageEntry>) -> (images: Vec<ImageEntry>)
    requires
        max_id(existing@) + scanned.len() + 1 <= u64::MAX,
    ensures
        images.len() == scanned.len(),
        forall|i: int|
            0 <= i < images.len() ==> #[trigger] images@[i] == fresh_entry(scanned@[i], (max_id(existing@) + 1 + i) as u64),
{
    let mut top: u64 = 0;
    let mut k: usize = 0;
    while k < existing.len()
        invariant
            k <= existing.len(),
            top == max_id(existing@.take(k as int)),
        decreases existing.len() - k,
    {
        assert(existing@.take(k + 1).drop_last() =~= existing@.take(k as int));
        if existing[k].id > top {
            top = existing[k].id;
        }
        k = k + 1;
    }
    assert(existing@.take(existing.len() as int) =~= existing@);
    let mut next_id: u64 = top + 1;
    let mut images: Vec<ImageEntry> = Vec::new();
    let mut i: usize = 0;
    while i < scanned.len()
        invariant
            i <= scanned.len(),
            top == max_id(existing@),
            top + scanned.len() + 1 <= u64::MAX,
            next_id == top + 1 + i,
            images.len() == i,
            forall|j: int| 0 <= j < i ==> #[trigger] images@[j] == fresh_entry(scanned@[j], (top + 1 + j) as u64),
        decreases scanned.len() - i,
    {
        let e = scanned[i].duplicate();
        images.push(
            ImageEntry {
                id: next_id,
                path: e.path,
                original_order: e.original_order,
                decision: DecisionState::Undecided,
                queued_action: None,
                rename_sequence: None,
                meta: e.meta,
            },
        );
        next_id = next_id + 1;
        i = i + 1;
    }
    images
}

/// The line reporting a failed action: the path, a colon, the error.
pub open spec fn error_line(path: Seq<char>, error: Seq<char>) -> Seq<char> {
    path + ": "@ + error
}

/// Counts one applied action in the summary; a failure adds its line to the errors.
pub fn record_apply_outcome(summary: &mut ApplyResultSummary, path: &str, error: Option<String>)
    requires
        old(summary).total < usize::MAX,
        old(summary).completed < usize::MAX,
        old(summary).failed < usize::MAX,
    ensures
        final(summary).total == old(summary).total + 1,
        match error {
            None => {
                &&& final(summary).completed == old(summary).completed + 1
                &&& final(summary).failed == old(summary).failed
                &&& final(summary).errors@ == old(summary).errors@
            },
            Some(e) => {
                &&& final(summary).completed == old(summary).completed
                &&& final(summary).failed == old(summary).failed + 1
                &&& final(summary).errors@.len() == old(summary).errors@.len() + 1
                &&& final(summary).errors@.drop_last() == old(summary).errors@
                &&& final(summary).errors@.last()@ == error_line(path@, e@)
            },
        },
{
    summary.total = summary.total + 1;
    match error {
        None => {
            summary.completed = summary.completed + 1;
        },
        Some(e) => {
            summary.failed = summary.failed + 1;
            let mut line = crate::text::owned(path);
            push_all(&mut line, ": ");
            push_all(&mut line, e.as_str());
            summary.errors.push(line);
            assert(summary.errors@.drop_last() =~= old(summary).errors@);
        },
    }
}

/// The apply has finished: its summary is kept and reported.
pub fn finish_apply(state: &mut AppStateInner, summary: ApplyResultSummary)
    ensures
        final(state)@ == (AppModel {
            last_apply_result: Some(summary),
            active_modal: Some(ModalView::ApplyResult),
            ..old(state)@
        }),
{
    state.last_apply_result = Some(summary);
    state.show_view(ModalView::ApplyResult);
}

} // verus!
