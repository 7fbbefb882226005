use piclr::domain::state::{AppStateInner, ApplyResultSummary};
use piclr::domain::{
    ActionConfig, ActionMapping, DecisionSide, DecisionState, ImageEntry, ImageMeta, ModalView,
    SortDirection, SortKey, SortMode,
};
use piclr::web::commands::{
    FollowUp, RenameStep, activate_item_selection, apply_command, cancel_directory_change,
    close_command, decide_command, edge_command, finish_apply, help_command, left_command,
    move_queue_selection, open_command, open_entry_command, record_apply_outcome, rename_command,
    renumber_scanned, request_directory_change, request_directory_delete, right_command,
    select_command, sort_command, step_command, take_directory_change, take_directory_delete,
    toggle_files_command,
};
use piclr::web::images::{ImageRequest, image_by_id, image_by_rel_path};

fn image(id: u64, path: &str, order: usize) -> ImageEntry {
    ImageEntry {
        id,
        path: path.to_string(),
        original_order: order,
        decision: DecisionState::Undecided,
        queued_action: None,
        rename_sequence: None,
        meta: ImageMeta {
            created: None,
            modified: None,
            size: 0,
            orientation: None,
        },
    }
}

fn mode() -> SortMode {
    SortMode {
        key: SortKey::Filesystem,
        direction: SortDirection::Asc,
    }
}

fn state(queue_mode: bool) -> AppStateInner {
    let mut state = AppStateInner::new(
        queue_mode,
        ActionMapping {
            left: ActionConfig::Delete,
            right: ActionConfig::Keep,
        },
        mode(),
    );
    state.set_directory_snapshot(
        vec![image(1, "/r/d/a.jpg", 0), image(2, "/r/d/b.jpg", 1), image(3, "/r/d/c.jpg", 2)],
        vec!["d/sub".to_string()],
        Some("/r".to_string()),
        Some("/r/d".to_string()),
    );
    state
}

fn directory_row(state: &AppStateInner) -> u64 {
    state
        .nav_entries
        .iter()
        .find(|e| e.image_id.is_none() && !e.is_parent_link)
        .unwrap()
        .id
}

#[test]
fn left_decides_on_a_file_row_and_goes_up_on_a_directory_row() {
    let mut s = state(true);
    assert!(matches!(left_command(&mut s), FollowUp::Decide(DecisionSide::Left)));
    let dir = directory_row(&s);
    assert!(select_command(&mut s, dir));
    match left_command(&mut s) {
        FollowUp::ChangeDirectory(path) => assert_eq!(path, "/r"),
        other => panic!("unexpected {other:?}"),
    }
    match right_command(&mut s) {
        FollowUp::ChangeDirectory(path) => assert_eq!(path, "/r/d/sub"),
        other => panic!("unexpected {other:?}"),
    }
    match open_command(&s, false) {
        FollowUp::ChangeDirectory(path) => assert_eq!(path, "/r/d/sub"),
        other => panic!("unexpected {other:?}"),
    }
}

#[test]
fn steps_and_jumps_move_through_images_or_rows() {
    let mut s = state(true);
    step_command(&mut s, true);
    assert_eq!(s.cursor, 1);
    step_command(&mut s, false);
    assert_eq!(s.cursor, 0);
    edge_command(&mut s, true);
    assert_eq!(s.cursor, 2);
    edge_command(&mut s, false);
    assert_eq!(s.cursor, 0);

    toggle_files_command(&mut s);
    assert!(s.sidebar_expanded);
    edge_command(&mut s, false);
    assert_eq!(s.selected_entry_id, Some(s.nav_entries[0].id));
}

#[test]
fn queue_steps_follow_the_queue() {
    let mut s = state(true);
    s.apply_decision(DecisionSide::Left);
    s.apply_decision(DecisionSide::Right);
    s.toggle_queue_sidebar();
    assert_eq!(s.selected_queue_image_id, Some(1));
    move_queue_selection(&mut s, true);
    assert_eq!(s.selected_queue_image_id, Some(2));
    assert_eq!(s.current().map(|e| e.id), Some(2));
    assert!(s.queue_focus);
    move_queue_selection(&mut s, true);
    assert_eq!(s.selected_queue_image_id, Some(2));
    assert!(activate_item_selection(&mut s, 1));
    assert_eq!(s.current().map(|e| e.id), Some(1));
    assert!(!activate_item_selection(&mut s, 3));
}

#[test]
fn help_toggles_and_close_drops_everything_pending() {
    let mut s = state(true);
    help_command(&mut s);
    assert_eq!(s.active_modal, Some(ModalView::Help));
    help_command(&mut s);
    assert_eq!(s.active_modal, None);
    s.pending_directory_path = Some("/x".to_string());
    s.active_modal = Some(ModalView::Help);
    close_command(&mut s);
    assert_eq!(s.active_modal, None);
    assert_eq!(s.pending_directory_path, None);
}

#[test]
fn directory_change_asks_while_the_queue_is_not_empty() {
    let mut s = state(true);
    assert!(!request_directory_change(&mut s, "/r/other".to_string()));
    assert_eq!(s.pending_directory_path, None);

    s.apply_decision(DecisionSide::Left);
    assert!(request_directory_change(&mut s, "/r/other".to_string()));
    assert_eq!(s.active_modal, Some(ModalView::QueueNotEmptyConfirm));
    cancel_directory_change(&mut s);
    assert_eq!(s.active_modal, None);
    assert_eq!(s.pending_directory_path, None);

    assert!(request_directory_change(&mut s, "/r/other".to_string()));
    assert_eq!(take_directory_change(&mut s, true), Some("/r/other".to_string()));
    assert!(s.queued_ids.is_empty());
    assert_eq!(s.active_modal, None);
}

#[test]
fn directory_deletion_is_asked_then_taken() {
    let mut s = state(true);
    assert_eq!(request_directory_delete(&mut s), None);
    let dir = directory_row(&s);
    select_command(&mut s, dir);
    assert_eq!(request_directory_delete(&mut s), Some("/r/d/sub".to_string()));
    assert_eq!(s.active_modal, Some(ModalView::DirectoryDeleteConfirm));
    assert_eq!(take_directory_delete(&mut s), Some("/r/d/sub".to_string()));
    assert_eq!(s.active_modal, None);
    assert_eq!(s.pending_delete_directory_path, None);
}

#[test]
fn renaming_trims_and_stays_within_the_root() {
    let mut s = state(true);
    assert!(matches!(rename_command(&s, "new"), RenameStep::Ignore));
    let dir = directory_row(&s);
    select_command(&mut s, dir);
    assert!(matches!(rename_command(&s, "   "), RenameStep::Ignore));
    match rename_command(&s, "  renamed \n") {
        RenameStep::Rename { from, to } => {
            assert_eq!(from, "/r/d/sub");
            assert_eq!(to, "/r/d/renamed");
        }
        other => panic!("unexpected {other:?}"),
    }
    assert!(matches!(rename_command(&s, "/elsewhere"), RenameStep::Refuse));
    match rename_command(&s, "\u{3000}wide\u{2009}\u{85}") {
        RenameStep::Rename { to, .. } => assert_eq!(to, "/r/d/wide"),
        other => panic!("unexpected {other:?}"),
    }
    assert!(matches!(rename_command(&s, "\u{a0}\u{2028}\t"), RenameStep::Ignore));
}

#[test]
fn sorting_by_menu_value() {
    let mut s = state(true);
    assert_eq!(sort_command(&mut s, "bogus"), None);
    assert_eq!(sort_command(&mut s, "name-desc"), Some(Some("/r/d".to_string())));
    assert_eq!(s.images[s.order[0]].id, 3);
    assert_eq!(
        s.sort_mode,
        SortMode {
            key: SortKey::Alphabetical,
            direction: SortDirection::Desc
        }
    );
}

#[test]
fn a_decision_outside_queue_mode_runs_at_once() {
    let mut s = state(false);
    let step = decide_command(&mut s, DecisionSide::Left, true);
    assert_eq!(step.changed_image_id, Some(1));
    let undo = step.undo_entry.unwrap();
    assert_eq!(undo.image_id, 1);
    assert!(undo.previous_decision.is_undecided());
    let immediate = step.immediate.unwrap();
    assert_eq!(immediate.path, "/r/d/a.jpg");
    assert_eq!(immediate.action, ActionConfig::Delete);
    assert_eq!(immediate.config.root_dir, "/r");
    assert!(immediate.config.destructive_delete);

    let mut q = state(true);
    let step = decide_command(&mut q, DecisionSide::Right, false);
    assert!(step.immediate.is_none());
    assert_eq!(step.changed_image_id, Some(1));
}

#[test]
fn apply_asks_only_for_destructive_deletions() {
    let mut s = state(true);
    s.active_modal = Some(ModalView::ApplyConfirm);
    s.apply_decision(DecisionSide::Right);
    assert!(!apply_command(&mut s, true));
    assert_eq!(s.active_modal, None);
    s.apply_decision(DecisionSide::Left);
    assert!(!apply_command(&mut s, false));
    assert!(apply_command(&mut s, true));
    assert_eq!(s.active_modal, Some(ModalView::DeleteConfirm));
}

#[test]
fn scanned_images_are_numbered_after_existing_ones() {
    let existing = vec![image(4, "a", 0), image(9, "b", 1), image(2, "c", 2)];
    let mut scanned = vec![image(1, "x", 0), image(2, "y", 1)];
    scanned[0].decision = DecisionState::Decided {
        side: DecisionSide::Left,
        action: ActionConfig::Keep,
    };
    scanned[0].queued_action = Some(ActionConfig::Keep);
    let renumbered = renumber_scanned(&existing, &scanned);
    assert_eq!(renumbered.iter().map(|e| e.id).collect::<Vec<_>>(), vec![10, 11]);
    assert!(renumbered[0].decision.is_undecided());
    assert!(renumbered[0].queued_action.is_none());
    assert_eq!(renumbered[1].path, "y");
    assert_eq!(renumber_scanned(&Vec::new(), &scanned)[0].id, 1);
}

#[test]
fn apply_outcomes_are_counted_and_reported() {
    let mut summary = ApplyResultSummary {
        completed: 0,
        total: 0,
        failed: 0,
        errors: Vec::new(),
    };
    record_apply_outcome(&mut summary, "/r/a.jpg", None);
    record_apply_outcome(&mut summary, "/r/b.jpg", Some("denied".to_string()));
    assert_eq!(summary.total, 2);
    assert_eq!(summary.completed, 1);
    assert_eq!(summary.failed, 1);
    assert_eq!(summary.errors, vec!["/r/b.jpg: denied".to_string()]);

    let mut s = state(true);
    finish_apply(&mut s, summary);
    assert_eq!(s.active_modal, Some(ModalView::ApplyResult));
    assert_eq!(s.last_apply_result.as_ref().map(|r| r.total), Some(2));
}

#[test]
fn opening_entries_by_id() {
    let mut s = state(true);
    assert!(open_entry_command(&mut s, 424242).is_none());
    let dir = directory_row(&s);
    match open_entry_command(&mut s, dir) {
        Some(FollowUp::ChangeDirectory(path)) => assert_eq!(path, "/r/d/sub"),
        other => panic!("unexpected {other:?}"),
    }
    assert!(matches!(open_entry_command(&mut s, 1), Some(FollowUp::Render(_))));
    assert_eq!(s.current().map(|e| e.id), Some(1));
}

#[test]
fn image_requests_stay_inside_the_root() {
    let root = Some("/r".to_string());
    match image_by_rel_path(&root, "d%2Fmy%20pic.JPG") {
        ImageRequest::File(file) => {
            assert_eq!(file.path, "/r/d/my pic.JPG");
            assert_eq!(file.content_type, "image/jpeg");
        }
        other => panic!("unexpected {other:?}"),
    }
    assert!(matches!(image_by_rel_path(&root, "..%2Fsecret.png"), ImageRequest::BadRequest));
    assert!(matches!(image_by_rel_path(&root, "%2Fetc%2Fpasswd"), ImageRequest::BadRequest));
    assert!(matches!(image_by_rel_path(&root, "%FF.png"), ImageRequest::BadRequest));
    assert!(matches!(image_by_rel_path(&None, "a.png"), ImageRequest::NotFound));

    let s = state(true);
    let file = image_by_id(&s, 2).unwrap();
    assert_eq!(file.path, "/r/d/b.jpg");
    assert_eq!(file.content_type, "image/jpeg");
    assert!(image_by_id(&s, 77).is_none());
}

#[test]
fn no_parent_to_open_at_the_root() {
    let mut s = state(true);
    s.set_directory_snapshot(
        vec![image(1, "/r/a.jpg", 0)],
        vec!["d".to_string(), "e".to_string()],
        Some("/r".to_string()),
        Some("/r".to_string()),
    );
    assert!(matches!(open_command(&s, true), FollowUp::Render(_)));
    let dirs: Vec<u64> = s
        .nav_entries
        .iter()
        .filter(|e| e.image_id.is_none())
        .map(|e| e.id)
        .collect();
    assert_eq!(dirs.len(), 2);
    assert!(dirs.iter().all(|id| *id >= 1u64 << 63));
    assert_ne!(dirs[0], dirs[1]);
}
