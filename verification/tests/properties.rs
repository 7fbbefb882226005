use piclr::domain::state::AppStateInner;
use piclr::domain::undo::{UndoAction, UndoEntry};
use piclr::domain::{
    ActionConfig, ActionMapping, DecisionSide, DecisionState, ImageEntry, ImageMeta, SortDirection,
    SortKey, SortMode,
};
use piclr::fs::{ActionPlan, FsConfig, UndoPlan, plan_action, plan_undo};

fn image(id: u64, path: &str, order: usize) -> ImageEntry {
    ImageEntry {
        id,
        path: path.to_string(),
        original_order: order,
        decision: DecisionState::Undecided,
        queued_action: None,
        rename_sequence: None,
        meta: ImageMeta {
            created: None,
            modified: None,
            size: 10 * order as u64,
            orientation: None,
        },
    }
}

fn state_with(mapping: ActionMapping, queue_mode: bool) -> AppStateInner {
    let mut state = AppStateInner::new(
        queue_mode,
        mapping,
        SortMode {
            key: SortKey::Filesystem,
            direction: SortDirection::Asc,
        },
    );
    state.set_images(
        vec![
            image(1, "/p/a.jpg", 0),
            image(2, "/p/b.jpg", 1),
            image(3, "/p/c.jpg", 2),
            image(4, "/p/d.jpg", 3),
        ],
        Some("/p".to_string()),
    );
    state
}

fn delete_keep() -> ActionMapping {
    ActionMapping {
        left: ActionConfig::Delete,
        right: ActionConfig::Keep,
    }
}

fn queued(state: &AppStateInner) -> Vec<u64> {
    state.queued_ids.iter().copied().collect()
}

#[test]
fn undo_right_after_a_decision_restores_the_image_and_the_cursor() {
    let mut state = state_with(
        ActionMapping {
            left: ActionConfig::Rename {
                prefix: "img".to_string(),
            },
            right: ActionConfig::Keep,
        },
        true,
    );
    state.select_image_by_id(2);
    state.apply_decision(DecisionSide::Right);
    let queue_before = queued(&state);
    let history_before = state.undo_stack.len();
    let cursor_before = state.cursor;
    let counts_before = (
        state.projection().left_action_count,
        state.projection().right_action_count,
        state.projection().queue_count,
    );
    let order_before = state.order.clone();
    let before = state.images[2].clone();

    let outcome = state.apply_decision(DecisionSide::Left).unwrap();
    assert_eq!(outcome.image_id, 3);
    assert_eq!(state.images[2].rename_sequence, Some(1));
    state.record_undo(UndoEntry {
        image_id: outcome.image_id,
        previous_decision: outcome.previous_decision,
        previous_queue: outcome.previous_queue,
        previous_cursor: outcome.cursor_before,
        undo_action: Some(UndoAction::Rename {
            from: "/p/img000001.jpg".to_string(),
            to: "/p/c.jpg".to_string(),
        }),
    });
    state.undo_last().unwrap();

    assert_eq!(state.cursor, cursor_before);
    assert_eq!(state.order, order_before);
    assert_eq!(
        (
            state.projection().left_action_count,
            state.projection().right_action_count,
            state.projection().queue_count,
        ),
        counts_before
    );
    assert_eq!(state.current().map(|e| e.id), Some(3));
    assert_eq!(state.undo_stack.len(), history_before);
    assert_eq!(queued(&state), queue_before);
    assert!(state.images[2].decision.is_undecided());
    assert_eq!(state.images[2].queued_action, before.queued_action);
    // The rename number the decision drew stays with the image.
    assert_eq!(state.images[2].rename_sequence, Some(1));
}

#[test]
fn counters_follow_every_command() {
    let mut state = state_with(delete_keep(), true);
    state.apply_decision(DecisionSide::Left);
    state.apply_decision(DecisionSide::Left);
    state.apply_decision(DecisionSide::Right);
    assert_eq!(state.projection().left_action_count, 2);
    assert_eq!(state.projection().right_action_count, 1);
    assert_eq!(state.projection().queue_count, 3);

    state.toggle_queue_sidebar();
    state.select_queue_first();
    state.override_selected_queue_action(DecisionSide::Right);
    assert_eq!(state.projection().left_action_count, 1);
    assert_eq!(state.projection().right_action_count, 2);

    state.remove_selected_queue_item();
    assert_eq!(state.projection().right_action_count, 1);
    assert_eq!(state.projection().queue_count, 2);
    assert_eq!(queued(&state), vec![2, 3]);

    let (image_id, _, action, _) = state.queue_selected_item_for_apply().unwrap();
    state.apply_selected_queue_action_result(image_id, &action);
    assert_eq!(queued(&state), vec![3]);
    assert_eq!(state.projection().queue_count, 1);
    assert_eq!(state.images.len(), 3);
}

#[test]
fn reset_clears_every_decision_and_the_history() {
    let mut state = state_with(delete_keep(), true);
    state.apply_decision(DecisionSide::Left);
    state.record_undo(UndoEntry {
        image_id: 1,
        previous_decision: DecisionState::Undecided,
        previous_queue: None,
        previous_cursor: 0,
        undo_action: None,
    });
    state.apply_decision(DecisionSide::Right);
    state.reset_queue_state();
    assert!(state.queued_ids.is_empty());
    assert!(state.undo_stack.is_empty());
    assert_eq!(state.projection().left_action_count, 0);
    assert_eq!(state.projection().right_action_count, 0);
    assert_eq!(state.projection().queue_count, 0);
    assert!(state
        .images
        .iter()
        .all(|e| e.decision.is_undecided() && e.queued_action.is_none() && e.rename_sequence.is_none()));
}

#[test]
fn queue_lists_queued_images_once_in_sort_order() {
    let mut state = state_with(delete_keep(), true);
    state.select_image_by_id(4);
    state.apply_decision(DecisionSide::Left);
    state.select_image_by_id(2);
    state.apply_decision(DecisionSide::Right);
    state.select_image_by_id(4);
    state.apply_decision(DecisionSide::Right);
    assert_eq!(queued(&state), vec![2, 4]);

    let current = state.current().map(|e| e.id);
    state.set_sort_mode(SortMode {
        key: SortKey::Size,
        direction: SortDirection::Desc,
    });
    assert_eq!(queued(&state), vec![4, 2]);
    assert_eq!(state.projection().queue_count, 2);
    assert_eq!(state.current().map(|e| e.id), current);
}

#[test]
fn queue_panel_toggles_back_and_forth() {
    let mut state = state_with(delete_keep(), true);
    state.apply_decision(DecisionSide::Left);
    state.apply_decision(DecisionSide::Left);
    state.toggle_queue_sidebar();
    assert!(state.queue_is_selected());
    assert_eq!(state.selected_queue_image_id, Some(1));
    state.toggle_queue_sidebar();
    assert!(!state.queue_sidebar_visible);
    assert!(!state.queue_focus);
}

#[test]
fn files_sidebar_opening_takes_the_keyboard() {
    let mut state = state_with(delete_keep(), true);
    state.toggle_queue_sidebar();
    assert!(state.queue_is_selected());
    state.toggle_sidebar();
    assert!(state.sidebar_expanded);
    assert!(!state.queue_is_selected());
    state.toggle_sidebar();
    assert!(!state.sidebar_expanded);
    assert!(state.queue_is_selected());
}

#[test]
fn undo_plan_moves_the_file_back() {
    let config = FsConfig::new("/root".to_string(), false);
    let path = "/root/shots/a.jpg".to_string();
    let plans = vec![
        plan_action(&config, &path, &ActionConfig::Delete, None),
        plan_action(
            &config,
            &path,
            &ActionConfig::Move {
                target: "keep".to_string(),
            },
            None,
        ),
        plan_action(
            &config,
            &path,
            &ActionConfig::Rename {
                prefix: "img".to_string(),
            },
            Some(3),
        ),
    ];
    for plan in plans {
        let (from, to, undo) = match plan {
            ActionPlan::MoveInto { from, to, undo, .. } => (from, to, undo),
            ActionPlan::RenameTo { from, to, undo } => (from, to, undo),
            other => panic!("unexpected plan {other:?}"),
        };
        assert_eq!(from, path);
        match plan_undo(&undo) {
            UndoPlan::RenameBack {
                from: back_from,
                to: back_to,
                ..
            } => {
                assert_eq!(back_from, to);
                assert_eq!(back_to, from);
            }
            other => panic!("unexpected undo plan {other:?}"),
        }
    }
}
