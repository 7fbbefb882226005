use piclr::app::AppConfig;
use piclr::domain::state::{AppStateInner, ApplyResultSummary};
use piclr::domain::{
    ActionConfig, ActionMapping, DecisionSide, DecisionState, ImageEntry, ImageMeta, ModalView,
    SortDirection, SortKey, SortMode,
};
use piclr::web::render::{
    PatchPlan, StackUpdate, UiPatch, navigation_patch, plan_patch, plan_stack_patch,
    render_active_modal, render_header, render_queue_panel, render_sidebar, render_viewer,
};
use piclr::web::view::{
    build_queue_items, build_view, card_position, counter_signals, image_src_for, parse_sort_mode,
    sort_mode_label,
};

fn image(id: u64, path: &str, order: usize) -> ImageEntry {
    ImageEntry {
        id,
        path: path.to_string(),
        original_order: order,
        decision: DecisionState::Undecided,
        queued_action: None,
        rename_sequence: None,
        meta: ImageMeta {
            created: None,
            modified: None,
            size: 0,
            orientation: None,
        },
    }
}

fn state() -> AppStateInner {
    let mut state = AppStateInner::new(
        true,
        ActionMapping {
            left: ActionConfig::Move {
                target: "trash".to_string(),
            },
            right: ActionConfig::Keep,
        },
        SortMode {
            key: SortKey::Filesystem,
            direction: SortDirection::Asc,
        },
    );
    state.set_images(
        vec![
            image(1, "/r/a.jpg", 0),
            image(2, "/r/b <1>.jpg", 1),
            image(3, "/r/c.jpg", 2),
        ],
        Some("/r".to_string()),
    );
    state
}

#[test]
fn the_view_reads_off_the_state() {
    let mut s = state();
    s.apply_decision(DecisionSide::Left);
    let view = build_view(&s, false);
    assert_eq!(view.total, 3);
    assert_eq!(view.index, 2);
    assert_eq!(view.current_image_id, 2);
    assert_eq!(view.current_path_label, "/");
    assert_eq!(view.left_action_label, "trash");
    assert_eq!(view.right_action_label, "Keep");
    assert_eq!(view.left_action_count, 1);
    assert_eq!(view.queue_count, 1);
    assert_eq!(view.selected_sort_mode, "modified-asc");
    assert_eq!(view.queue_items.len(), 1);
    assert_eq!(view.queue_items[0].file_label, "a.jpg");
    assert_eq!(view.queue_items[0].status_kind, "left");
    assert_eq!(view.image_stack.cards.len(), 3);
    assert_eq!(view.image_stack.cards[0].alignment, "left");
    assert_eq!(view.image_stack.cards[1].alignment, "center");
    assert_eq!(card_position(&view.image_stack, 3), Some(2));
    assert_eq!(card_position(&view.image_stack, 9), None);

    let signals = counter_signals(&view);
    assert_eq!(signals.counter_image_index, 2);
    assert_eq!(signals.counter_left_action, 1);
    assert_eq!(signals.current_path, "/");
}

#[test]
fn an_empty_session_shows_no_position() {
    let s = AppStateInner::new(true, AppConfig::default().action_mapping, AppConfig::default().sort_mode);
    let view = build_view(&s, true);
    assert!(view.directory_select_enabled);
    assert_eq!(view.current_path_label, "No directory selected");
    assert_eq!(counter_signals(&view).counter_image_index, 0);
    assert!(render_viewer(view.total).contains("No supported images"));
    assert!(render_sidebar(&view).contains("No supported images in this directory."));
}

#[test]
fn image_sources_are_url_encoded() {
    let s = state();
    assert_eq!(image_src_for(&s.images[1], &s.root_dir), "/image/by-path/b%20%3C1%3E.jpg");
    assert_eq!(image_src_for(&s.images[0], &None), "/image/by-path/%2Fr%2Fa.jpg");
}

#[test]
fn markup_escapes_text() {
    let mut s = state();
    s.apply_decision(DecisionSide::Left);
    s.apply_decision(DecisionSide::Right);
    s.toggle_queue_sidebar();
    let view = build_view(&s, false);
    let queue = render_queue_panel(&view);
    assert!(queue.contains("b &lt;1&gt;.jpg"));
    assert!(queue.contains("queue-item-1"));
    assert!(queue.contains(" selected"));
    let sidebar = render_sidebar(&view);
    assert!(sidebar.contains("sidebar-item-2"));
    assert!(sidebar.contains("@post('/cmd/select/2')"));
    let header = render_header(&view);
    assert!(header.contains("3 / 3"));
}

#[test]
fn modals_render_by_kind() {
    let mut s = state();
    let none = render_active_modal(&build_view(&s, false));
    assert_eq!(none, "<modal-none id=\"modal\"></modal-none>");
    s.show_view(ModalView::Queue);
    assert_eq!(render_active_modal(&build_view(&s, false)), none);
    s.show_view(ModalView::ApplyConfirm);
    assert!(render_active_modal(&build_view(&s, false)).contains("/cmd/apply"));
    s.last_apply_result = Some(ApplyResultSummary {
        completed: 2,
        total: 3,
        failed: 1,
        errors: vec!["/r/x.jpg: <denied>".to_string()],
    });
    s.show_view(ModalView::ApplyResult);
    let result = render_active_modal(&build_view(&s, false));
    assert!(result.contains("Applied 2 of 3 actions, 1 failed."));
    assert!(result.contains("<li>/r/x.jpg: &lt;denied&gt;</li>"));
}

#[test]
fn patches_follow_the_parts_asked_for() {
    let mut s = state();
    assert_eq!(navigation_patch(&s), UiPatch::viewer_and_signals());
    s.show_view(ModalView::Help);
    assert_eq!(navigation_patch(&s), UiPatch::viewer_modals_and_signals());

    let plan = plan_patch(UiPatch::all(), 3, false);
    assert_eq!(
        plan,
        PatchPlan {
            header: true,
            viewer: true,
            sidebar: true,
            queue: true,
            stack: StackUpdate::Patched { reset: true },
            modals: true,
            signals: true,
        }
    );
    let plan = plan_patch(UiPatch::viewer_and_signals(), 0, false);
    assert!(plan.viewer);
    assert_eq!(plan.stack, StackUpdate::Cleared);
    let plan = plan_patch(UiPatch::modals_only(), 2, false);
    assert_eq!(plan.stack, StackUpdate::Untouched);
    assert!(!plan.viewer);
    assert!(plan_patch(UiPatch::reset_queue(), 2, false).stack == StackUpdate::Patched { reset: true });
}

#[test]
fn stack_updates_remove_and_add_cards() {
    let plan = plan_stack_patch(&vec![1, 2, 3, 4], &vec![3, 4, 5, 6], false);
    assert_eq!(plan.removed, vec![1, 2]);
    assert!(plan.prepend.is_empty());
    assert_eq!(plan.append, vec![2, 3]);

    let plan = plan_stack_patch(&vec![3, 4, 5], &vec![1, 2, 3, 4], false);
    assert_eq!(plan.removed, vec![5]);
    assert_eq!(plan.prepend, vec![1, 0]);
    assert!(plan.append.is_empty());

    let plan = plan_stack_patch(&vec![1], &vec![7, 8], true);
    assert!(plan.reset);
    assert!(plan.removed.is_empty());
    assert_eq!(plan.append, vec![0, 1]);
}

#[test]
fn sort_menu_values_round_trip() {
    for name in ["name-asc", "name-desc", "modified-asc", "modified-desc", "size-asc", "size-desc"] {
        let mode = parse_sort_mode(name).unwrap();
        assert_eq!(sort_mode_label(mode), name);
    }
    assert!(parse_sort_mode("created-asc").is_none());
}

#[test]
fn queue_rows_mark_the_current_image_as_peer() {
    let mut s = state();
    s.apply_decision(DecisionSide::Left);
    s.apply_decision(DecisionSide::Right);
    s.select_image_by_id(2);
    let items = build_queue_items(&s, Some(1));
    assert_eq!(items.len(), 2);
    assert!(items[0].selected);
    assert!(!items[1].selected);
    assert!(items[1].peer_active);
}

#[test]
fn default_configuration() {
    let config = AppConfig::default();
    assert!(config.initial_path.is_none());
    assert!(config.queue_mode);
    assert!(!config.destructive_delete);
    assert_eq!(config.action_mapping.left, ActionConfig::Move { target: "trash".to_string() });
    assert_eq!(config.action_mapping.right, ActionConfig::Move { target: "keep".to_string() });
}
