use piclr::domain::state::AppStateInner;
use piclr::domain::undo::UndoEntry;
use piclr::domain::{
    ActionConfig, ActionMapping, AppState, DecisionSide, DecisionState, ImageEntry, ImageMeta,
    ModalView, SortDirection, SortKey, SortMode,
};
use piclr::fs::{ActionPlan, FsConfig, plan_action};
use piclr::web::commands::{apply_command, apply_request_command, show_queue_command};
use piclr::web::render::render_page;
use piclr::web::view::{build_stack_cards_in_range, build_view, preload_window_paths};
use piclr::web::render::render_image_card;

fn sample_image(id: u64, path: &str, original_order: usize) -> ImageEntry {
    ImageEntry {
        id,
        path: path.to_string(),
        original_order,
        decision: DecisionState::Undecided,
        queued_action: None,
        rename_sequence: None,
        meta: ImageMeta {
            created: None,
            modified: None,
            size: 0,
            orientation: None,
        },
    }
}

fn mapping() -> ActionMapping {
    ActionMapping {
        left: ActionConfig::Delete,
        right: ActionConfig::Keep,
    }
}

fn sort_mode() -> SortMode {
    SortMode {
        key: SortKey::Filesystem,
        direction: SortDirection::Asc,
    }
}

fn sample_state() -> AppStateInner {
    let mut state = AppStateInner::new(true, mapping(), sort_mode());
    state.set_images(
        vec![
            sample_image(1, "/tmp/a.jpg", 0),
            sample_image(2, "/tmp/b.jpg", 1),
            sample_image(3, "/tmp/c.jpg", 2),
            sample_image(4, "/tmp/d.jpg", 3),
            sample_image(5, "/tmp/e.jpg", 4),
        ],
        Some("/tmp".to_string()),
    );
    state
}

fn machine_with(paths: &[&str], queue_mode: bool) -> AppState {
    let mut machine = AppState::new(queue_mode, mapping(), sort_mode());
    machine.transition_to_scanning();
    let images = paths
        .iter()
        .enumerate()
        .map(|(i, p)| sample_image(i as u64 + 1, p, i))
        .collect();
    machine.transition_to_ready(images, Some("/tmp".to_string()));
    machine.transition_to_viewing();
    machine
}

fn sample_machine(queue_mode: bool) -> AppState {
    machine_with(&["/tmp/a.jpg"], queue_mode)
}

fn page_of(state: &AppStateInner) -> String {
    render_page(&build_view(state, false))
}

#[test]
fn preload_window_is_bounded_and_ordered() {
    let mut state = sample_state();
    state.cursor = 2;
    let window = preload_window_paths(&state, 1);
    let labels: Vec<String> = window
        .iter()
        .filter_map(|path| {
            std::path::Path::new(path)
                .file_name()
                .map(|name| name.to_string_lossy().to_string())
        })
        .collect();
    assert_eq!(labels, vec!["b.jpg", "c.jpg", "d.jpg"]);
}

#[test]
fn image_card_render_contains_entry_identity_and_alignment() {
    let mut state = sample_state();
    state.images[1].decision = DecisionState::Decided {
        side: DecisionSide::Right,
        action: ActionConfig::Keep,
    };
    state.cursor = 1;
    let cards = build_stack_cards_in_range(&state, 0, 2);
    let card = cards.iter().find(|card| card.image_id == 2).unwrap();
    let html = render_image_card(card);
    assert!(html.contains("id=\"image-card-2\""));
    assert!(html.contains("class=\"align-right\""));
    assert!(html.contains("src=\"/image/by-path/b.jpg\""));
}

#[test]
fn image_card_markup_is_identical_for_hydration_and_single_entry_paths() {
    let mut state = sample_state();
    state.images[2].decision = DecisionState::Decided {
        side: DecisionSide::Left,
        action: ActionConfig::Delete,
    };
    state.cursor = 2;
    let cards = build_stack_cards_in_range(&state, 1, 3);

    let hydrated_html = cards
        .iter()
        .map(render_image_card)
        .collect::<Vec<_>>()
        .join("");
    let single_entry_card = cards.iter().find(|card| card.image_id == 3).unwrap();
    let single_entry_html = render_image_card(single_entry_card);

    assert!(hydrated_html.contains(&single_entry_html));
}

#[test]
fn undo_selects_the_image_that_was_undone() {
    let mut state = sample_state();
    state.select_image_by_id(2);
    let outcome = state.apply_decision(DecisionSide::Right).unwrap();
    state.record_undo(UndoEntry {
        image_id: outcome.image_id,
        previous_decision: outcome.previous_decision,
        previous_queue: outcome.previous_queue,
        previous_cursor: outcome.cursor_before,
        undo_action: None,
    });

    state.undo_last().unwrap();

    assert_eq!(state.selected_entry_id, Some(2));
    assert_eq!(state.current().map(|image| image.id), Some(2));
}

#[test]
fn startup_without_path_renders_sidebar_first_shell_without_modal() {
    let state = AppState::new(true, mapping(), sort_mode());
    let html = page_of(state.state());
    assert!(html.contains("sidebar-panel"));
    assert!(html.contains("No supported images in this directory."));
    assert!(html.contains("<modal-none id=\"modal\"></modal-none>"));
}

#[test]
fn apply_shows_delete_confirmation_when_destructive_delete_enabled() {
    let mut state = sample_machine(true);
    state.state_mut().images[0].queued_action = Some(ActionConfig::Delete);

    let asks = apply_command(state.state_mut(), true);

    assert!(asks);
    assert_eq!(state.state().active_modal, Some(ModalView::DeleteConfirm));
}

#[test]
fn rendered_shortcuts_use_simple_posts_for_shortcuts_and_buttons() {
    let machine = sample_machine(true);
    let html = page_of(machine.state());

    assert!(html.contains("@get('/events', { openWhenHidden: true })"));
    assert!(html.contains("@post('/cmd/left')"));
    assert!(html.contains("@post('/cmd/next')"));
    assert!(html.contains("@post('/cmd/apply/request')"));
    assert!(html.contains("<button data-on:click=\"@post('/cmd/left')\">⬅️ Left</button>"));
    assert!(html.contains("window.piclrInitQueueSidebarList"));
    assert!(html.contains("outsideView"));
}

#[test]
fn apply_request_shows_apply_confirmation_modal() {
    let mut machine = sample_machine(true);
    apply_request_command(machine.state_mut());
    assert_eq!(machine.state().active_modal, Some(ModalView::ApplyConfirm));
}

#[test]
fn queue_toggle_uses_sidebar_not_modal() {
    let mut machine = sample_machine(true);
    show_queue_command(machine.state_mut());

    let html = page_of(machine.state());
    assert!(html.contains("id=\"queue-sidebar\""));
    assert!(!html.contains("<modal-queue"));
}

#[test]
fn selected_queue_row_shows_apply_and_undo_icons() {
    let mut machine = machine_with(&["/tmp/a.jpg", "/tmp/b.jpg"], true);
    machine.state_mut().apply_decision(DecisionSide::Left);
    machine.state_mut().apply_decision(DecisionSide::Right);
    machine.state_mut().toggle_queue_sidebar();
    machine.state_mut().select_queue_last();

    let html = page_of(machine.state());
    assert!(html.contains("/cmd/queue/apply-selected"));
    assert!(html.contains("/cmd/queue/remove-selected"));
}

#[test]
fn applying_selected_queue_item_preserves_remaining_queue() {
    let mut machine = machine_with(&["/tmp/a.jpg", "/tmp/b.jpg", "/tmp/c.jpg"], true);
    machine.state_mut().apply_decision(DecisionSide::Right);
    machine.state_mut().apply_decision(DecisionSide::Right);
    machine.state_mut().apply_decision(DecisionSide::Right);
    machine.state_mut().toggle_queue_sidebar();
    machine.state_mut().select_queue_first();

    let (image_id, path, action, sequence) = machine.state().queue_selected_item_for_apply().unwrap();
    let config = FsConfig::new("/tmp".to_string(), false);
    assert!(matches!(plan_action(&config, &path, &action, sequence), ActionPlan::Nothing));
    machine.state_mut().apply_selected_queue_action_result(image_id, &action);

    assert_eq!(machine.state().projection().queue_count, 2);
}

#[test]
fn applying_selected_delete_does_not_leave_stale_nav_file_entry() {
    let mut machine = machine_with(&["/tmp/a.jpg", "/tmp/b.jpg"], true);
    machine.state_mut().apply_decision(DecisionSide::Left);
    machine.state_mut().apply_decision(DecisionSide::Right);
    machine.state_mut().toggle_queue_sidebar();
    machine.state_mut().select_queue_first();

    let (image_id, _path, action, _sequence) = machine.state().queue_selected_item_for_apply().unwrap();
    assert_eq!(action, ActionConfig::Delete);
    machine.state_mut().apply_selected_queue_action_result(image_id, &action);

    let view = build_view(machine.state(), false);
    assert_eq!(view.total, 1);
    assert!(view.sidebar_items.iter().all(|item| item.file_label != "a.jpg"));
}

#[test]
fn undo_still_uses_stack_when_queue_is_selected() {
    let mut machine = machine_with(&["/tmp/a.jpg", "/tmp/b.jpg"], true);

    let first_outcome = machine
        .state_mut()
        .apply_decision(DecisionSide::Left)
        .unwrap();
    machine.state_mut().record_undo(UndoEntry {
        image_id: first_outcome.image_id,
        previous_decision: first_outcome.previous_decision,
        previous_queue: first_outcome.previous_queue,
        previous_cursor: first_outcome.cursor_before,
        undo_action: None,
    });
    machine.state_mut().apply_decision(DecisionSide::Right);
    machine.state_mut().toggle_queue_sidebar();
    machine.state_mut().select_queue_last();

    machine.state_mut().undo_last();
    assert_eq!(machine.state().projection().queue_count, 1);
    assert_eq!(machine.state().undo_stack.len(), 0);
}
