//! The markup of the page, its panels, the image cards and the modals, and
//! the plan of the updates
//! the page receives after a command: which panels are rendered again, and how
//! the image stack changes.
use vstd::prelude::*;

use super::view::{AppView, QueueItem, SidebarItem, StackCard};
use crate::domain::state::{AppStateInner, ModalView};
use crate::text::{chars_of, decimal, decimal_string, owned, push_all, push_char, same_text};

verus! {

/// How a character is written in HTML text or an attribute value.
pub open spec fn escaped_char(c: char) -> Seq<char> {
    if c == '&' {
        "&amp;"@
    } else if c == '<' {
        "&lt;"@
    } else if c == '>' {
        "&gt;"@
    } else if c == '"' {
        "&quot;"@
    } else if c == '\'' {
        "&#x27;"@
    } else {
        seq![c]
    }
}

/// A text with the characters that HTML gives a meaning to escaped.
pub open spec fn html_escaped(s: Seq<char>) -> Seq<char>
    decreases s.len(),
{
    if s.len() == 0 {
        Seq::empty()
    } else {
        html_escaped(s.drop_last()) + escaped_char(s.last())
    }
}

/// Appends `text` to `out`, escaped for HTML.
fn push_escaped(out: &mut String, text: &str)
    ensures
        final(out)@ == old(out)@ + html_escaped(text@),
{
    let chars = chars_of(text);
    let mut i: usize = 0;
    while i < chars.len()
        invariant
            i <= chars.len(),
            chars@ == text@,
            out@ == old(out)@ + html_escaped(text@.take(i as int)),
        decreases chars.len() - i,
    {
        let c = chars[i];
        let ghost before = out@;
        if c == '&' {
            push_all(out, "&amp;");
        } else if c == '<' {
            push_all(out, "&lt;");
        } else if c == '>' {
            push_all(out, "&gt;");
        } else if c == '"' {
            push_all(out, "&quot;");
        } else if c == '\'' {
            push_all(out, "&#x27;");
        } else {
            push_char(out, c);
        }
        proof {
            assert(text@.take(i + 1).drop_last() =~= text@.take(i as int));
            assert(out@ =~= before + escaped_char(c));
            assert(out@ =~= old(out)@ + html_escaped(text@.take(i + 1)));
        }
        i = i + 1;
    }
    assert(text@.take(chars.len() as int) =~= text@);
}

/// The markup of an image card: the card carries the id of its image, leans
/// to the side the image was decided for, and shows the image and its status.
pub open spec fn image_card_html(card: StackCard) -> Seq<char> {
    "<image-card id=\"image-card-"@ + decimal(card.image_id as nat) + "\" class=\"align-"@ + html_escaped(
        card.alignment@,
    ) + "\" data-stack-index=\""@ + decimal(card.stack_index as nat) + "\"><img src=\""@ + html_escaped(
        card.image_src@,
    ) + "\" alt=\""@ + html_escaped(card.action_item.file_label@) + "\"><image-status class=\"status-"@
        + html_escaped(card.action_item.status_kind@) + " tone-"@ + html_escaped(card.action_item.action_tone@)
        + "\">"@ + html_escaped(card.action_item.file_label@) + "</image-status></image-card>"@
}

#[verifier::rlimit(50)]
pub fn render_image_card(card: &StackCard) -> (html: String)
    ensures
        html@ == image_card_html(*card),
{
    let mut out = owned("<image-card id=\"image-card-");
    let id = decimal_string(card.image_id);
    push_all(&mut out, id.as_str());
    push_all(&mut out, "\" class=\"align-");
    push_escaped(&mut out, card.alignment.as_str());
    push_all(&mut out, "\" data-stack-index=\"");
    let index = decimal_string(card.stack_index as u64);
    push_all(&mut out, index.as_str());
    push_all(&mut out, "\"><img src=\"");
    push_escaped(&mut out, card.image_src.as_str());
    push_all(&mut out, "\" alt=\"");
    push_escaped(&mut out, card.action_item.file_label.as_str());
    push_all(&mut out, "\"><image-status class=\"status-");
    push_escaped(&mut out, card.action_item.status_kind.as_str());
    push_all(&mut out, " tone-");
    push_escaped(&mut out, card.action_item.action_tone.as_str());
    push_all(&mut out, "\">");
    push_escaped(&mut out, card.action_item.file_label.as_str());
    push_all(&mut out, "</image-status></image-card>");
    out
}

/// The placeholder that stands for "no modal".
pub const NO_MODAL_HTML: &'static str = "<modal-none id=\"modal\"></modal-none>";

/// The modal that asks before the queue is applied.
pub const APPLY_CONFIRM_HTML: &'static str = "<modal-apply-confirm id=\"modal\"><p>Apply all queued actions?</p><button data-on:click=\"@post('/cmd/apply')\">Apply</button><button data-on:click=\"@post('/cmd/close')\">Cancel</button></modal-apply-confirm>";

/// The modal that asks before queued deletions remove files for good.
pub const DELETE_CONFIRM_HTML: &'static str = "<modal-confirm id=\"modal\"><p>Queued deletions remove files permanently. Continue?</p><button data-on:click=\"@post('/cmd/apply-confirm')\">Delete</button><button data-on:click=\"@post('/cmd/close')\">Cancel</button></modal-confirm>";

/// The modal that asks what to do with the queue before the directory changes.
pub const QUEUE_NOT_EMPTY_HTML: &'static str = "<modal-queue-not-empty id=\"modal\"><p>The queue is not empty.</p><button data-on:click=\"@post('/cmd/sidebar/change-directory/apply')\">Apply queue</button><button data-on:click=\"@post('/cmd/sidebar/change-directory/clear')\">Discard queue</button><button data-on:click=\"@post('/cmd/sidebar/change-directory/cancel')\">Stay</button></modal-queue-not-empty>";

/// The modal that asks before a directory is deleted.
pub const DIRECTORY_DELETE_CONFIRM_HTML: &'static str = "<modal-directory-delete id=\"modal\"><p>Delete this directory?</p><button data-on:click=\"@post('/cmd/sidebar/delete/confirm')\">Delete</button><button data-on:click=\"@post('/cmd/close')\">Cancel</button></modal-directory-delete>";

/// The help modal: the keyboard shortcuts.
pub const HELP_HTML: &'static str = "<modal-help id=\"modal\"><dl><dt>Up / K</dt><dd>previous image</dd><dt>Down / J</dt><dd>next image</dd><dt>Shift+Up / Shift+K</dt><dd>previous undecided</dd><dt>Shift+Down / Shift+J</dt><dd>next undecided</dd><dt>Left / H</dt><dd>apply left action</dd><dt>Right / L</dt><dd>apply right action</dd><dt>U</dt><dd>undo last command</dd><dt>Shift+A</dt><dd>apply queued actions</dd><dt>Q</dt><dd>show queued actions</dd><dt>F</dt><dd>show or hide files sidebar</dd><dt>?</dt><dd>show help</dd><dt>Esc</dt><dd>close top modal</dd></dl><button data-on:click=\"@post('/cmd/close')\">Close</button></modal-help>";

/// The list items of the errors of an apply, each escaped.
pub open spec fn error_items(errors: Seq<String>) -> Seq<char>
    decreases errors.len(),
{
    if errors.len() == 0 {
        Seq::empty()
    } else {
        error_items(errors.drop_last()) + "<li>"@ + html_escaped(errors.last()@) + "</li>"@
    }
}

/// The modal that reports an apply: how many actions completed out of how
/// many, how many failed, and the errors.
pub open spec fn result_html(view: AppView) -> Seq<char> {
    "<modal-result id=\"modal\"><p>Applied "@ + decimal(view.apply_completed as nat) + " of "@ + decimal(
        view.apply_total as nat,
    ) + " actions, "@ + decimal(view.apply_failed as nat) + " failed.</p><ul>"@ + error_items(view.apply_errors@)
        + "</ul><button data-on:click=\"@post('/cmd/close')\">Close</button></modal-result>"@
}

/// The markup of the modal a view shows; the queue lives in its own panel, so
/// it shows none.
pub open spec fn modal_html(view: AppView) -> Seq<char> {
    match view.active_modal {
        Some(ModalView::Queue) => NO_MODAL_HTML@,
        Some(ModalView::ApplyConfirm) => APPLY_CONFIRM_HTML@,
        Some(ModalView::DeleteConfirm) => DELETE_CONFIRM_HTML@,
        Some(ModalView::QueueNotEmptyConfirm) => QUEUE_NOT_EMPTY_HTML@,
        Some(ModalView::DirectoryDeleteConfirm) => DIRECTORY_DELETE_CONFIRM_HTML@,
        Some(ModalView::Help) => HELP_HTML@,
        Some(ModalView::ApplyResult) => result_html(view),
        None => NO_MODAL_HTML@,
    }
}

#[verifier::rlimit(50)]
fn render_result(view: &AppView) -> (html: String)
    ensures
        html@ == result_html(*view),
{
    let mut out = owned("<modal-result id=\"modal\"><p>Applied ");
    let completed = decimal_string(view.apply_completed as u64);
    push_all(&mut out, completed.as_str());
    push_all(&mut out, " of ");
    let total = decimal_string(view.apply_total as u64);
    push_all(&mut out, total.as_str());
    push_all(&mut out, " actions, ");
    let failed = decimal_string(view.apply_failed as u64);
    push_all(&mut out, failed.as_str());
    push_all(&mut out, " failed.</p><ul>");
    let ghost head = out@;
    let mut i: usize = 0;
    while i < view.apply_errors.len()
        invariant
            i <= view.apply_errors.len(),
            out@ == head + error_items(view.apply_errors@.take(i as int)),
        decreases view.apply_errors.len() - i,
    {
        push_all(&mut out, "<li>");
        push_escaped(&mut out, view.apply_errors[i].as_str());
        push_all(&mut out, "</li>");
        proof {
            assert(view.apply_errors@.take(i + 1).drop_last() =~= view.apply_errors@.take(i as int));
        }
        i = i + 1;
    }
    assert(view.apply_errors@.take(view.apply_errors.len() as int) =~= view.apply_errors@);
    push_all(&mut out, "</ul><button data-on:click=\"@post('/cmd/close')\">Close</button></modal-result>");
    out
}

pub fn render_active_modal(view: &AppView) -> (html: String)
    ensures
        html@ == modal_html(*view),
{
    match view.active_modal {
        Some(ModalView::Queue) => owned(NO_MODAL_HTML),
        Some(ModalView::ApplyConfirm) => owned(APPLY_CONFIRM_HTML),
        Some(ModalView::DeleteConfirm) => owned(DELETE_CONFIRM_HTML),
        Some(ModalView::QueueNotEmptyConfirm) => owned(QUEUE_NOT_EMPTY_HTML),
        Some(ModalView::DirectoryDeleteConfirm) => owned(DIRECTORY_DELETE_CONFIRM_HTML),
        Some(ModalView::Help) => owned(HELP_HTML),
        Some(ModalView::ApplyResult) => render_result(view),
        None => owned(NO_MODAL_HTML),
    }
}

/// A class name written when `on` holds.
pub open spec fn flag(on: bool, name: Seq<char>) -> Seq<char> {
    if on {
        " "@ + name
    } else {
        Seq::empty()
    }
}

fn push_flag(out: &mut String, on: bool, name: &str)
    ensures
        final(out)@ == old(out)@ + flag(on, name@),
{
    if on {
        push_all(out, " ");
        push_all(out, name);
    } else {
        assert(out@ =~= old(out)@ + flag(on, name@));
    }
}

fn push_number(out: &mut String, n: u64)
    ensures
        final(out)@ == old(out)@ + decimal(n as nat),
{
    let digits = decimal_string(n);
    push_all(out, digits.as_str());
}

/// The header: the current directory, the sort mode, where the viewer stands
/// and the counters of both sides and of the queue.
pub open spec fn header_html(view: AppView) -> Seq<char> {
    "<header id=\"header\"><span class=\"current-path\">"@ + html_escaped(view.current_path_label@)
        + "</span><span class=\"sort-mode\">"@ + html_escaped(view.selected_sort_mode@)
        + "</span><span class=\"position\">"@ + decimal(view.index as nat) + " / "@ + decimal(view.total as nat)
        + "</span><span class=\"tone-left\">"@ + html_escaped(view.left_action_label@) + " "@ + decimal(
        view.left_action_count as nat,
    ) + "</span><span class=\"tone-right\">"@ + html_escaped(view.right_action_label@) + " "@ + decimal(
        view.right_action_count as nat,
    ) + "</span><span class=\"queue-count\">"@ + decimal(view.queue_count as nat) + "</span></header>"@
}

#[verifier::rlimit(50)]
pub fn render_header(view: &AppView) -> (html: String)
    ensures
        html@ == header_html(*view),
{
    let mut out = owned("<header id=\"header\"><span class=\"current-path\">");
    push_escaped(&mut out, view.current_path_label.as_str());
    push_all(&mut out, "</span><span class=\"sort-mode\">");
    push_escaped(&mut out, view.selected_sort_mode.as_str());
    push_all(&mut out, "</span><span class=\"position\">");
    push_number(&mut out, view.index as u64);
    push_all(&mut out, " / ");
    push_number(&mut out, view.total as u64);
    push_all(&mut out, "</span><span class=\"tone-left\">");
    push_escaped(&mut out, view.left_action_label.as_str());
    push_all(&mut out, " ");
    push_number(&mut out, view.left_action_count as u64);
    push_all(&mut out, "</span><span class=\"tone-right\">");
    push_escaped(&mut out, view.right_action_label.as_str());
    push_all(&mut out, " ");
    push_number(&mut out, view.right_action_count as u64);
    push_all(&mut out, "</span><span class=\"queue-count\">");
    push_number(&mut out, view.queue_count as u64);
    push_all(&mut out, "</span></header>");
    out
}

/// The opening tag of a row of the files sidebar: its id and its classes.
pub open spec fn sidebar_row_open_html(item: SidebarItem) -> Seq<char> {
    "<sidebar-item id=\"sidebar-item-"@ + decimal(item.entry_id as nat) + "\" class=\"kind-"@ + html_escaped(
        item.entry_kind@,
    ) + " status-"@ + html_escaped(item.status_kind@) + " tone-"@ + html_escaped(item.action_tone@) + flag(
        item.selected,
        "selected"@,
    ) + flag(item.peer_active, "peer-active"@) + flag(item.is_parent_link, "parent-link"@)
}

/// The rest of a row of the files sidebar: a directory row opens its
/// directory when clicked, a file row selects its image.
pub open spec fn sidebar_row_rest_html(item: SidebarItem) -> Seq<char> {
    let target = if item.entry_kind@ == "directory"@ {
        "/cmd/sidebar/open-entry/"@
    } else {
        "/cmd/select/"@
    };
    "\" title=\""@ + html_escaped(item.path_hint@) + "\" data-on:click=\"@post('"@ + target + decimal(
        item.entry_id as nat,
    ) + "')\">"@ + html_escaped(item.file_label@) + "</sidebar-item>"@
}

/// A row of the files sidebar.
pub open spec fn sidebar_row_html(item: SidebarItem) -> Seq<char> {
    sidebar_row_open_html(item) + sidebar_row_rest_html(item)
}

/// The rows of the files sidebar, in order.
pub open spec fn sidebar_rows_html(items: Seq<SidebarItem>) -> Seq<char>
    decreases items.len(),
{
    if items.len() == 0 {
        Seq::empty()
    } else {
        sidebar_rows_html(items.drop_last()) + sidebar_row_html(items.last())
    }
}

/// The files sidebar; it says so when the directory holds no image.
pub open spec fn sidebar_html(view: AppView) -> Seq<char> {
    "<aside id=\"sidebar\" class=\"sidebar-panel"@ + flag(view.sidebar_expanded, "expanded"@) + "\">"@
        + sidebar_rows_html(view.sidebar_items@) + (if view.total == 0 {
        "<p class=\"empty\">No supported images in this directory.</p>"@
    } else {
        Seq::empty()
    }) + "</aside>"@
}

#[verifier::rlimit(50)]
fn render_sidebar_row_open(out: &mut String, item: &SidebarItem)
    ensures
        final(out)@ == old(out)@ + sidebar_row_open_html(*item),
{
    let ghost start = out@;
    push_all(out, "<sidebar-item id=\"sidebar-item-");
    push_number(out, item.entry_id);
    push_all(out, "\" class=\"kind-");
    push_escaped(out, item.entry_kind.as_str());
    push_all(out, " status-");
    push_escaped(out, item.status_kind.as_str());
    push_all(out, " tone-");
    push_escaped(out, item.action_tone.as_str());
    push_flag(out, item.selected, "selected");
    push_flag(out, item.peer_active, "peer-active");
    push_flag(out, item.is_parent_link, "parent-link");
    assert(out@ =~= start + sidebar_row_open_html(*item));
}

#[verifier::rlimit(50)]
fn render_sidebar_row_rest(out: &mut String, item: &SidebarItem)
    ensures
        final(out)@ == old(out)@ + sidebar_row_rest_html(*item),
{
    let ghost start = out@;
    push_all(out, "\" title=\"");
    push_escaped(out, item.path_hint.as_str());
    push_all(out, "\" data-on:click=\"@post('");
    if same_text(item.entry_kind.as_str(), "directory") {
        push_all(out, "/cmd/sidebar/open-entry/");
    } else {
        push_all(out, "/cmd/select/");
    }
    push_number(out, item.entry_id);
    push_all(out, "')\">");
    push_escaped(out, item.file_label.as_str());
    push_all(out, "</sidebar-item>");
    assert(out@ =~= start + sidebar_row_rest_html(*item));
}

fn render_sidebar_row(out: &mut String, item: &SidebarItem)
    ensures
        final(out)@ == old(out)@ + sidebar_row_html(*item),
{
    let ghost start = out@;
    render_sidebar_row_open(out, item);
    render_sidebar_row_rest(out, item);
    assert(out@ =~= start + sidebar_row_html(*item));
}

#[verifier::rlimit(50)]
pub fn render_sidebar(view: &AppView) -> (html: String)
    ensures
        html@ == sidebar_html(*view),
{
    let mut out = owned("<aside id=\"sidebar\" class=\"sidebar-panel");
    push_flag(&mut out, view.sidebar_expanded, "expanded");
    push_all(&mut out, "\">");
    let ghost head = out@;
    let mut i: usize = 0;
    while i < view.sidebar_items.len()
        invariant
            i <= view.sidebar_items.len(),
            out@ == head + sidebar_rows_html(view.sidebar_items@.take(i as int)),
        decreases view.sidebar_items.len() - i,
    {
        render_sidebar_row(&mut out, &view.sidebar_items[i]);
        proof {
            assert(view.sidebar_items@.take(i + 1).drop_last() =~= view.sidebar_items@.take(i as int));
        }
        i = i + 1;
    }
    assert(view.sidebar_items@.take(view.sidebar_items.len() as int) =~= view.sidebar_items@);
    if view.total == 0 {
        push_all(&mut out, "<p class=\"empty\">No supported images in this directory.</p>");
    }
    push_all(&mut out, "</aside>");
    assert(out@ =~= sidebar_html(*view));
    out
}

/// The opening tag of a row of the queue panel: its id and its classes.
pub open spec fn queue_row_open_html(item: QueueItem) -> Seq<char> {
    "<queue-item id=\"queue-item-"@ + decimal(item.image_id as nat) + "\" class=\"status-"@ + html_escaped(
        item.status_kind@,
    ) + " tone-"@ + html_escaped(item.action_tone@) + flag(item.selected, "selected"@) + flag(
        item.peer_active,
        "peer-active"@,
    )
}

/// The rest of a row of the queue panel: clicking selects it, and the
/// selected row offers to apply its action or to take it out of the queue.
pub open spec fn queue_row_rest_html(item: QueueItem) -> Seq<char> {
    "\" data-on:click=\"@post('/cmd/queue/select/"@ + decimal(item.image_id as nat) + "')\">"@ + html_escaped(
        item.file_label@,
    ) + (if item.selected {
        QUEUE_ROW_BUTTONS_HTML@
    } else {
        Seq::empty()
    }) + "</queue-item>"@
}

/// A row of the queue panel.
pub open spec fn queue_row_html(item: QueueItem) -> Seq<char> {
    queue_row_open_html(item) + queue_row_rest_html(item)
}

/// The buttons of the selected queue row.
pub const QUEUE_ROW_BUTTONS_HTML: &'static str = "<button title=\"Apply\" data-on:click__stop=\"@post('/cmd/queue/apply-selected')\">✅</button><button title=\"Undo\" data-on:click__stop=\"@post('/cmd/queue/remove-selected')\">↩️</button>";

/// The rows of the queue panel, in order.
pub open spec fn queue_rows_html(items: Seq<QueueItem>) -> Seq<char>
    decreases items.len(),
{
    if items.len() == 0 {
        Seq::empty()
    } else {
        queue_rows_html(items.drop_last()) + queue_row_html(items.last())
    }
}

/// The queue panel.
pub open spec fn queue_panel_html(view: AppView) -> Seq<char> {
    "<aside id=\"queue-sidebar\" class=\"queue-panel"@ + flag(view.queue_sidebar_visible, "visible"@) + flag(
        view.queue_selected,
        "focused"@,
    ) + "\">"@ + queue_rows_html(view.queue_items@) + "</aside>"@
}

#[verifier::rlimit(50)]
fn render_queue_row_open(out: &mut String, item: &QueueItem)
    ensures
        final(out)@ == old(out)@ + queue_row_open_html(*item),
{
    let ghost start = out@;
    push_all(out, "<queue-item id=\"queue-item-");
    push_number(out, item.image_id);
    push_all(out, "\" class=\"status-");
    push_escaped(out, item.status_kind.as_str());
    push_all(out, " tone-");
    push_escaped(out, item.action_tone.as_str());
    push_flag(out, item.selected, "selected");
    push_flag(out, item.peer_active, "peer-active");
    assert(out@ =~= start + queue_row_open_html(*item));
}

#[verifier::rlimit(50)]
fn render_queue_row_rest(out: &mut String, item: &QueueItem)
    ensures
        final(out)@ == old(out)@ + queue_row_rest_html(*item),
{
    let ghost start = out@;
    push_all(out, "\" data-on:click=\"@post('/cmd/queue/select/");
    push_number(out, item.image_id);
    push_all(out, "')\">");
    push_escaped(out, item.file_label.as_str());
    if item.selected {
        push_all(out, QUEUE_ROW_BUTTONS_HTML);
    }
    push_all(out, "</queue-item>");
    assert(out@ =~= start + queue_row_rest_html(*item));
}

fn render_queue_row(out: &mut String, item: &QueueItem)
    ensures
        final(out)@ == old(out)@ + queue_row_html(*item),
{
    let ghost start = out@;
    render_queue_row_open(out, item);
    render_queue_row_rest(out, item);
    assert(out@ =~= start + queue_row_html(*item));
}

#[verifier::rlimit(50)]
pub fn render_queue_panel(view: &AppView) -> (html: String)
    ensures
        html@ == queue_panel_html(*view),
{
    let mut out = owned("<aside id=\"queue-sidebar\" class=\"queue-panel");
    push_flag(&mut out, view.queue_sidebar_visible, "visible");
    push_flag(&mut out, view.queue_selected, "focused");
    push_all(&mut out, "\">");
    let ghost head = out@;
    let mut i: usize = 0;
    while i < view.queue_items.len()
        invariant
            i <= view.queue_items.len(),
            out@ == head + queue_rows_html(view.queue_items@.take(i as int)),
        decreases view.queue_items.len() - i,
    {
        render_queue_row(&mut out, &view.queue_items[i]);
        proof {
            assert(view.queue_items@.take(i + 1).drop_last() =~= view.queue_items@.take(i as int));
        }
        i = i + 1;
    }
    assert(view.queue_items@.take(view.queue_items.len() as int) =~= view.queue_items@);
    push_all(&mut out, "</aside>");
    out
}

/// The viewer with an image stack for the cards.
pub const VIEWER_HTML: &'static str = "<image-viewer id=\"image-viewer\"><image-stack id=\"image-stack\" data-attr:style=\"'--stack-cursor:' + $stackCursor\"></image-stack></image-viewer>";

/// The viewer when no image is listed.
pub const EMPTY_VIEWER_HTML: &'static str = "<image-viewer id=\"image-viewer\"><p class=\"empty\">No supported images in this directory.</p></image-viewer>";

/// An empty image stack, ready for cards.
pub const EMPTY_STACK_HTML: &'static str = "<image-stack id=\"image-stack\" data-attr:style=\"'--stack-cursor:' + $stackCursor\"></image-stack>";

/// The viewer: an image stack while images are listed.
pub open spec fn viewer_html(total: usize) -> Seq<char> {
    if total > 0 {
        VIEWER_HTML@
    } else {
        EMPTY_VIEWER_HTML@
    }
}

pub fn render_viewer(total: usize) -> (html: String)
    ensures
        html@ == viewer_html(total),
{
    if total > 0 {
        owned(VIEWER_HTML)
    } else {
        owned(EMPTY_VIEWER_HTML)
    }
}

/// The start of the page, up to the header: it loads the style and the
/// client, and opens the stream of updates.
pub const PAGE_HEAD_HTML: &'static str = "<!DOCTYPE html><html lang=\"en\"><head><meta charset=\"utf-8\"><title>PICLR</title><link rel=\"icon\" href=\"/favicon.ico\"><link rel=\"stylesheet\" href=\"/assets/app.css\"><script type=\"module\" src=\"/assets/datastar.js\"></script></head><body data-init=\"@get('/events', { openWhenHidden: true })\"><main>";

/// The footer with the buttons of the commands.
pub const PAGE_FOOTER_HTML: &'static str = "</main><footer id=\"footer\"><button data-on:click=\"@post('/cmd/prev')\">⬆️ Prev</button><button data-on:click=\"@post('/cmd/next')\">⬇️ Next</button><button data-on:click=\"@post('/cmd/left')\">⬅️ Left</button><button data-on:click=\"@post('/cmd/right')\">➡️ Right</button><button data-on:click=\"@post('/cmd/undo')\">↩️ Undo</button><button data-on:click=\"@post('/cmd/queue/show')\">📋 Queue</button><button data-on:click=\"@post('/cmd/sidebar/toggle')\">📁 Files</button><button data-on:click=\"@post('/cmd/apply/request')\">✅ Apply</button><button data-on:click=\"@post('/cmd/help')\">❓ Help</button></footer>";

/// The end of the page: the keyboard shortcuts, which stay inactive while the
/// pointer is outside the view, and the scrolling of the queue panel.
pub const PAGE_TAIL_HTML: &'static str = "<script>window.piclrInitQueueSidebarList = function () { const list = document.getElementById('queue-sidebar'); const selected = list && list.querySelector('.selected'); if (selected) { selected.scrollIntoView({ block: 'nearest' }); } }; let outsideView = false; document.addEventListener('mouseleave', () => { outsideView = true; }); document.addEventListener('mouseenter', () => { outsideView = false; }); const keys = { ArrowUp: '/cmd/prev', k: '/cmd/prev', ArrowDown: '/cmd/next', j: '/cmd/next', K: '/cmd/jump-prev', J: '/cmd/jump-next', ArrowLeft: '/cmd/left', h: '/cmd/left', ArrowRight: '/cmd/right', l: '/cmd/right', u: '/cmd/undo', A: '/cmd/apply/request', q: '/cmd/queue/show', f: '/cmd/sidebar/toggle', '?': '/cmd/help', Escape: '/cmd/close', Home: '/cmd/home', End: '/cmd/end' }; document.addEventListener('keydown', (event) => { if (outsideView) { return; } let key = event.key; if (event.shiftKey && key === 'ArrowUp') { key = 'K'; } if (event.shiftKey && key === 'ArrowDown') { key = 'J'; } const path = keys[key]; if (path) { event.preventDefault(); fetch(path, { method: 'POST' }); } }); document.addEventListener('DOMContentLoaded', () => window.piclrInitQueueSidebarList());</script></body></html>";

/// The whole page: the header, the files sidebar, the viewer, the queue
/// panel, the footer and the open modal.
pub open spec fn page_html(view: AppView) -> Seq<char> {
    PAGE_HEAD_HTML@ + header_html(view) + sidebar_html(view) + viewer_html(view.total) + queue_panel_html(view)
        + PAGE_FOOTER_HTML@ + modal_html(view) + PAGE_TAIL_HTML@
}

#[verifier::rlimit(50)]
pub fn render_page(view: &AppView) -> (html: String)
    ensures
        html@ == page_html(*view),
{
    let mut out = owned(PAGE_HEAD_HTML);
    let header = render_header(view);
    push_all(&mut out, header.as_str());
    let sidebar = render_sidebar(view);
    push_all(&mut out, sidebar.as_str());
    let viewer = render_viewer(view.total);
    push_all(&mut out, viewer.as_str());
    let queue = render_queue_panel(view);
    push_all(&mut out, queue.as_str());
    push_all(&mut out, PAGE_FOOTER_HTML);
    let modal = render_active_modal(view);
    push_all(&mut out, modal.as_str());
    push_all(&mut out, PAGE_TAIL_HTML);
    out
}

/// Which parts of the page a command renders again.
#[derive(Clone, Copy, Debug, PartialEq, Eq, Structural)]
pub struct UiPatch {
    pub header: bool,
    pub viewer: bool,
    pub stack: bool,
    pub stack_reset: bool,
    pub sidebar: bool,
    pub queue: bool,
    pub modals: bool,
    pub signals: bool,
}

impl UiPatch {
    /// Every part, the image stack built anew.
    pub open spec fn everything() -> UiPatch {
        UiPatch {
            header: true,
            viewer: true,
            stack: true,
            stack_reset: true,
            sidebar: true,
            queue: true,
            modals: true,
            signals: true,
        }
    }

    /// What a move through the images changes: the stack, both sidebars and
    /// the signals.
    pub open spec fn navigation() -> UiPatch {
        UiPatch {
            header: false,
            viewer: false,
            stack: true,
            stack_reset: false,
            sidebar: true,
            queue: true,
            modals: false,
            signals: true,
        }
    }

    /// The modal alone.
    pub open spec fn modal() -> UiPatch {
        UiPatch {
            header: false,
            viewer: false,
            stack: false,
            stack_reset: false,
            sidebar: false,
            queue: false,
            modals: true,
            signals: false,
        }
    }

    /// A move through the images while a modal may be open.
    pub open spec fn navigation_with_modal() -> UiPatch {
        UiPatch { modals: true, ..UiPatch::navigation() }
    }

    /// What resetting the queue changes: everything but the header and the
    /// viewer, the stack built anew.
    pub open spec fn queue_cleared() -> UiPatch {
        UiPatch { stack_reset: true, modals: true, ..UiPatch::navigation() }
    }

    pub fn all() -> (p: UiPatch)
        ensures
            p == UiPatch::everything(),
    {
        UiPatch {
            header: true,
            viewer: true,
            stack: true,
            stack_reset: true,
            sidebar: true,
            queue: true,
            modals: true,
            signals: true,
        }
    }

    pub fn viewer_and_signals() -> (p: UiPatch)
        ensures
            p == UiPatch::navigation(),
    {
        UiPatch {
            header: false,
            viewer: false,
            stack: true,
            stack_reset: false,
            sidebar: true,
            queue: true,
            modals: false,
            signals: true,
        }
    }

    pub fn modals_only() -> (p: UiPatch)
        ensures
            p == UiPatch::modal(),
    {
        UiPatch {
            header: false,
            viewer: false,
            stack: false,
            stack_reset: false,
            sidebar: false,
            queue: false,
            modals: true,
            signals: false,
        }
    }

    pub fn viewer_modals_and_signals() -> (p: UiPatch)
        ensures
            p == UiPatch::navigation_with_modal(),
    {
        UiPatch { modals: true, ..UiPatch::viewer_and_signals() }
    }

    pub fn reset_queue() -> (p: UiPatch)
        ensures
            p == UiPatch::queue_cleared(),
    {
        UiPatch { stack_reset: true, modals: true, ..UiPatch::viewer_and_signals() }
    }
}

/// What a move through the images renders again: the modal too while one is open.
pub fn navigation_patch(state: &AppStateInner) -> (p: UiPatch)
    ensures
        p == if state.active_modal is Some {
            UiPatch::navigation_with_modal()
        } else {
            UiPatch::navigation()
        },
{
    if state.active_modal.is_some() {
        UiPatch::viewer_modals_and_signals()
    } else {
        UiPatch::viewer_and_signals()
    }
}

/// What happens to the image stack on an update.
#[derive(Clone, Copy, Debug, PartialEq, Eq, Structural)]
pub enum StackUpdate {
    Untouched,
    /// No image is listed: the record of the cards shown is emptied.
    Cleared,
    /// The cards are brought in line with the view; built anew when `reset`.
    Patched { reset: bool },
}

/// The parts an update renders.
#[derive(Clone, Copy, Debug, PartialEq, Eq, Structural)]
pub struct PatchPlan {
    pub header: bool,
    pub viewer: bool,
    pub sidebar: bool,
    pub queue: bool,
    pub stack: StackUpdate,
    pub modals: bool,
    pub signals: bool,
}

/// The viewer is swapped when the page shows cards but no image is listed any
/// more, or shows none but images are listed.
pub open spec fn viewer_swap_needed(total: usize, rendered_empty: bool) -> bool {
    (total == 0 && !rendered_empty) || (total > 0 && rendered_empty)
}

/// What an update renders, given the parts asked for, how many images are
/// listed and whether the page shows no card.
pub fn plan_patch(patch: UiPatch, total: usize, rendered_empty: bool) -> (plan: PatchPlan)
    ensures
        plan.header == patch.header,
        plan.viewer == (patch.viewer || viewer_swap_needed(total, rendered_empty)),
        plan.sidebar == patch.sidebar,
        plan.queue == patch.queue,
        plan.stack == if !patch.stack {
            StackUpdate::Untouched
        } else if total > 0 {
            StackUpdate::Patched { reset: patch.viewer || patch.stack_reset }
        } else {
            StackUpdate::Cleared
        },
        plan.modals == patch.modals,
        plan.signals == patch.signals,
{
    let swap = (total == 0 && !rendered_empty) || (total > 0 && rendered_empty);
    let stack = if !patch.stack {
        StackUpdate::Untouched
    } else if total > 0 {
        StackUpdate::Patched { reset: patch.viewer || patch.stack_reset }
    } else {
        StackUpdate::Cleared
    };
    PatchPlan {
        header: patch.header,
        viewer: patch.viewer || swap,
        sidebar: patch.sidebar,
        queue: patch.queue,
        stack,
        modals: patch.modals,
        signals: patch.signals,
    }
}

/// The ids of `previous` that `desired` lacks, in their order.
pub open spec fn ids_left_out(previous: Seq<u64>, desired: Seq<u64>) -> Seq<u64>
    decreases previous.len(),
{
    if previous.len() == 0 {
        Seq::empty()
    } else {
        let rest = ids_left_out(previous.drop_last(), desired);
        if desired.contains(previous.last()) {
            rest
        } else {
            rest.push(previous.last())
        }
    }
}

/// How many ids of `desired`, from position `from` on, `previous` lacks in a row.
pub open spec fn lead_len(previous: Seq<u64>, desired: Seq<u64>, from: int) -> nat
    decreases desired.len() - from,
{
    if from < 0 || from >= desired.len() || previous.contains(desired[from]) {
        0
    } else {
        1 + lead_len(previous, desired, from + 1)
    }
}

/// How many ids of `desired`, going back from position `end`, `previous`
/// lacks in a row.
pub open spec fn trail_len(previous: Seq<u64>, desired: Seq<u64>, end: int) -> nat
    decreases end,
{
    if end <= 0 || end > desired.len() || previous.contains(desired[end - 1]) {
        0
    } else {
        1 + trail_len(previous, desired, end - 1)
    }
}

/// How the cards on the page change: the cards to remove (by image id), and
/// the positions in the desired cards of those to put in front (in the order
/// they are put there) and of those to add at the end.
#[derive(Clone, Debug)]
pub struct StackPatchPlan {
    pub reset: bool,
    pub removed: Vec<u64>,
    pub prepend: Vec<usize>,
    pub append: Vec<usize>,
}

fn contains_id(ids: &Vec<u64>, id: u64) -> (res: bool)
    ensures
        res == ids@.contains(id),
{
    let mut i: usize = 0;
    while i < ids.len()
        invariant
            i <= ids.len(),
            forall|k: int| 0 <= k < i ==> ids@[k] != id,
        decreases ids.len() - i,
    {
        if ids[i] == id {
            assert(ids@[i as int] == id);
            return true;
        }
        i = i + 1;
    }
    false
}

/// The update of the cards on the page, from the ids shown (`previous`) to the
/// ids of the view (`desired`). A reset builds every card anew, in order.
/// Otherwise the cards the view drops are removed, the leading new cards are
/// put in front, the last first, and the trailing new cards added at the end.
#[verifier::rlimit(50)]
pub fn plan_stack_patch(previous: &Vec<u64>, desired: &Vec<u64>, reset: bool) -> (plan: StackPatchPlan)
    ensures
        plan.reset == reset,
        reset ==> plan.removed@.len() == 0 && plan.prepend@.len() == 0
            && plan.append@ == Seq::new(desired@.len(), |i: int| i as usize),
        !reset ==> {
            let lead = lead_len(previous@, desired@, 0);
            let trail = trail_len(previous@, desired@, desired@.len() as int);
            &&& plan.removed@ == ids_left_out(previous@, desired@)
            &&& plan.prepend@ == Seq::new(lead, |i: int| (lead - 1 - i) as usize)
            &&& plan.append@ == Seq::new(trail, |i: int| (desired@.len() - trail + i) as usize)
        },
{
    let n = desired.len();
    if reset {
        let mut append: Vec<usize> = Vec::new();
        let mut k: usize = 0;
        while k < n
            invariant
                k <= n,
                n == desired.len(),
                append@ == Seq::new(k as nat, |i: int| i as usize),
            decreases n - k,
        {
            append.push(k);
            k = k + 1;
            assert(append@ =~= Seq::new(k as nat, |i: int| i as usize));
        }
        return StackPatchPlan { reset, removed: Vec::new(), prepend: Vec::new(), append };
    }
    let mut removed: Vec<u64> = Vec::new();
    let mut i: usize = 0;
    while i < previous.len()
        invariant
            i <= previous.len(),
            removed@ == ids_left_out(previous@.take(i as int), desired@),
        decreases previous.len() - i,
    {
        let id = previous[i];
        assert(previous@.take(i + 1).drop_last() =~= previous@.take(i as int));
        if !contains_id(desired, id) {
            removed.push(id);
        }
        i = i + 1;
    }
    assert(previous@.take(previous.len() as int) =~= previous@);
    let mut lead: usize = 0;
    while lead < n && !contains_id(previous, desired[lead])
        invariant
            lead <= n,
            n == desired.len(),
            lead_len(previous@, desired@, 0) == lead + lead_len(previous@, desired@, lead as int),
        decreases n - lead,
    {
        lead = lead + 1;
    }
    let mut prepend: Vec<usize> = Vec::new();
    let mut k: usize = 0;
    while k < lead
        invariant
            k <= lead,
            prepend@ == Seq::new(k as nat, |i: int| (lead - 1 - i) as usize),
        decreases lead - k,
    {
        prepend.push(lead - 1 - k);
        k = k + 1;
        assert(prepend@ =~= Seq::new(k as nat, |i: int| (lead - 1 - i) as usize));
    }
    let mut start: usize = n;
    while start > 0 && !contains_id(previous, desired[start - 1])
        invariant
            start <= n,
            n == desired.len(),
            trail_len(previous@, desired@, n as int) == (n - start) + trail_len(previous@, desired@, start as int),
        decreases start,
    {
        start = start - 1;
    }
    let mut append: Vec<usize> = Vec::new();
    let mut k: usize = start;
    while k < n
        invariant
            start <= k <= n,
            append@ == Seq::new((k - start) as nat, |i: int| (start + i) as usize),
        decreases n - k,
    {
        append.push(k);
        k = k + 1;
        assert(append@ =~= Seq::new((k - start) as nat, |i: int| (start + i) as usize));
    }
    assert(append@ =~= Seq::new((n - start) as nat, |i: int| (desired@.len() - (n - start) + i) as usize));
    StackPatchPlan { reset, removed, prepend, append }
}

} // verus!
