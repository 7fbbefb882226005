//! The read model of the web interface: what each panel of the page shows,
//! computed from the session state.
use vstd::prelude::*;

use crate::domain::actions::{ActionConfig, DecisionSide, DecisionState};
use crate::domain::sorting::{SortDirection, SortKey, SortMode};
use crate::domain::state::{
    AppModel, AppStateInner, ImageEntry, ModalView, NavEntryKind, NavModel, first_image_with_id, relative_to_root,
};
use crate::paths::{path_strip_prefix, stripped_prefix};
use crate::text::{chars_of, decimal, decimal_string, owned, push_all, push_char, same_text};

verus! {

/// The text for a decision side; `neutral` when there is none.
pub open spec fn side_text(side: Option<DecisionSide>, neutral: Seq<char>) -> Seq<char> {
    match side {
        Some(DecisionSide::Left) => "left"@,
        Some(DecisionSide::Right) => "right"@,
        None => neutral,
    }
}

fn side_string(side: Option<DecisionSide>, neutral: &str) -> (res: String)
    ensures
        res@ == side_text(side, neutral@),
{
    match side {
        Some(DecisionSide::Left) => owned("left"),
        Some(DecisionSide::Right) => owned("right"),
        None => owned(neutral),
    }
}

/// The value of the sort menu for a sort mode.
pub open spec fn sort_mode_text(mode: SortMode) -> Seq<char> {
    match (mode.key, mode.direction) {
        (SortKey::Alphabetical, SortDirection::Asc) => "name-asc"@,
        (SortKey::Alphabetical, SortDirection::Desc) => "name-desc"@,
        (SortKey::LastModified, SortDirection::Asc) => "modified-asc"@,
        (SortKey::LastModified, SortDirection::Desc) => "modified-desc"@,
        (SortKey::Size, SortDirection::Asc) => "size-asc"@,
        (SortKey::Size, SortDirection::Desc) => "size-desc"@,
        _ => "modified-asc"@,
    }
}

pub fn sort_mode_label(mode: SortMode) -> (res: String)
    ensures
        res@ == sort_mode_text(mode),
{
    match (mode.key, mode.direction) {
        (SortKey::Alphabetical, SortDirection::Asc) => owned("name-asc"),
        (SortKey::Alphabetical, SortDirection::Desc) => owned("name-desc"),
        (SortKey::LastModified, SortDirection::Asc) => owned("modified-asc"),
        (SortKey::LastModified, SortDirection::Desc) => owned("modified-desc"),
        (SortKey::Size, SortDirection::Asc) => owned("size-asc"),
        (SortKey::Size, SortDirection::Desc) => owned("size-desc"),
        _ => owned("modified-asc"),
    }
}

/// The sort mode a sort menu value names, if any.
pub open spec fn sort_mode_named(name: Seq<char>) -> Option<SortMode> {
    if name == "name-asc"@ {
        Some(SortMode { key: SortKey::Alphabetical, direction: SortDirection::Asc })
    } else if name == "name-desc"@ {
        Some(SortMode { key: SortKey::Alphabetical, direction: SortDirection::Desc })
    } else if name == "modified-asc"@ {
        Some(SortMode { key: SortKey::LastModified, direction: SortDirection::Asc })
    } else if name == "modified-desc"@ {
        Some(SortMode { key: SortKey::LastModified, direction: SortDirection::Desc })
    } else if name == "size-asc"@ {
        Some(SortMode { key: SortKey::Size, direction: SortDirection::Asc })
    } else if name == "size-desc"@ {
        Some(SortMode { key: SortKey::Size, direction: SortDirection::Desc })
    } else {
        None
    }
}

/// The sort mode a sort menu value names; `None` for any other value.
pub fn parse_sort_mode(name: &str) -> (res: Option<SortMode>)
    ensures
        res == sort_mode_named(name@),
{
    if same_text(name, "name-asc") {
        Some(SortMode { key: SortKey::Alphabetical, direction: SortDirection::Asc })
    } else if same_text(name, "name-desc") {
        Some(SortMode { key: SortKey::Alphabetical, direction: SortDirection::Desc })
    } else if same_text(name, "modified-asc") {
        Some(SortMode { key: SortKey::LastModified, direction: SortDirection::Asc })
    } else if same_text(name, "modified-desc") {
        Some(SortMode { key: SortKey::LastModified, direction: SortDirection::Desc })
    } else if same_text(name, "size-asc") {
        Some(SortMode { key: SortKey::Size, direction: SortDirection::Asc })
    } else if same_text(name, "size-desc") {
        Some(SortMode { key: SortKey::Size, direction: SortDirection::Desc })
    } else {
        None
    }
}

pub fn decision_side(image: &ImageEntry) -> (res: Option<DecisionSide>)
    ensures
        res == image.decision.spec_side(),
{
    match &image.decision {
        DecisionState::Decided { side, .. } => Some(*side),
        _ => None,
    }
}

/// How an image card leans: to the side it was decided for, else centred.
pub fn image_alignment_for(image: &ImageEntry) -> (res: String)
    ensures
        res@ == side_text(image.decision.spec_side(), "center"@),
{
    side_string(decision_side(image), "center")
}

/// The text shown for an action.
pub open spec fn action_text(action: ActionConfig) -> Seq<char> {
    match action {
        ActionConfig::Keep => "Keep"@,
        ActionConfig::Delete => "Delete"@,
        ActionConfig::Move { target } => target@,
        ActionConfig::Rename { .. } => "Rename"@,
        ActionConfig::MetadataEdit { .. } => "Metadata"@,
    }
}

pub fn action_config_label(action: &ActionConfig) -> (res: String)
    ensures
        res@ == action_text(*action),
{
    match action {
        ActionConfig::Keep => owned("Keep"),
        ActionConfig::Delete => owned("Delete"),
        ActionConfig::Move { target } => target.clone(),
        ActionConfig::Rename { .. } => owned("Rename"),
        ActionConfig::MetadataEdit { .. } => owned("Metadata"),
    }
}

/// The label of an image: its path relative to the root, else its whole path.
pub fn file_label_for_image(image: &ImageEntry, root_dir: &Option<String>) -> (res: String)
    ensures
        res@ == relative_to_root(image.path@, *root_dir),
{
    match root_dir {
        Some(root) => match path_strip_prefix(image.path.as_str(), root.as_str()) {
            Some(rel) => rel,
            None => image.path.clone(),
        },
        None => image.path.clone(),
    }
}

/// A row of the queue panel.
#[derive(Clone, Debug)]
pub struct QueueItem {
    pub image_id: u64,
    pub status_kind: String,
    pub action_tone: String,
    pub file_label: String,
    pub selected: bool,
    pub peer_active: bool,
}

/// `item` shows `image` with the given decision side, unselected.
pub open spec fn is_item_for(item: QueueItem, image: ImageEntry, side: Option<DecisionSide>, root: Option<String>) -> bool {
    &&& item.image_id == image.id
    &&& item.status_kind@ == side_text(side, "none"@)
    &&& item.action_tone@ == side_text(side, "neutral"@)
    &&& item.file_label@ == relative_to_root(image.path@, root)
    &&& !item.selected
    &&& !item.peer_active
}

pub fn queue_item_from_action(image: &ImageEntry, side: Option<DecisionSide>, root_dir: &Option<String>) -> (item: QueueItem)
    ensures
        is_item_for(item, *image, side, *root_dir),
{
    QueueItem {
        image_id: image.id,
        status_kind: side_string(side, "none"),
        action_tone: side_string(side, "neutral"),
        file_label: file_label_for_image(image, root_dir),
        selected: false,
        peer_active: false,
    }
}

pub fn queue_item_none(image: &ImageEntry, root_dir: &Option<String>) -> (item: QueueItem)
    ensures
        is_item_for(item, *image, None, *root_dir),
{
    queue_item_from_action(image, None, root_dir)
}

/// The queue row of an image, by its decision.
pub fn queue_item_for_image(image: &ImageEntry, root_dir: &Option<String>) -> (item: QueueItem)
    ensures
        is_item_for(item, *image, image.decision.spec_side(), *root_dir),
{
    match &image.decision {
        DecisionState::Decided { side, .. } => queue_item_from_action(image, Some(*side), root_dir),
        DecisionState::Undecided => queue_item_none(image, root_dir),
    }
}

/// The images the queue panel lists: for each queued id, the first image with
/// that id, when it has a queued action.
pub open spec fn queue_images(images: Seq<ImageEntry>, queue: Seq<u64>) -> Seq<ImageEntry>
    decreases queue.len(),
{
    if queue.len() == 0 {
        Seq::empty()
    } else {
        let rest = queue_images(images, queue.drop_last());
        match first_image_with_id(images, queue.last(), 0) {
            Some(j) => if images[j].queued_action is Some {
                rest.push(images[j])
            } else {
                rest
            },
            None => rest,
        }
    }
}

/// The rows of the queue panel: each queued image with its decision; the row
/// of `queue_selected_id` is selected, and while the panel does not have the
/// keyboard the row of the current image is marked as its peer.
pub open spec fn is_queue_panel(items: Seq<QueueItem>, m: AppModel, queue_selected_id: Option<u64>) -> bool {
    let images = queue_images(m.images, m.queued_ids);
    &&& items.len() == images.len()
    &&& forall|i: int| 0 <= i < items.len() ==> {
        let item = #[trigger] items[i];
        let image = images[i];
        let selected = Some(image.id) == queue_selected_id;
        &&& is_item_for(
            QueueItem { selected: false, peer_active: false, ..item },
            image,
            image.decision.spec_side(),
            m.root_dir,
        )
        &&& item.selected == selected
        &&& item.peer_active == (!selected && !m.queue_focus && Some(image.id) == m.current_id())
    }
}

pub fn build_queue_items(state: &AppStateInner, queue_selected_id: Option<u64>) -> (items: Vec<QueueItem>)
    ensures
        is_queue_panel(items@, state@, queue_selected_id),
{
    let current_id = match state.current() {
        Some(image) => Some(image.id),
        None => None,
    };
    let mut items: Vec<QueueItem> = Vec::new();
    let mut i: usize = 0;
    while i < state.queued_ids.len()
        invariant
            i <= state.queued_ids.len(),
            current_id == state@.current_id(),
            is_queue_panel(
                items@,
                AppModel { queued_ids: state@.queued_ids.take(i as int), ..state@ },
                queue_selected_id,
            ),
        decreases state.queued_ids.len() - i,
    {
        assert(state@.queued_ids.take(i + 1).drop_last() =~= state@.queued_ids.take(i as int));
        let id = state.queued_ids[i];
        let mut j: usize = 0;
        let mut found: Option<usize> = None;
        while j < state.images.len()
            invariant_except_break
                found is None,
            invariant
                j <= state.images.len(),
                first_image_with_id(state@.images, id, 0) == first_image_with_id(state@.images, id, j as int),
            ensures
                crate::domain::state::opt_int(found) == first_image_with_id(state@.images, id, 0),
                found matches Some(k) ==> k < state.images.len(),
            decreases state.images.len() - j,
        {
            if state.images[j].id == id {
                found = Some(j);
                break;
            }
            j = j + 1;
        }
        match found {
            Some(j) => {
                let image = &state.images[j];
                if image.queued_action.is_some() {
                    let base = queue_item_from_action(image, decision_side(image), &state.root_dir);
                    let selected = Some(image.id) == queue_selected_id;
                    let item = QueueItem {
                        selected,
                        peer_active: !selected && !state.queue_focus && Some(image.id) == current_id,
                        ..base
                    };
                    let ghost before = items@;
                    items.push(item);
                    proof {
                        let m = AppModel { queued_ids: state@.queued_ids.take(i + 1), ..state@ };
                        let images = queue_images(m.images, m.queued_ids);
                        assert(images.len() == items.len());
                        assert forall|k: int| 0 <= k < items.len() implies {
                            let item = #[trigger] items@[k];
                            let image = images[k];
                            let selected = Some(image.id) == queue_selected_id;
                            &&& is_item_for(
                                QueueItem { selected: false, peer_active: false, ..item },
                                image,
                                image.decision.spec_side(),
                                m.root_dir,
                            )
                            &&& item.selected == selected
                            &&& item.peer_active == (!selected && !m.queue_focus && Some(image.id) == m.current_id())
                        } by {
                            if k < before.len() {
                                assert(items@[k] == before[k]);
                            }
                        }
                    }
                }
            },
            None => {},
        }
        i = i + 1;
    }
    assert(state@.queued_ids.take(state.queued_ids.len() as int) =~= state@.queued_ids);
    items
}

/// A row of the files sidebar.
#[derive(Clone, Debug)]
pub struct SidebarItem {
    pub entry_id: u64,
    pub entry_kind: String,
    pub status_kind: String,
    pub action_tone: String,
    pub file_label: String,
    pub selected: bool,
    pub peer_active: bool,
    pub is_parent_link: bool,
    pub path_hint: String,
}

/// `item` shows the sidebar row `entry`: a directory row plainly, a file row
/// with the decision of its image; the row of `selected_id` is selected, and
/// while the queue panel has the keyboard the row of its selected image is
/// marked as its peer.
pub open spec fn is_sidebar_item(item: SidebarItem, entry: NavModel, m: AppModel, selected_id: Option<u64>) -> bool {
    &&& item.entry_id == entry.id
    &&& item.file_label@ == entry.label
    &&& item.path_hint@ == entry.rel_path
    &&& item.selected == (selected_id == Some(entry.id))
    &&& match entry.kind {
        NavEntryKind::Directory => {
            &&& item.entry_kind@ == "directory"@
            &&& item.status_kind@ == "none"@
            &&& item.action_tone@ == "neutral"@
            &&& !item.peer_active
            &&& item.is_parent_link == entry.is_parent_link
        },
        NavEntryKind::File => {
            let image = m.images[first_image_with_id(m.images, entry.image_id->0, 0)->0];
            &&& item.entry_kind@ == "file"@
            &&& item.status_kind@ == side_text(image.decision.spec_side(), "none"@)
            &&& item.action_tone@ == side_text(image.decision.spec_side(), "neutral"@)
            &&& item.peer_active == (m.queue_focus && selected_id != Some(entry.id)
                && m.selected_queue_image_id == Some(image.id))
            &&& !item.is_parent_link
        },
    }
}

proof fn lemma_first_image_found(images: Seq<ImageEntry>, id: u64, start: int)
    requires
        0 <= start,
        exists|j: int| start <= j < images.len() && images[j].id == id,
    ensures
        first_image_with_id(images, id, start) matches Some(p) && start <= p < images.len() && images[p].id == id,
    decreases images.len() - start,
{
    if images[start].id != id {
        let j = choose|j: int| start <= j < images.len() && images[j].id == id;
        assert(start + 1 <= j);
        lemma_first_image_found(images, id, start + 1);
    }
}

/// The first image with the given id, which the state holds.
fn find_image(state: &AppStateInner, id: u64) -> (j: usize)
    requires
        crate::domain::state::has_image(state@.images, id),
    ensures
        first_image_with_id(state@.images, id, 0) == Some(j as int),
        j < state.images.len(),
{
    proof {
        lemma_first_image_found(state@.images, id, 0);
    }
    let mut j: usize = 0;
    while j < state.images.len()
        invariant
            j <= state.images.len(),
            first_image_with_id(state@.images, id, 0) == first_image_with_id(state@.images, id, j as int),
            first_image_with_id(state@.images, id, 0) is Some,
        decreases state.images.len() - j,
    {
        if state.images[j].id == id {
            return j;
        }
        j = j + 1;
    }
    j
}

pub fn build_sidebar_items(state: &AppStateInner, sidebar_selected_id: Option<u64>) -> (items: Vec<SidebarItem>)
    requires
        state@.wf(),
    ensures
        items.len() == state@.nav_entries.len(),
        forall|i: int| 0 <= i < items.len() ==> is_sidebar_item(#[trigger] items@[i], state@.nav_entries[i], state@, sidebar_selected_id),
{
    let mut items: Vec<SidebarItem> = Vec::new();
    let mut i: usize = 0;
    while i < state.nav_entries.len()
        invariant
            state@.wf(),
            i <= state.nav_entries.len(),
            items.len() == i,
            forall|k: int| 0 <= k < i ==> is_sidebar_item(#[trigger] items@[k], state@.nav_entries[k], state@, sidebar_selected_id),
        decreases state.nav_entries.len() - i,
    {
        let entry = &state.nav_entries[i];
        assert(state@.nav_entries[i as int] == entry@);
        let item = match entry.kind {
            NavEntryKind::Directory => SidebarItem {
                entry_id: entry.id,
                entry_kind: owned("directory"),
                status_kind: owned("none"),
                action_tone: owned("neutral"),
                file_label: entry.label.clone(),
                selected: sidebar_selected_id == Some(entry.id),
                peer_active: false,
                is_parent_link: entry.is_parent_link,
                path_hint: entry.rel_path.clone(),
            },
            NavEntryKind::File => {
                let image_id = match entry.image_id {
                    Some(id) => id,
                    None => 0,
                };
                let j = find_image(state, image_id);
                let image = &state.images[j];
                let side = decision_side(image);
                SidebarItem {
                    entry_id: entry.id,
                    entry_kind: owned("file"),
                    status_kind: side_string(side, "none"),
                    action_tone: side_string(side, "neutral"),
                    file_label: entry.label.clone(),
                    selected: sidebar_selected_id == Some(entry.id),
                    peer_active: state.queue_focus && sidebar_selected_id != Some(entry.id)
                        && state.selected_queue_image_id == Some(image.id),
                    is_parent_link: false,
                    path_hint: entry.rel_path.clone(),
                }
            },
        };
        items.push(item);
        i = i + 1;
    }
    items
}

/// The bytes that URL encoding leaves as they are.
pub open spec fn is_unreserved_byte(b: u8) -> bool {
    (48 <= b <= 57) || (65 <= b <= 90) || (97 <= b <= 122) || b == 45 || b == 46 || b == 95 || b == 126
}

/// The upper-case hexadecimal digit of a value below 16.
pub open spec fn hex_digit(d: u8) -> char {
    if d < 10 {
        (48 + d) as char
    } else {
        (55 + d) as char
    }
}

/// Percent-encoding of bytes: unreserved bytes stay, every other byte becomes
/// `%` and two upper-case hexadecimal digits.
pub open spec fn percent_encoded(bytes: Seq<u8>) -> Seq<char>
    decreases bytes.len(),
{
    if bytes.len() == 0 {
        seq![]
    } else {
        let b = bytes[0];
        (if is_unreserved_byte(b) {
            seq![b as char]
        } else {
            seq!['%', hex_digit(b / 16), hex_digit(b % 16)]
        }) + percent_encoded(bytes.drop_first())
    }
}

/// `urlencoding::encode`: percent-encodes the UTF-8 bytes of the string,
/// keeping ASCII letters, digits and `-`, `.`, `_`, `~`.
#[verifier::external_body]
fn url_encode(s: &str) -> (res: String)
    ensures
        res@ == percent_encoded(vstd::utf8::encode_utf8(s@)),
{
    urlencoding::encode(s).into_owned()
}

/// The address the page loads an image from: its path relative to the root,
/// URL-encoded, under `/image/by-path/`.
pub open spec fn image_src_text(image: ImageEntry, root: Option<String>) -> Seq<char> {
    "/image/by-path/"@ + percent_encoded(vstd::utf8::encode_utf8(relative_to_root(image.path@, root)))
}

pub fn image_src_for(image: &ImageEntry, root_dir: &Option<String>) -> (res: String)
    ensures
        res@ == image_src_text(*image, *root_dir),
{
    let rel = file_label_for_image(image, root_dir);
    let encoded = url_encode(rel.as_str());
    let mut res = owned("/image/by-path/");
    push_all(&mut res, encoded.as_str());
    res
}

/// A card of the image stack.
#[derive(Clone, Debug)]
pub struct StackCard {
    pub image_id: u64,
    pub image_src: String,
    pub alignment: String,
    pub action_item: QueueItem,
    pub stack_index: usize,
}

/// The cards of the image stack and the cursor.
#[derive(Clone, Debug)]
pub struct ImageStackProjection {
    pub cards: Vec<StackCard>,
    pub cursor: usize,
}

/// `card` shows the image at position `pos` of the order.
pub open spec fn is_card_for(card: StackCard, m: AppModel, pos: int) -> bool {
    let image = m.images[m.order[pos] as int];
    &&& card.image_id == image.id
    &&& card.image_src@ == image_src_text(image, m.root_dir)
    &&& card.alignment@ == side_text(image.decision.spec_side(), "center"@)
    &&& is_item_for(card.action_item, image, image.decision.spec_side(), m.root_dir)
    &&& card.stack_index == pos
}

/// The positions of the order that a stack window from `start` to `end`
/// shows, both ends kept within the order: (first, count).
pub open spec fn stack_window(len: nat, start: nat, end: nat) -> (int, int) {
    if len == 0 {
        (0, 0)
    } else {
        let s = if start <= len - 1 { start as int } else { len - 1 };
        let e = if end <= len - 1 { end as int } else { len - 1 };
        if s > e { (s, 0) } else { (s, e - s + 1) }
    }
}

pub fn build_stack_cards_in_range(state: &AppStateInner, start: usize, end: usize) -> (cards: Vec<StackCard>)
    requires
        state@.wf(),
    ensures
        cards.len() == stack_window(state@.order.len(), start as nat, end as nat).1,
        forall|i: int| 0 <= i < cards.len() ==> is_card_for(#[trigger] cards@[i], state@, stack_window(state@.order.len(), start as nat, end as nat).0 + i),
{
    let mut cards: Vec<StackCard> = Vec::new();
    let len = state.order.len();
    if len == 0 {
        return cards;
    }
    let bounded_start = if start <= len - 1 { start } else { len - 1 };
    let bounded_end = if end <= len - 1 { end } else { len - 1 };
    if bounded_start > bounded_end {
        return cards;
    }
    let mut pos = bounded_start;
    while pos <= bounded_end
        invariant
            state@.wf(),
            len == state.order.len(),
            bounded_start <= pos <= bounded_end + 1,
            bounded_end < len,
            cards.len() == pos - bounded_start,
            forall|i: int| 0 <= i < cards.len() ==> is_card_for(#[trigger] cards@[i], state@, bounded_start + i),
        decreases bounded_end + 1 - pos,
    {
        let image = &state.images[state.order[pos]];
        let card = StackCard {
            image_id: image.id,
            image_src: image_src_for(image, &state.root_dir),
            alignment: image_alignment_for(image),
            action_item: queue_item_for_image(image, &state.root_dir),
            stack_index: pos,
        };
        cards.push(card);
        pos = pos + 1;
    }
    cards
}

/// The paths of the images a window of `radius` positions around the cursor
/// shows, in order.
pub fn preload_window_paths(state: &AppStateInner, radius: usize) -> (window: std::collections::VecDeque<String>)
    requires
        state@.wf(),
    ensures
        ({
            let m = state@;
            let len = m.order.len();
            let first: int = if m.cursor >= radius { m.cursor - radius } else { 0 };
            let last: int = if m.cursor + radius <= len - 1 { m.cursor + radius } else { len - 1 };
            if len == 0 {
                window@.len() == 0
            } else {
                &&& window@.len() == last - first + 1
                &&& forall|i: int| 0 <= i < window@.len() ==> (#[trigger] window@[i]) == m.images[m.order[first + i] as int].path
            }
        }),
{
    let mut window: std::collections::VecDeque<String> = std::collections::VecDeque::new();
    let len = state.order.len();
    if len == 0 {
        return window;
    }
    let start = state.cursor.saturating_sub(radius);
    let reach = state.cursor.saturating_add(radius);
    let end = if reach <= len - 1 { reach } else { len - 1 };
    let mut pos = start;
    while pos <= end
        invariant
            state@.wf(),
            len == state.order.len(),
            start <= pos <= end + 1,
            end < len,
            start <= end,
            window@.len() == pos - start,
            forall|i: int| 0 <= i < window@.len() ==> (#[trigger] window@[i]) == state@.images[state@.order[start + i] as int].path,
        decreases end + 1 - pos,
    {
        let idx = state.order[pos];
        window.push_back(state.images[idx].path.clone());
        pos = pos + 1;
    }
    window
}

/// Everything the page shows, read off the session state.
#[derive(Clone, Debug)]
pub struct AppView {
    pub directory_select_enabled: bool,
    pub active_modal: Option<ModalView>,
    pub image_stack: ImageStackProjection,
    pub sidebar_items: Vec<SidebarItem>,
    pub selected_sort_mode: String,
    pub selected_sidebar_entry: u64,
    pub sidebar_expanded: bool,
    pub queue_sidebar_visible: bool,
    pub queue_selected: bool,
    pub selected_queue_item: u64,
    pub current_image_id: u64,
    pub current_path_label: String,
    pub left_action_label: String,
    pub right_action_label: String,
    pub left_action_count: usize,
    pub right_action_count: usize,
    pub index: usize,
    pub total: usize,
    pub queue_count: usize,
    pub apply_completed: usize,
    pub apply_total: usize,
    pub apply_failed: usize,
    pub apply_errors: Vec<String>,
    pub queue_items: Vec<QueueItem>,
}

/// What the header shows for the current directory: its path relative to the
/// root (`/` for the root itself), else a note that none is selected.
pub open spec fn path_label(m: AppModel) -> Seq<char> {
    match (m.current_dir, m.root_dir) {
        (Some(current), Some(root)) => match stripped_prefix(current@, root@) {
            Some(rel) => if rel.len() == 0 {
                "/"@
            } else {
                rel
            },
            None => "No directory selected"@,
        },
        _ => "No directory selected"@,
    }
}

/// An optional id, 0 standing for none.
pub open spec fn id_or_zero(id: Option<u64>) -> u64 {
    match id {
        Some(id) => id,
        None => 0,
    }
}

/// `view` is what the page shows of the state `m`.
pub open spec fn is_view_of(view: AppView, m: AppModel, directory_select_enabled: bool) -> bool {
    let sidebar_selected = if m.queue_focus { None } else { m.selected_entry_id };
    let queue_selected = if m.queue_focus { m.selected_queue_image_id } else { None };
    let window = stack_window(m.order.len(), m.projection.stack_start as nat, m.projection.stack_end as nat);
    &&& view.directory_select_enabled == directory_select_enabled
    &&& view.active_modal == m.active_modal
    &&& view.image_stack.cursor == m.cursor
    &&& view.image_stack.cards.len() == window.1
    &&& forall|i: int|
        0 <= i < view.image_stack.cards.len() ==> is_card_for(#[trigger] view.image_stack.cards@[i], m, window.0 + i)
    &&& view.sidebar_items.len() == m.nav_entries.len()
    &&& forall|i: int|
        0 <= i < view.sidebar_items.len() ==> is_sidebar_item(
            #[trigger] view.sidebar_items@[i],
            m.nav_entries[i],
            m,
            sidebar_selected,
        )
    &&& view.selected_sort_mode@ == sort_mode_text(m.sort_mode)
    &&& view.selected_sidebar_entry == id_or_zero(m.selected_entry_id)
    &&& view.sidebar_expanded == m.sidebar_expanded
    &&& view.queue_sidebar_visible == m.queue_sidebar_visible
    &&& view.queue_selected == m.queue_is_selected()
    &&& view.selected_queue_item == id_or_zero(m.selected_queue_image_id)
    &&& view.current_image_id == id_or_zero(m.current_id())
    &&& view.current_path_label@ == path_label(m)
    &&& view.left_action_label@ == action_text(m.action_mapping.left)
    &&& view.right_action_label@ == action_text(m.action_mapping.right)
    &&& view.left_action_count == m.projection.left_action_count
    &&& view.right_action_count == m.projection.right_action_count
    &&& view.queue_count == m.projection.queue_count
    &&& view.index == m.cursor + 1
    &&& view.total == m.order.len()
    &&& match m.last_apply_result {
        Some(r) => {
            &&& view.apply_completed == r.completed
            &&& view.apply_total == r.total
            &&& view.apply_failed == r.failed
            &&& view.apply_errors@ == r.errors@
        },
        None => {
            &&& view.apply_completed == 0
            &&& view.apply_total == 0
            &&& view.apply_failed == 0
            &&& view.apply_errors@.len() == 0
        },
    }
    &&& is_queue_panel(view.queue_items@, m, queue_selected)
}

fn current_path_label(state: &AppStateInner) -> (label: String)
    ensures
        label@ == path_label(state@),
{
    match (&state.current_dir, &state.root_dir) {
        (Some(current), Some(root)) => match path_strip_prefix(current.as_str(), root.as_str()) {
            Some(rel) => if rel.as_str().unicode_len() == 0 {
                owned("/")
            } else {
                rel
            },
            None => owned("No directory selected"),
        },
        _ => owned("No directory selected"),
    }
}

fn copy_strings(items: &Vec<String>) -> (out: Vec<String>)
    ensures
        out@ == items@,
{
    let mut out: Vec<String> = Vec::new();
    let mut i: usize = 0;
    while i < items.len()
        invariant
            i <= items.len(),
            out@ == items@.take(i as int),
        decreases items.len() - i,
    {
        out.push(items[i].clone());
        assert(items@.take(i + 1) =~= items@.take(i as int).push(items@[i as int]));
        i = i + 1;
    }
    assert(items@.take(items.len() as int) =~= items@);
    out
}

/// Reads off the state everything the page shows. The row of the files
/// sidebar is marked selected unless the queue panel has the keyboard, and
/// the other way round for the row of the queue panel.
pub fn build_view(state: &AppStateInner, directory_select_enabled: bool) -> (view: AppView)
    requires
        state@.wf(),
    ensures
        is_view_of(view, state@, directory_select_enabled),
{
    let projection = state.projection();
    assert(state@.order.len() == state.order.len());
    let current_image_id = match state.current() {
        Some(image) => image.id,
        None => 0,
    };
    let sidebar_selected_id = if state.queue_focus { None } else { state.selected_entry_id };
    let queue_selected_id = if state.queue_focus { state.selected_queue_image_id } else { None };
    let queue_items = build_queue_items(state, queue_selected_id);
    let sidebar_items = build_sidebar_items(state, sidebar_selected_id);
    let image_stack = ImageStackProjection {
        cards: build_stack_cards_in_range(state, projection.stack_start, projection.stack_end),
        cursor: state.cursor,
    };
    let (apply_completed, apply_total, apply_failed, apply_errors) = match &state.last_apply_result {
        Some(r) => (r.completed, r.total, r.failed, copy_strings(&r.errors)),
        None => (0, 0, 0, Vec::new()),
    };
    AppView {
        directory_select_enabled,
        active_modal: state.active_modal,
        image_stack,
        sidebar_items,
        selected_sort_mode: sort_mode_label(state.sort_mode),
        selected_sidebar_entry: match state.selected_entry_id {
            Some(id) => id,
            None => 0,
        },
        sidebar_expanded: state.sidebar_expanded,
        queue_sidebar_visible: state.queue_sidebar_visible,
        queue_selected: state.queue_is_selected(),
        selected_queue_item: match state.selected_queue_image_id {
            Some(id) => id,
            None => 0,
        },
        current_image_id,
        current_path_label: current_path_label(state),
        left_action_label: action_config_label(&state.action_mapping.left),
        right_action_label: action_config_label(&state.action_mapping.right),
        left_action_count: projection.left_action_count,
        right_action_count: projection.right_action_count,
        index: state.cursor + 1,
        total: state.order.len(),
        queue_count: projection.queue_count,
        apply_completed,
        apply_total,
        apply_failed,
        apply_errors,
        queue_items,
    }
}

/// The counters and flags the page keeps in its signals.
#[derive(Clone, Debug)]
pub struct CounterSignals {
    pub counter_left_action: usize,
    pub counter_right_action: usize,
    pub counter_image_index: usize,
    pub counter_image_total: usize,
    pub counter_queue_count: usize,
    pub stack_cursor: usize,
    pub selected_sidebar_entry: u64,
    pub current_path: String,
    pub sidebar_expanded: bool,
    pub queue_sidebar_visible: bool,
    pub queue_selected: bool,
    pub selected_queue_item: u64,
    pub directory_select_enabled: bool,
}

/// The signals of a view; the image index reads 0 when there is no image.
pub fn counter_signals(view: &AppView) -> (s: CounterSignals)
    ensures
        s.counter_left_action == view.left_action_count,
        s.counter_right_action == view.right_action_count,
        s.counter_image_index == if view.total > 0 { view.index } else { 0 },
        s.counter_image_total == view.total,
        s.counter_queue_count == view.queue_count,
        s.stack_cursor == view.image_stack.cursor,
        s.selected_sidebar_entry == view.selected_sidebar_entry,
        s.current_path@ == view.current_path_label@,
        s.sidebar_expanded == view.sidebar_expanded,
        s.queue_sidebar_visible == view.queue_sidebar_visible,
        s.queue_selected == view.queue_selected,
        s.selected_queue_item == view.selected_queue_item,
        s.directory_select_enabled == view.directory_select_enabled,
{
    CounterSignals {
        counter_left_action: view.left_action_count,
        counter_right_action: view.right_action_count,
        counter_image_index: if view.total > 0 { view.index } else { 0 },
        counter_image_total: view.total,
        counter_queue_count: view.queue_count,
        stack_cursor: view.image_stack.cursor,
        selected_sidebar_entry: view.selected_sidebar_entry,
        current_path: view.current_path_label.clone(),
        sidebar_expanded: view.sidebar_expanded,
        queue_sidebar_visible: view.queue_sidebar_visible,
        queue_selected: view.queue_selected,
        selected_queue_item: view.selected_queue_item,
        directory_select_enabled: view.directory_select_enabled,
    }
}

/// The position among the stack cards of the card of an image, if one shows it.
pub fn card_position(stack: &ImageStackProjection, image_id: u64) -> (res: Option<usize>)
    ensures
        match res {
            Some(i) => i < stack.cards.len() && stack.cards@[i as int].image_id == image_id
                && forall|k: int| 0 <= k < i ==> (#[trigger] stack.cards@[k]).image_id != image_id,
            None => forall|k: int| 0 <= k < stack.cards.len() ==> (#[trigger] stack.cards@[k]).image_id != image_id,
        },
{
    let mut i: usize = 0;
    while i < stack.cards.len()
        invariant
            i <= stack.cards.len(),
            forall|k: int| 0 <= k < i ==> (#[trigger] stack.cards@[k]).image_id != image_id,
        decreases stack.cards.len() - i,
    {
        if stack.cards[i].image_id == image_id {
            return Some(i);
        }
        i = i + 1;
    }
    None
}

} // verus!
