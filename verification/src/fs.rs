//! What the filesystem side of the application decides: which files are
//! images, which entries a scan keeps, and which filesystem steps carry out
//! (or reverse) an action. The steps themselves run outside the library.
use vstd::prelude::*;

use crate::domain::actions::{ActionConfig, DecisionState};
use crate::domain::state::{ImageEntry, ImageMeta, is_path_sort, sort_paths};
use crate::domain::undo::UndoAction;
use crate::paths::{
    extension_of, file_name_of, is_absolute_path, joined_path, opt_text, parent_of, path_eq, path_extension,
    path_file_name, path_is_absolute, path_join, path_parent, path_strip_prefix, path_with_file_name, same_path,
    stripped_prefix, with_file_name_of,
};
use crate::text::{lowercased, owned, push_all, same_text, to_lowercase, zero_padded, zero_padded_string};

verus! {

#[derive(Clone, Debug)]
pub struct FsConfig {
    pub root_dir: String,
    pub destructive_delete: bool,
}

impl FsConfig {
    pub fn new(root_dir: String, destructive_delete: bool) -> (res: Self)
        ensures
            res.root_dir == root_dir,
            res.destructive_delete == destructive_delete,
    {
        FsConfig { root_dir, destructive_delete }
    }
}

/// The lower-case extensions of the image formats the application shows.
pub open spec fn is_supported_extension(ext: Seq<char>) -> bool {
    ||| ext == "jpg"@
    ||| ext == "jpeg"@
    ||| ext == "png"@
    ||| ext == "gif"@
    ||| ext == "webp"@
    ||| ext == "heic"@
    ||| ext == "svg"@
}

/// A path names an image: its extension, in lower case, is a supported one.
pub open spec fn is_image_path(path: Seq<char>) -> bool {
    extension_of(path) matches Some(ext) && is_supported_extension(lowercased(ext))
}

/// The supported extensions, in lower case.
pub fn supported_extensions() -> (res: Vec<&'static str>)
    ensures
        forall|ext: Seq<char>| is_supported_extension(ext) <==> exists|i: int| 0 <= i < res.len() && res@[i]@ == ext,
{
    let res = vec!["jpg", "jpeg", "png", "gif", "webp", "heic", "svg"];
    assert forall|ext: Seq<char>| is_supported_extension(ext) implies exists|i: int| 0 <= i < res.len() && res@[i]@ == ext by {
        if ext == "jpg"@ { assert(res@[0]@ == ext); }
        else if ext == "jpeg"@ { assert(res@[1]@ == ext); }
        else if ext == "png"@ { assert(res@[2]@ == ext); }
        else if ext == "gif"@ { assert(res@[3]@ == ext); }
        else if ext == "webp"@ { assert(res@[4]@ == ext); }
        else if ext == "heic"@ { assert(res@[5]@ == ext); }
        else { assert(res@[6]@ == ext); }
    }
    res
}

/// Whether `ext` is one of `extensions`.
fn is_one_of(ext: &str, extensions: &Vec<&'static str>) -> (res: bool)
    ensures
        res == exists|i: int| 0 <= i < extensions.len() && extensions@[i]@ == ext@,
{
    let mut i: usize = 0;
    while i < extensions.len()
        invariant
            i <= extensions.len(),
            forall|k: int| 0 <= k < i ==> extensions@[k]@ != ext@,
        decreases extensions.len() - i,
    {
        if same_text(extensions[i], ext) {
            return true;
        }
        i = i + 1;
    }
    false
}

fn is_supported(path: &str, extensions: &Vec<&'static str>) -> (res: bool)
    requires
        forall|ext: Seq<char>| is_supported_extension(ext) <==> exists|i: int| 0 <= i < extensions.len() && extensions@[i]@ == ext,
    ensures
        res == is_image_path(path@),
{
    match path_extension(path) {
        Some(ext) => {
            let lower = to_lowercase(ext.as_str());
            is_one_of(lower.as_str(), extensions)
        },
        None => false,
    }
}

/// Whether the path names an image the application shows.
pub fn is_supported_image_path(path: &str) -> (res: bool)
    ensures
        res == is_image_path(path@),
{
    is_supported(path, &supported_extensions())
}

/// What a directory walk learned of one entry. `order` is the entry's place
/// in the walk; `readable` and `meta` are only consulted for image files.
#[derive(Clone, Debug)]
pub struct ScanCandidate {
    pub order: usize,
    pub path: String,
    pub is_file: bool,
    pub readable: bool,
    pub meta: Option<ImageMeta>,
}

/// A scan keeps the readable image files whose metadata could be read.
pub open spec fn is_kept(c: ScanCandidate) -> bool {
    c.is_file && is_image_path(c.path@) && c.readable && c.meta is Some
}

/// The images a scan lists: the kept candidates in walk order, numbered from
/// `first_id` on, undecided and unqueued.
pub open spec fn scanned(candidates: Seq<ScanCandidate>, first_id: nat) -> Seq<ImageEntry>
    decreases candidates.len(),
{
    if candidates.len() == 0 {
        Seq::empty()
    } else {
        let rest = scanned(candidates.drop_last(), first_id);
        let c = candidates.last();
        if is_kept(c) {
            rest.push(
                ImageEntry {
                    id: (first_id + rest.len()) as u64,
                    path: c.path,
                    original_order: c.order,
                    decision: DecisionState::Undecided,
                    queued_action: None,
                    rename_sequence: None,
                    meta: c.meta->0,
                },
            )
        } else {
            rest
        }
    }
}

proof fn lemma_scanned_len(candidates: Seq<ScanCandidate>, first_id: nat)
    ensures
        scanned(candidates, first_id).len() <= candidates.len(),
    decreases candidates.len(),
{
    if candidates.len() > 0 {
        lemma_scanned_len(candidates.drop_last(), first_id);
    }
}

/// The images of a directory walk, numbered from 1 in walk order.
pub fn scan_images(candidates: Vec<ScanCandidate>) -> (images: Vec<ImageEntry>)
    requires
        candidates.len() < u64::MAX,
    ensures
        images@ == scanned(candidates@, 1),
{
    let mut images: Vec<ImageEntry> = Vec::new();
    let mut id_counter: u64 = 1;
    let extensions = supported_extensions();
    let mut i: usize = 0;
    while i < candidates.len()
        invariant
            i <= candidates.len(),
            candidates.len() < u64::MAX,
            forall|ext: Seq<char>| is_supported_extension(ext) <==> exists|k: int| 0 <= k < extensions.len() && extensions@[k]@ == ext,
            images@ == scanned(candidates@.take(i as int), 1),
            id_counter == 1 + images.len(),
            images.len() <= i,
        decreases candidates.len() - i,
    {
        assert(candidates@.take(i + 1).drop_last() =~= candidates@.take(i as int));
        let c = &candidates[i];
        if c.is_file && is_supported(c.path.as_str(), &extensions) && c.readable {
            match c.meta {
                Some(meta) => {
                    images.push(ImageEntry {
                        id: id_counter,
                        path: c.path.clone(),
                        original_order: c.order,
                        decision: DecisionState::Undecided,
                        queued_action: None,
                        rename_sequence: None,
                        meta,
                    });
                    id_counter = id_counter + 1;
                },
                None => {},
            }
        }
        i = i + 1;
    }
    assert(candidates@.take(candidates.len() as int) =~= candidates@);
    images
}

/// The subdirectories a walk of `root` found, relative to `launch_root`: the
/// directory entries other than `root` itself that lie within `launch_root`.
pub open spec fn directory_paths(entries: Seq<(String, bool)>, root: Seq<char>, launch_root: Seq<char>) -> Seq<Seq<char>>
    decreases entries.len(),
{
    if entries.len() == 0 {
        Seq::empty()
    } else {
        let rest = directory_paths(entries.drop_last(), root, launch_root);
        let (path, is_dir) = entries.last();
        if is_dir && !same_path(path@, root) && stripped_prefix(path@, launch_root) is Some {
            rest.push(stripped_prefix(path@, launch_root)->0)
        } else {
            rest
        }
    }
}

/// The characters of each path.
pub open spec fn texts(paths: Seq<String>) -> Seq<Seq<char>> {
    paths.map_values(|p: String| p@)
}

/// The subdirectories of a walk (entries as path and whether it is a
/// directory), relative to `launch_root`, sorted as paths.
pub fn scan_directories(entries: Vec<(String, bool)>, root: &str, launch_root: &str) -> (dirs: Vec<String>)
    ensures
        exists|found: Seq<String>| {
            &&& is_path_sort(dirs@, found)
            &&& texts(found) == directory_paths(entries@, root@, launch_root@)
        },
{
    let mut found: Vec<String> = Vec::new();
    let mut i: usize = 0;
    while i < entries.len()
        invariant
            i <= entries.len(),
            texts(found@) == directory_paths(entries@.take(i as int), root@, launch_root@),
        decreases entries.len() - i,
    {
        assert(entries@.take(i + 1).drop_last() =~= entries@.take(i as int));
        let (path, is_dir) = &entries[i];
        if *is_dir && !path_eq(path.as_str(), root) {
            match path_strip_prefix(path.as_str(), launch_root) {
                Some(rel) => {
                    let ghost before = found@;
                    found.push(rel);
                    assert(texts(found@) =~= texts(before).push(found@.last()@));
                },
                None => {},
            }
        }
        i = i + 1;
    }
    assert(entries@.take(entries.len() as int) =~= entries@);
    let ghost found_paths = found@;
    let dirs = sort_paths(found);
    assert(is_path_sort(dirs@, found_paths));
    dirs
}

/// The filesystem steps that carry out an action.
#[derive(Clone, Debug)]
pub enum ActionPlan {
    /// The file stays as it is.
    Nothing,
    /// Delete the file for good.
    RemoveFile { path: String },
    /// Create `dir` (and its parents), then rename `from` to `to`.
    MoveInto { dir: String, from: String, to: String, undo: UndoAction },
    /// Rename `from` to `to` in place.
    RenameTo { from: String, to: String, undo: UndoAction },
    /// Set a metadata tag of the file; its former value makes the undo step.
    EditMetadata { path: String, key: String, value: String },
}

/// The last component of a path, or nothing.
pub open spec fn name_or_empty(path: Seq<char>) -> Seq<char> {
    match file_name_of(path) {
        Some(n) => n,
        None => Seq::empty(),
    }
}

/// The file name a rename gives: the prefix, the number in at least six
/// digits, and the old extension when there is one.
pub open spec fn renamed_file_name(prefix: Seq<char>, sequence: nat, path: Seq<char>) -> Seq<char> {
    let base = prefix + zero_padded(sequence, 6);
    match extension_of(path) {
        Some(ext) => if ext.len() == 0 { base } else { base + "."@ + ext },
        None => base,
    }
}

/// `plan` creates `dir`, then moves `from` to `to`.
pub open spec fn is_move_into(plan: ActionPlan, dir: Seq<char>, from: String, to: Seq<char>) -> bool {
    match plan {
        ActionPlan::MoveInto { dir: d, from: f, to: t, .. } => d@ == dir && f == from && t@ == to,
        _ => false,
    }
}

/// `plan` renames `from` to `to` in place.
pub open spec fn is_rename_to(plan: ActionPlan, from: String, to: Seq<char>) -> bool {
    match plan {
        ActionPlan::RenameTo { from: f, to: t, .. } => f == from && t@ == to,
        _ => false,
    }
}

/// The undo step that comes with a move or a rename.
pub open spec fn undo_of(plan: ActionPlan) -> Option<UndoAction> {
    match plan {
        ActionPlan::MoveInto { undo, .. } => Some(undo),
        ActionPlan::RenameTo { undo, .. } => Some(undo),
        _ => None,
    }
}

/// A step that moves the file back out of the trash.
pub open spec fn is_trash_undo(u: Option<UndoAction>, original: Seq<char>, trashed: Seq<char>) -> bool {
    match u {
        Some(UndoAction::Trash { original: o, trashed: t }) => o@ == original && t@ == trashed,
        _ => false,
    }
}

/// A step that moves the file back from `from` to `to`.
pub open spec fn is_move_undo(u: Option<UndoAction>, from: Seq<char>, to: Seq<char>) -> bool {
    match u {
        Some(UndoAction::Move { from: f, to: t }) => f@ == from && t@ == to,
        _ => false,
    }
}

/// A step that renames the file back from `from` to `to`.
pub open spec fn is_rename_undo(u: Option<UndoAction>, from: Seq<char>, to: Seq<char>) -> bool {
    match u {
        Some(UndoAction::Rename { from: f, to: t }) => f@ == from && t@ == to,
        _ => false,
    }
}

/// The file name a rename gives the file at `path`.
fn renamed_name(prefix: &str, sequence: u64, path: &str) -> (name: String)
    ensures
        name@ == renamed_file_name(prefix@, sequence as nat, path@),
{
    let mut base = owned(prefix);
    let digits = zero_padded_string(sequence, 6);
    push_all(&mut base, digits.as_str());
    match path_extension(path) {
        Some(ext) => {
            if ext.as_str().unicode_len() == 0 {
                base
            } else {
                push_all(&mut base, ".");
                push_all(&mut base, ext.as_str());
                base
            }
        },
        None => base,
    }
}

/// `plan` is what carrying out `action` on the file at `path` takes.
pub open spec fn planned(config: FsConfig, path: String, action: ActionConfig, rename_sequence: Option<u64>, plan: ActionPlan) -> bool {
    match action {
        ActionConfig::Keep => plan is Nothing,
        ActionConfig::Delete => if config.destructive_delete {
            plan == (ActionPlan::RemoveFile { path: path })
        } else {
            let trash = joined_path(config.root_dir@, "trash"@);
            let target = joined_path(trash, name_or_empty(path@));
            is_move_into(plan, trash, path, target) && is_trash_undo(undo_of(plan), path@, target)
        },
        ActionConfig::Move { target } => {
            let dir = if is_absolute_path(target@) { target@ } else { joined_path(config.root_dir@, target@) };
            let destination = joined_path(dir, name_or_empty(path@));
            is_move_into(plan, dir, path, destination) && is_move_undo(undo_of(plan), destination, path@)
        },
        ActionConfig::Rename { prefix } => {
            let sequence: nat = match rename_sequence { Some(n) => n as nat, None => 0 };
            let destination = with_file_name_of(path@, renamed_file_name(prefix@, sequence, path@));
            is_rename_to(plan, path, destination) && is_rename_undo(undo_of(plan), destination, path@)
        },
        ActionConfig::MetadataEdit { key, value } => plan == (ActionPlan::EditMetadata {
            path: path,
            key,
            value,
        }),
    }
}

/// The steps that carry out `action` on the file at `path`: delete it (or move
/// it to the trash under the root), move it into a directory, rename it with
/// its rename number, or edit its metadata. Each move or rename comes with the
/// step that reverses it.
pub fn plan_action(config: &FsConfig, path: &String, action: &ActionConfig, rename_sequence: Option<u64>) -> (plan: ActionPlan)
    ensures
        planned(*config, *path, *action, rename_sequence, plan),
{
    match action {
        ActionConfig::Keep => ActionPlan::Nothing,
        ActionConfig::Delete => {
            if config.destructive_delete {
                ActionPlan::RemoveFile { path: path.clone() }
            } else {
                let trash_dir = path_join(config.root_dir.as_str(), "trash");
                let file_name = match path_file_name(path.as_str()) {
                    Some(name) => name,
                    None => String::new(),
                };
                let target = path_join(trash_dir.as_str(), file_name.as_str());
                ActionPlan::MoveInto {
                    dir: trash_dir,
                    from: path.clone(),
                    to: target.clone(),
                    undo: UndoAction::Trash { original: path.clone(), trashed: target },
                }
            }
        },
        ActionConfig::Move { target } => {
            let target_path = if path_is_absolute(target.as_str()) {
                target.clone()
            } else {
                path_join(config.root_dir.as_str(), target.as_str())
            };
            let file_name = match path_file_name(path.as_str()) {
                Some(name) => name,
                None => String::new(),
            };
            let destination = path_join(target_path.as_str(), file_name.as_str());
            ActionPlan::MoveInto {
                dir: target_path,
                from: path.clone(),
                to: destination.clone(),
                undo: UndoAction::Move { from: destination, to: path.clone() },
            }
        },
        ActionConfig::Rename { prefix } => {
            let sequence = match rename_sequence {
                Some(n) => n,
                None => 0,
            };
            let new_name = renamed_name(prefix.as_str(), sequence, path.as_str());
            let destination = path_with_file_name(path.as_str(), new_name.as_str());
            ActionPlan::RenameTo {
                from: path.clone(),
                to: destination.clone(),
                undo: UndoAction::Rename { from: destination, to: path.clone() },
            }
        },
        ActionConfig::MetadataEdit { key, value } => ActionPlan::EditMetadata {
            path: path.clone(),
            key: key.clone(),
            value: value.clone(),
        },
    }
}

/// The filesystem steps that reverse an applied action.
#[derive(Clone, Debug)]
pub enum UndoPlan {
    Nothing,
    /// Create `create_dir` (and its parents) when given, then rename `from` to `to`.
    RenameBack { create_dir: Option<String>, from: String, to: String },
    /// Set the metadata tag back to its former value.
    EditMetadata { path: String, key: String, value: String },
}

/// `plan` re-creates `dir` (when there is one) and renames `from` back to `to`.
pub open spec fn is_rename_back(plan: UndoPlan, dir: Option<Seq<char>>, from: String, to: String) -> bool {
    match plan {
        UndoPlan::RenameBack { create_dir, from: f, to: t } => opt_text(create_dir) == dir && f == from && t == to,
        _ => false,
    }
}

/// `plan` is the reversal of the undo step `action`.
pub open spec fn reverses(action: UndoAction, plan: UndoPlan) -> bool {
    match action {
        UndoAction::Move { from, to } => is_rename_back(plan, parent_of(to@), from, to),
        UndoAction::Rename { from, to } => plan == (UndoPlan::RenameBack { create_dir: None, from, to }),
        UndoAction::Trash { original, trashed } => is_rename_back(plan, parent_of(original@), trashed, original),
        UndoAction::Metadata { path, key, previous } => match previous {
            Some(value) => plan == (UndoPlan::EditMetadata { path, key, value }),
            None => plan is Nothing,
        },
    }
}

/// The steps that reverse an applied action: a move or trashing renames the
/// file back (re-creating its former directory), a rename renames it back, a
/// metadata edit restores the former value when there was one.
pub fn plan_undo(action: &UndoAction) -> (plan: UndoPlan)
    ensures
        reverses(*action, plan),
{
    match action {
        UndoAction::Move { from, to } => UndoPlan::RenameBack {
            create_dir: path_parent(to.as_str()),
            from: from.clone(),
            to: to.clone(),
        },
        UndoAction::Rename { from, to } => UndoPlan::RenameBack { create_dir: None, from: from.clone(), to: to.clone() },
        UndoAction::Trash { original, trashed } => UndoPlan::RenameBack {
            create_dir: path_parent(original.as_str()),
            from: trashed.clone(),
            to: original.clone(),
        },
        UndoAction::Metadata { path, key, previous } => match previous {
            Some(value) => UndoPlan::EditMetadata { path: path.clone(), key: key.clone(), value: value.clone() },
            None => UndoPlan::Nothing,
        },
    }
}

/// The file that a move or a rename takes away and where it puts it.
pub open spec fn moved(plan: ActionPlan) -> Option<(Seq<char>, Seq<char>)> {
    match plan {
        ActionPlan::MoveInto { from, to, .. } => Some((from@, to@)),
        ActionPlan::RenameTo { from, to, .. } => Some((from@, to@)),
        _ => None,
    }
}

/// The file that reversing puts back and where it puts it.
pub open spec fn renamed_back(plan: UndoPlan) -> Option<(Seq<char>, Seq<char>)> {
    match plan {
        UndoPlan::RenameBack { from, to, .. } => Some((from@, to@)),
        _ => None,
    }
}

/// Undoing an applied action puts the file back: whenever carrying out an
/// action moves or renames the file (to the trash, into a directory, to its
/// numbered name), the reversal of the undo step that comes with it renames
/// the file from where it went back to its former path.
pub proof fn law_undo_puts_file_back(
    config: FsConfig,
    path: String,
    action: ActionConfig,
    rename_sequence: Option<u64>,
    plan: ActionPlan,
    undo_plan: UndoPlan,
)
    requires
        planned(config, path, action, rename_sequence, plan),
        undo_of(plan) matches Some(u) && reverses(u, undo_plan),
    ensures
        moved(plan) matches Some(m) && m.0 == path@ && renamed_back(undo_plan) == Some((m.1, m.0)),
{
}

/// The image formats are exactly JPEG (`jpg`, `jpeg`), PNG, GIF, WebP, HEIC
/// and SVG, whatever the case of the extension: a path is an image path
/// exactly when its extension, lower-cased, is one of those seven; `bmp`, for
/// one, is not.
pub proof fn law_supported_formats(path: Seq<char>)
    ensures
        forall|ext: Seq<char>|
            is_supported_extension(ext) <==> (ext == "jpg"@ || ext == "jpeg"@ || ext == "png"@ || ext == "gif"@
                || ext == "webp"@ || ext == "heic"@ || ext == "svg"@),
        is_image_path(path) <==> (extension_of(path) matches Some(ext) && {
            let e = lowercased(ext);
            e == "jpg"@ || e == "jpeg"@ || e == "png"@ || e == "gif"@ || e == "webp"@ || e == "heic"@ || e == "svg"@
        }),
        !is_supported_extension("bmp"@),
        is_supported_extension("gif"@),
{
    reveal_strlit("jpg");
    reveal_strlit("jpeg");
    reveal_strlit("png");
    reveal_strlit("gif");
    reveal_strlit("webp");
    reveal_strlit("heic");
    reveal_strlit("svg");
    reveal_strlit("bmp");
    assert("bmp"@[0] != "jpg"@[0]);
    assert("bmp"@[0] != "jpeg"@[0]);
    assert("bmp"@[0] != "png"@[0]);
    assert("bmp"@[0] != "gif"@[0]);
    assert("bmp"@[0] != "webp"@[0]);
    assert("bmp"@[0] != "heic"@[0]);
    assert("bmp"@[0] != "svg"@[0]);
}

/// What a scan lists: the readable files with a supported image extension and
/// readable metadata, every one of them, in walk order, numbered 1, 2, 3, ...
/// and carrying the candidate's path, walk position and metadata, with no
/// decision, queued action or rename number. The result gives, for each
/// listed image, the position of its candidate.
pub proof fn law_scan_lists_image_files(candidates: Seq<ScanCandidate>) -> (from: Seq<int>)
    requires
        candidates.len() < u64::MAX,
    ensures
        ({
            let images = scanned(candidates, 1);
            &&& from.len() == images.len()
            &&& images.len() <= candidates.len()
            &&& forall|i: int| 0 <= i < images.len() ==> {
                let c = candidates[#[trigger] from[i]];
                &&& 0 <= from[i] < candidates.len()
                &&& images[i].id == i + 1
                &&& c.is_file && c.readable && is_image_path(c.path@)
                &&& c.meta == Some(images[i].meta)
                &&& images[i].path == c.path
                &&& images[i].original_order == c.order
                &&& images[i].decision is Undecided
                &&& images[i].queued_action is None
                &&& images[i].rename_sequence is None
            }
            &&& forall|i: int, j: int| 0 <= i < j < from.len() ==> from[i] < from[j]
            &&& forall|k: int|
                0 <= k < candidates.len() && (#[trigger] candidates[k]).is_file && candidates[k].readable
                    && candidates[k].meta is Some && is_image_path(candidates[k].path@) ==> exists|i: int|
                    0 <= i < from.len() && from[i] == k
        }),
    decreases candidates.len(),
{
    if candidates.len() == 0 {
        Seq::empty()
    } else {
        let front = candidates.drop_last();
        let rest = law_scan_lists_image_files(front);
        let n = candidates.len() - 1;
        let c = candidates[n];
        let from = if is_kept(c) { rest.push(n) } else { rest };
        let images = scanned(candidates, 1);
        let before = scanned(front, 1);
        assert(candidates.last() == c);
        assert forall|i: int| 0 <= i < rest.len() implies candidates[#[trigger] rest[i]] == front[rest[i]] by {}
        assert forall|i: int| 0 <= i < images.len() implies {
            let c = candidates[#[trigger] from[i]];
            &&& 0 <= from[i] < candidates.len()
            &&& images[i].id == i + 1
            &&& c.is_file && c.readable && is_image_path(c.path@)
            &&& c.meta == Some(images[i].meta)
            &&& images[i].path == c.path
            &&& images[i].original_order == c.order
            &&& images[i].decision is Undecided
            &&& images[i].queued_action is None
            &&& images[i].rename_sequence is None
        } by {
            if i < before.len() {
                assert(from[i] == rest[i]);
                assert(images[i] == before[i]);
                assert(candidates[rest[i]] == front[rest[i]]);
            } else {
                assert(is_kept(c));
                assert(from[i] == n);
            }
        }
        assert forall|k: int|
            0 <= k < candidates.len() && (#[trigger] candidates[k]).is_file && candidates[k].readable
                && candidates[k].meta is Some && is_image_path(candidates[k].path@) implies exists|i: int|
                0 <= i < from.len() && from[i] == k by {
            if k < n {
                assert(front[k] == candidates[k]);
                let i = choose|i: int| 0 <= i < rest.len() && rest[i] == k;
                assert(from[i] == k);
            } else {
                assert(from[from.len() - 1] == k);
            }
        }
        from
    }
}

} // verus!
