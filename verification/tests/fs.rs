use piclr::domain::undo::UndoAction;
use piclr::domain::{ActionConfig, ImageMeta};
use piclr::domain::state::sort_paths;
use piclr::fs::{
    ActionPlan, FsConfig, ScanCandidate, UndoPlan, is_supported_image_path, plan_action, plan_undo,
    scan_directories, scan_images, supported_extensions,
};

fn meta(size: u64) -> Option<ImageMeta> {
    Some(ImageMeta {
        created: Some(1),
        modified: Some(2),
        size,
        orientation: None,
    })
}

fn candidate(order: usize, path: &str, is_file: bool, readable: bool, size: Option<u64>) -> ScanCandidate {
    ScanCandidate {
        order,
        path: path.to_string(),
        is_file,
        readable,
        meta: size.and_then(meta),
    }
}

#[test]
fn supported_paths_are_recognised_in_any_case() {
    assert!(is_supported_image_path("/x/a.jpg"));
    assert!(is_supported_image_path("/x/B.JPEG"));
    assert!(is_supported_image_path("/x/c.Png"));
    assert!(!is_supported_image_path("/x/notes.txt"));
    assert!(!is_supported_image_path("/x/jpg"));
    assert_eq!(supported_extensions().len(), 7);
}

#[test]
fn scan_keeps_readable_images_numbered_from_one() {
    let images = scan_images(vec![
        candidate(0, "/d", false, true, None),
        candidate(1, "/d/a.jpg", true, true, Some(5)),
        candidate(2, "/d/readme.md", true, true, Some(1)),
        candidate(3, "/d/b.png", true, false, Some(6)),
        candidate(4, "/d/c.gif", true, true, None),
        candidate(5, "/d/e.webp", true, true, Some(7)),
    ]);
    assert_eq!(images.len(), 2);
    assert_eq!(images[0].id, 1);
    assert_eq!(images[0].path, "/d/a.jpg");
    assert_eq!(images[0].original_order, 1);
    assert_eq!(images[0].meta.size, 5);
    assert_eq!(images[1].id, 2);
    assert_eq!(images[1].path, "/d/e.webp");
    assert_eq!(images[1].original_order, 5);
    assert!(images.iter().all(|e| e.decision.is_undecided() && e.queued_action.is_none()));
}

#[test]
fn scan_lists_subdirectories_relative_and_sorted() {
    let dirs = scan_directories(
        vec![
            ("/r/sub".to_string(), true),
            ("/r/sub/zeta".to_string(), true),
            ("/r/sub".to_string(), true),
            ("/r/sub/a.jpg".to_string(), false),
            ("/r/sub/alpha".to_string(), true),
            ("/elsewhere/x".to_string(), true),
        ],
        "/r/sub",
        "/r",
    );
    assert_eq!(dirs, vec!["sub/alpha".to_string(), "sub/zeta".to_string()]);
}

#[test]
fn planning_each_action() {
    let trash = FsConfig::new("/root".to_string(), false);
    let destructive = FsConfig::new("/root".to_string(), true);
    let path = "/root/in/a.jpg".to_string();

    assert!(matches!(plan_action(&trash, &path, &ActionConfig::Keep, None), ActionPlan::Nothing));
    match plan_action(&destructive, &path, &ActionConfig::Delete, None) {
        ActionPlan::RemoveFile { path: p } => assert_eq!(p, path),
        other => panic!("unexpected {other:?}"),
    }
    match plan_action(&trash, &path, &ActionConfig::Delete, None) {
        ActionPlan::MoveInto { dir, from, to, undo } => {
            assert_eq!(dir, "/root/trash");
            assert_eq!(from, path);
            assert_eq!(to, "/root/trash/a.jpg");
            assert!(matches!(undo, UndoAction::Trash { ref original, ref trashed }
                if original == &path && trashed == "/root/trash/a.jpg"));
        }
        other => panic!("unexpected {other:?}"),
    }
    match plan_action(&trash, &path, &ActionConfig::Move { target: "keep".to_string() }, None) {
        ActionPlan::MoveInto { dir, to, .. } => {
            assert_eq!(dir, "/root/keep");
            assert_eq!(to, "/root/keep/a.jpg");
        }
        other => panic!("unexpected {other:?}"),
    }
    match plan_action(&trash, &path, &ActionConfig::Move { target: "/abs/out".to_string() }, None) {
        ActionPlan::MoveInto { dir, to, .. } => {
            assert_eq!(dir, "/abs/out");
            assert_eq!(to, "/abs/out/a.jpg");
        }
        other => panic!("unexpected {other:?}"),
    }
    match plan_action(&trash, &path, &ActionConfig::Rename { prefix: "img".to_string() }, Some(42)) {
        ActionPlan::RenameTo { from, to, .. } => {
            assert_eq!(from, path);
            assert_eq!(to, "/root/in/img000042.jpg");
        }
        other => panic!("unexpected {other:?}"),
    }
    match plan_action(&trash, &"/root/noext".to_string(), &ActionConfig::Rename { prefix: "p".to_string() }, None) {
        ActionPlan::RenameTo { to, .. } => assert_eq!(to, "/root/p000000"),
        other => panic!("unexpected {other:?}"),
    }
    match plan_action(
        &trash,
        &path,
        &ActionConfig::MetadataEdit {
            key: "Exif.Image.Orientation".to_string(),
            value: "1".to_string(),
        },
        None,
    ) {
        ActionPlan::EditMetadata { path: p, key, value } => {
            assert_eq!(p, path);
            assert_eq!(key, "Exif.Image.Orientation");
            assert_eq!(value, "1");
        }
        other => panic!("unexpected {other:?}"),
    }
}

#[test]
fn planning_each_reversal() {
    match plan_undo(&UndoAction::Move {
        from: "/root/keep/a.jpg".to_string(),
        to: "/root/in/a.jpg".to_string(),
    }) {
        UndoPlan::RenameBack { create_dir, from, to } => {
            assert_eq!(create_dir, Some("/root/in".to_string()));
            assert_eq!(from, "/root/keep/a.jpg");
            assert_eq!(to, "/root/in/a.jpg");
        }
        other => panic!("unexpected {other:?}"),
    }
    match plan_undo(&UndoAction::Trash {
        original: "/root/in/a.jpg".to_string(),
        trashed: "/root/trash/a.jpg".to_string(),
    }) {
        UndoPlan::RenameBack { create_dir, from, to } => {
            assert_eq!(create_dir, Some("/root/in".to_string()));
            assert_eq!(from, "/root/trash/a.jpg");
            assert_eq!(to, "/root/in/a.jpg");
        }
        other => panic!("unexpected {other:?}"),
    }
    assert!(matches!(
        plan_undo(&UndoAction::Rename { from: "b".to_string(), to: "a".to_string() }),
        UndoPlan::RenameBack { create_dir: None, .. }
    ));
    assert!(matches!(
        plan_undo(&UndoAction::Metadata { path: "a".to_string(), key: "k".to_string(), previous: None }),
        UndoPlan::Nothing
    ));
    match plan_undo(&UndoAction::Metadata {
        path: "a".to_string(),
        key: "k".to_string(),
        previous: Some("v".to_string()),
    }) {
        UndoPlan::EditMetadata { value, .. } => assert_eq!(value, "v"),
        other => panic!("unexpected {other:?}"),
    }
}

#[test]
fn equal_paths_keep_their_order_when_sorted() {
    let sorted = sort_paths(vec![
        "b".to_string(),
        "a/c".to_string(),
        "a".to_string(),
        "a//c".to_string(),
    ]);
    assert_eq!(sorted, vec!["a", "a/c", "a//c", "b"]);
    let sorted = sort_paths(vec!["a//c".to_string(), "a/c".to_string()]);
    assert_eq!(sorted, vec!["a//c", "a/c"]);
}
