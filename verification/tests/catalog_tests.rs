use tauview::catalog::{build_catalog, Catalog, DirChild, Entry};
use tauview::classify::ImageKind;
use tauview::gateway::{apply_trash_result, TrashError, TrashUpdate};

fn png_bytes() -> Vec<u8> {
    vec![0x89, 0x50, 0x4E, 0x47, 0x0D, 0x0A, 0x1A, 0x0A, 0x00, 0x00, 0x00, 0x0D]
}

fn jpeg_bytes() -> Vec<u8> {
    vec![0xFF, 0xD8, 0xFF, 0xE0, 0x00, 0x10]
}

fn file(dir: &str, name: &str, content: Vec<u8>) -> DirChild {
    DirChild {
        name: name.as_bytes().to_vec(),
        path: format!("{}/{}", dir, name).into_bytes(),
        is_dir: false,
        content: Some(content),
    }
}

fn subdir(dir: &str, name: &str) -> DirChild {
    DirChild {
        name: name.as_bytes().to_vec(),
        path: format!("{}/{}", dir, name).into_bytes(),
        is_dir: true,
        content: None,
    }
}

fn unreadable(dir: &str, name: &str) -> DirChild {
    DirChild {
        name: name.as_bytes().to_vec(),
        path: format!("{}/{}", dir, name).into_bytes(),
        is_dir: false,
        content: None,
    }
}

fn names(c: &Catalog) -> Vec<String> {
    let mut out = Vec::new();
    for i in 0..c.len() {
        out.push(String::from_utf8(c.get(i).name.clone()).unwrap());
    }
    out
}

#[test]
fn end_to_end_byte_order_and_exclusion() {
    // B.PNG holds a valid PNG despite the case mismatch in its name; it
    // sorts first because 'B' (0x42) precedes 'a' (0x61) byte-wise.
    let children = vec![
        file("/pics", "a.png", png_bytes()),
        file("/pics", "b.txt", b"just text".to_vec()),
        file("/pics", "c.jpg", jpeg_bytes()),
        file("/pics", "B.PNG", png_bytes()),
    ];
    let catalog = build_catalog(&children);
    assert_eq!(names(&catalog), vec!["B.PNG", "a.png", "c.jpg"]);
    assert_eq!(catalog.get(0).kind, ImageKind::Png);
    assert_eq!(catalog.get(1).kind, ImageKind::Png);
    assert_eq!(catalog.get(2).kind, ImageKind::Jpeg);
}

#[test]
fn excludes_subdirectories_and_unreadable_files() {
    let children = vec![
        subdir("/pics", "nested"),
        file("/pics", "ok.gif", b"GIF89a\x01\x00".to_vec()),
        unreadable("/pics", "locked.png"),
    ];
    let catalog = build_catalog(&children);
    assert_eq!(names(&catalog), vec!["ok.gif"]);
}

#[test]
fn empty_listing_gives_empty_catalog() {
    let catalog = build_catalog(&Vec::new());
    assert_eq!(catalog.len(), 0);
}

#[test]
fn listing_without_images_gives_empty_catalog() {
    let children = vec![
        file("/docs", "notes.txt", b"words".to_vec()),
        subdir("/docs", "archive"),
    ];
    let catalog = build_catalog(&children);
    assert_eq!(catalog.len(), 0);
}

#[test]
fn rebuild_of_unchanged_listing_is_identical() {
    let children = vec![
        file("/pics", "z.png", png_bytes()),
        file("/pics", "a.jpg", jpeg_bytes()),
        file("/pics", "m.gif", b"GIF87a\x01\x00".to_vec()),
    ];
    let first = build_catalog(&children);
    let second = build_catalog(&children);
    assert_eq!(names(&first), names(&second));
    assert_eq!(first.len(), second.len());
    for i in 0..first.len() {
        assert_eq!(first.get(i).path, second.get(i).path);
        assert_eq!(first.get(i).kind, second.get(i).kind);
    }
}

#[test]
fn next_prev_round_trip_from_interior_index() {
    let children = vec![
        file("/pics", "a.png", png_bytes()),
        file("/pics", "b.png", png_bytes()),
        file("/pics", "c.png", png_bytes()),
    ];
    let catalog = build_catalog(&children);
    let next = catalog.next(1).unwrap();
    assert_eq!(next, 2);
    assert_eq!(catalog.prev(next), Some(1));
    let forward = catalog.next(0).unwrap();
    assert_eq!(catalog.prev(forward), Some(0));
}

#[test]
fn navigation_does_not_wrap() {
    let children = vec![
        file("/pics", "a.png", png_bytes()),
        file("/pics", "b.png", png_bytes()),
    ];
    let catalog = build_catalog(&children);
    assert_eq!(catalog.next(1), None);
    assert_eq!(catalog.prev(0), None);
}

#[test]
fn index_of_finds_current_entry_and_reports_vanished_paths() {
    let children = vec![
        file("/pics", "a.png", png_bytes()),
        file("/pics", "b.png", png_bytes()),
    ];
    let catalog = build_catalog(&children);
    assert_eq!(catalog.index_of(&b"/pics/b.png".to_vec()), Some(1));
    assert_eq!(catalog.index_of(&b"/pics/gone.png".to_vec()), None);
}

#[test]
fn remove_drops_the_path_and_suggests_the_successor() {
    let children = vec![
        file("/pics", "a.png", png_bytes()),
        file("/pics", "b.png", png_bytes()),
        file("/pics", "c.png", png_bytes()),
    ];
    let catalog = build_catalog(&children);
    let n = catalog.len();
    let removed_path = catalog.get(1).path.clone();
    let (rebuilt, focus) = catalog.remove_entry(1);
    assert_eq!(rebuilt.len(), n - 1);
    assert_eq!(rebuilt.index_of(&removed_path), None);
    // The old successor (c.png) now sits at the removed index.
    assert_eq!(focus, Some(1));
    assert_eq!(names(&rebuilt), vec!["a.png", "c.png"]);
}

#[test]
fn remove_at_the_end_falls_back_to_the_predecessor() {
    let children = vec![
        file("/pics", "a.png", png_bytes()),
        file("/pics", "b.png", png_bytes()),
    ];
    let catalog = build_catalog(&children);
    let (rebuilt, focus) = catalog.remove_entry(1);
    assert_eq!(rebuilt.len(), 1);
    assert_eq!(focus, Some(0));
}

#[test]
fn remove_of_the_last_entry_empties_the_catalog() {
    let children = vec![file("/pics", "only.png", png_bytes())];
    let catalog = build_catalog(&children);
    let (rebuilt, focus) = catalog.remove_entry(0);
    assert_eq!(rebuilt.len(), 0);
    assert_eq!(focus, None);
}

#[test]
fn confirmed_trash_success_removes_the_entry() {
    let children = vec![
        file("/pics", "a.png", png_bytes()),
        file("/pics", "b.png", png_bytes()),
        file("/pics", "c.png", png_bytes()),
    ];
    let catalog = build_catalog(&children);
    match apply_trash_result(catalog, 0, Ok(())) {
        TrashUpdate::Removed { catalog, focus } => {
            assert_eq!(catalog.len(), 2);
            assert_eq!(focus, Some(0));
            assert_eq!(names(&catalog), vec!["b.png", "c.png"]);
        }
        TrashUpdate::Failed { .. } => panic!("a confirmed success must remove the entry"),
    }
}

#[test]
fn failed_trash_leaves_the_catalog_untouched() {
    let children = vec![
        file("/pics", "a.png", png_bytes()),
        file("/pics", "b.png", png_bytes()),
    ];
    let catalog = build_catalog(&children);
    match apply_trash_result(catalog, 1, Err(TrashError::PermissionDenied)) {
        TrashUpdate::Removed { .. } => panic!("a failed trash must not mutate the catalog"),
        TrashUpdate::Failed { catalog, error } => {
            assert_eq!(error, TrashError::PermissionDenied);
            assert_eq!(names(&catalog), vec!["a.png", "b.png"]);
        }
    }
}

#[test]
fn display_name_strips_the_final_extension() {
    let entry = Entry {
        path: b"/pics/photo.png".to_vec(),
        name: b"photo.png".to_vec(),
        kind: ImageKind::Png,
    };
    assert_eq!(entry.display_name(), b"photo".to_vec());
}

#[test]
fn display_name_keeps_leading_dot_and_plain_names() {
    let hidden = Entry {
        path: b"/pics/.hidden".to_vec(),
        name: b".hidden".to_vec(),
        kind: ImageKind::Png,
    };
    assert_eq!(hidden.display_name(), b".hidden".to_vec());
    let plain = Entry {
        path: b"/pics/plain".to_vec(),
        name: b"plain".to_vec(),
        kind: ImageKind::Gif,
    };
    assert_eq!(plain.display_name(), b"plain".to_vec());
    let double = Entry {
        path: b"/pics/a.tar.gz".to_vec(),
        name: b"a.tar.gz".to_vec(),
        kind: ImageKind::Ico,
    };
    assert_eq!(double.display_name(), b"a.tar".to_vec());
}

#[test]
fn empty_catalog_constructor() {
    let catalog = Catalog::empty();
    assert_eq!(catalog.len(), 0);
    assert_eq!(catalog.index_of(&b"/anything".to_vec()), None);
}
