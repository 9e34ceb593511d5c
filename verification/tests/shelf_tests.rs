use dropair::shelf::{build_shelf_item, display_name, AppState, PathEntry, PathProbe, ShelfItemKind};

fn file(len: u64) -> Option<PathEntry> {
    Some(PathEntry { is_file: true, is_dir: false, len })
}

fn dir() -> Option<PathEntry> {
    Some(PathEntry { is_file: false, is_dir: true, len: 4096 })
}

fn probe(path: &str, entry: Option<PathEntry>) -> PathProbe {
    PathProbe { path: path.to_string(), entry }
}

#[test]
fn shelf_item_takes_name_kind_and_size_from_the_path() {
    let item = build_shelf_item(7, "/home/me/report.pdf".to_string(), file(1200));
    assert_eq!(item.id, 7);
    assert_eq!(item.name, "report.pdf");
    assert_eq!(item.kind, ShelfItemKind::File);
    assert_eq!(item.size, Some(1200));
    assert!(item.content.is_none());

    let item = build_shelf_item(8, "/home/me/photos/".to_string(), dir());
    assert_eq!(item.name, "photos");
    assert_eq!(item.kind, ShelfItemKind::Directory);
    assert_eq!(item.size, None);

    let item = build_shelf_item(9, "/gone".to_string(), None);
    assert_eq!(item.kind, ShelfItemKind::Other);
    assert_eq!(item.size, None);

    let item = build_shelf_item(10, "/".to_string(), Some(PathEntry { is_file: false, is_dir: false, len: 0 }));
    assert_eq!(item.name, "/");
    assert_eq!(item.kind, ShelfItemKind::Other);
}

#[test]
fn display_name_falls_back_to_the_path() {
    let path = "a/..".to_string();
    assert_eq!(display_name(&path, None), "a/..");
    assert_eq!(display_name(&path, Some(String::new())), "a/..");
    assert_eq!(display_name(&path, Some("b".to_string())), "b");
}

#[test]
fn adding_paths_skips_blanks_and_duplicates() {
    let mut state = AppState::new();
    let items = state.add_shelf_paths(vec![
        probe("/a.txt", file(1)),
        probe("  \t", None),
        probe("", None),
        probe("/b", dir()),
        probe("/a.txt", file(1)),
    ]);
    assert_eq!(items.len(), 2);
    assert_eq!(items[0].id, 1);
    assert_eq!(items[0].path, "/a.txt");
    assert_eq!(items[1].id, 2);
    assert_eq!(items[1].path, "/b");

    let again = state.add_shelf_paths(vec![probe("/b", dir()), probe("/a.txt", file(1))]);
    assert_eq!(again.len(), 2);
    assert_eq!(state.list_shelf_items().len(), 2);
}

#[test]
fn removed_and_cleared_ids_are_not_handed_out_again() {
    let mut state = AppState::default();
    state.add_shelf_paths(vec![probe("/a", None), probe("/b", None), probe("/c", None)]);
    let items = state.remove_shelf_item(2);
    assert_eq!(items.iter().map(|i| i.id).collect::<Vec<_>>(), vec![1, 3]);
    let items = state.remove_shelf_item(99);
    assert_eq!(items.len(), 2);

    let items = state.add_shelf_paths(vec![probe("/b", None)]);
    assert_eq!(items.last().unwrap().id, 4);

    assert!(state.clear_shelf().is_empty());
    let items = state.add_shelf_paths(vec![probe("/a", None)]);
    assert_eq!(items.len(), 1);
    assert_eq!(items[0].id, 5);
}

#[test]
fn find_item_returns_a_copy_of_the_item() {
    let mut state = AppState::new();
    state.add_shelf_paths(vec![probe("/x/y.txt", file(3))]);
    let item = state.find_item(1).unwrap();
    assert_eq!(item.name, "y.txt");
    assert!(state.find_item(2).is_none());
}

#[test]
fn plain_and_relative_paths_show_their_last_component() {
    assert_eq!(build_shelf_item(1, "notes.txt".to_string(), None).name, "notes.txt");
    assert_eq!(build_shelf_item(2, "docs/notes.txt".to_string(), None).name, "notes.txt");
    assert_eq!(build_shelf_item(3, "../up/notes.txt".to_string(), None).name, "notes.txt");
    assert_eq!(build_shelf_item(4, "/Users/me/a:b.txt".to_string(), None).name, "a:b.txt");
}

#[test]
fn can_add_accepts_ordinary_drops() {
    let state = AppState::new();
    assert!(state.can_add(&vec![probe("/a", None), probe("/a", None), probe(" ", None)]));
    assert_eq!(state.last_id(), 0);
}
