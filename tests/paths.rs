use asset_preload::{collect_folder_paths, to_asset_path, AssetEntry, PathSource};

fn file(p: &str) -> AssetEntry {
    AssetEntry::File(p.to_string())
}

fn folder(p: &str, entries: Vec<AssetEntry>) -> AssetEntry {
    AssetEntry::Folder(p.to_string(), entries)
}

fn sorted(mut v: Vec<String>) -> Vec<String> {
    v.sort();
    v
}

#[test]
fn asset_path_drops_folder_prefix() {
    assert_eq!(to_asset_path("./assets/a.png"), "a.png");
    assert_eq!(to_asset_path("./assets/sub/b.png"), "sub/b.png");
}

#[test]
fn asset_path_turns_backslashes_into_slashes() {
    assert_eq!(to_asset_path("./assets\\sub\\b.png"), "sub/b.png");
    assert_eq!(to_asset_path(".\\assets\\deep\\er\\c.ogg"), "deep/er/c.ogg");
}

#[test]
fn asset_path_without_prefix_is_kept() {
    assert_eq!(to_asset_path("x.png"), "x.png");
    assert_eq!(to_asset_path(""), "");
}

#[test]
fn folder_with_file_and_subfolder() {
    let tree = vec![
        file("./assets/a.png"),
        folder("./assets/sub", vec![file("./assets/sub/b.png")]),
    ];
    let got = collect_folder_paths(&tree);
    assert_eq!(sorted(got), vec!["a.png".to_string(), "sub/b.png".to_string()]);
}

#[test]
fn folder_paths_follow_listing_order_depth_first() {
    let tree = vec![
        folder("./assets/z", vec![file("./assets/z/1.txt"), folder("./assets/z/y", vec![file("./assets/z/y/2.txt")])]),
        file("./assets/0.txt"),
    ];
    assert_eq!(
        collect_folder_paths(&tree),
        vec!["z/1.txt".to_string(), "z/y/2.txt".to_string(), "0.txt".to_string()]
    );
}

#[test]
fn folders_alone_give_no_paths() {
    let tree = vec![folder("./assets/empty", vec![]), folder("./assets/e2", vec![folder("./assets/e2/e3", vec![])])];
    assert!(collect_folder_paths(&tree).is_empty());
    assert!(collect_folder_paths(&vec![]).is_empty());
}

#[test]
fn folder_count_equals_file_count() {
    let tree = vec![
        file("./assets/a"),
        folder("./assets/d", vec![file("./assets/d/b"), file("./assets/d/c"), folder("./assets/d/e", vec![file("./assets/d/e/f")])]),
    ];
    assert_eq!(collect_folder_paths(&tree).len(), 4);
}

#[test]
fn given_paths_are_kept_as_they_are() {
    let given = vec!["y.png".to_string(), "x.png".to_string(), "y.png".to_string(), "./assets/q".to_string()];
    let source = PathSource::GivenPaths(given.clone());
    assert!(!source.reads_folder());
    let tree = vec![file("./assets/other.png")];
    assert_eq!(source.collect(&tree), given);
}

#[test]
fn folder_source_reads_the_folder() {
    let source = PathSource::LoadFromFolder;
    assert!(source.reads_folder());
    let tree = vec![file("./assets/a.png"), folder("./assets/sub", vec![file("./assets/sub/b.png")])];
    assert_eq!(sorted(source.collect(&tree)), vec!["a.png".to_string(), "sub/b.png".to_string()]);
}

#[test]
fn only_the_leading_folder_prefix_is_dropped() {
    assert_eq!(to_asset_path("./assets/x./assets/a"), "x./assets/a");
    assert_eq!(to_asset_path("other/./assets/a"), "other/./assets/a");
}

#[test]
fn nested_folder_named_like_the_root_keeps_its_path() {
    let tree = vec![
        file("./assets/xa"),
        folder("./assets/x.", vec![folder("./assets/x./assets", vec![file("./assets/x./assets/a")])]),
    ];
    assert_eq!(collect_folder_paths(&tree), vec!["xa".to_string(), "x./assets/a".to_string()]);
}
