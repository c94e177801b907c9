use asset_preload::{
    check_asset_paths, AssetEntry, AssetPreloadPlugin, AssetPreloadUpdate, InvalidAssetPath, LoadedAssets, TickOutcome,
};
use bevy_app::{App, TaskPoolPlugin};
use bevy_asset::{AssetPlugin, AssetServer, Handle, LoadedUntypedAsset, UntypedHandle};

fn server() -> AssetServer {
    let mut app = App::new();
    app.add_plugins((TaskPoolPlugin::default(), AssetPlugin::default()));
    app.world().resource::<AssetServer>().clone()
}

fn unknown_handle() -> UntypedHandle {
    Handle::<LoadedUntypedAsset>::default().untyped()
}

#[test]
fn given_paths_give_one_handle_each() {
    let plugin = AssetPreloadPlugin::load_given_paths(0u8, 1u8, vec!["x.png".to_string(), "y.png".to_string()]);
    let paths = plugin.path_source().asset_paths(&vec![]).ok().unwrap();
    assert_eq!(paths, vec!["x.png".to_string(), "y.png".to_string()]);
    let s = server();
    let handles: Vec<UntypedHandle> = paths.iter().map(|p| s.load_untyped(p).untyped()).collect();
    let loaded = LoadedAssets::new(handles.clone());
    assert_eq!(loaded.num_loading_assets(), 2);
    assert_eq!(*loaded.handles(), handles);
}

#[test]
fn repeated_path_is_kept_twice() {
    let paths = vec!["a.png".to_string(), "a.png".to_string()];
    assert_eq!(check_asset_paths(&paths), Ok(()));
    let plugin = AssetPreloadPlugin::load_given_paths(0u8, 1u8, paths.clone());
    assert_eq!(plugin.path_source().asset_paths(&vec![]).ok().unwrap(), paths);
}

#[test]
fn folder_paths_are_checked() {
    let plugin = AssetPreloadPlugin::load_from_asset_folder(0u8, 1u8);
    let folder = vec![AssetEntry::File("./assets/a.png".to_string()), AssetEntry::File("./assets/b#".to_string())];
    match plugin.path_source().asset_paths(&folder) {
        Err(e) => assert_eq!(e, InvalidAssetPath { index: 1 }),
        Ok(_) => panic!("an empty label is refused"),
    }
}

#[test]
fn refused_path_is_reported_by_place() {
    let paths = vec!["a.png".to_string(), "b.png#".to_string(), "://c.png".to_string()];
    assert_eq!(check_asset_paths(&paths), Err(InvalidAssetPath { index: 1 }));
    assert_eq!(check_asset_paths(&vec!["://c.png".to_string()]), Err(InvalidAssetPath { index: 0 }));
    assert_eq!(check_asset_paths(&vec!["src://dir/c.png#label".to_string()]), Ok(()));
}

#[test]
fn poll_with_nothing_held_switches() {
    let mut loaded = LoadedAssets::new(vec![]);
    let expected = TickOutcome::Progress {
        update: AssetPreloadUpdate { num_loaded: 0, num_loading: 0 },
        switch_state: true,
    };
    assert_eq!(loaded.poll(&server()), expected);
}

#[test]
fn poll_counts_unknown_asset_as_pending() {
    let s = server();
    let handles = vec![unknown_handle()];
    let mut loaded = LoadedAssets::new(handles.clone());
    let expected = TickOutcome::Progress {
        update: AssetPreloadUpdate { num_loaded: 0, num_loading: 1 },
        switch_state: false,
    };
    assert_eq!(loaded.poll(&s), expected);
    assert_eq!(loaded.poll(&s), expected);
    assert_eq!(*loaded.handles(), handles);
}

fn accepted(p: &str) -> bool {
    check_asset_paths(&vec![p.to_string()]).is_ok()
}

#[test]
fn acceptance_follows_sources_and_labels() {
    assert!(accepted("x.png"));
    assert!(accepted("src://x.png"));
    assert!(accepted("src://x.png#Mesh0"));
    assert!(accepted("a://b#c://d#e"));
    assert!(accepted("a:/b:c/d"));
    assert!(accepted(""));
    assert!(!accepted("://x.png"));
    assert!(!accepted("x.png#"));
    assert!(!accepted("a#b://c"));
    assert!(!accepted("a://b#c://d"));
    assert!(!accepted("#"));
}
