use vstd::prelude::*;
use crate::paths::PathSource;

verus! {

/// Plugin that starts loading all assets in the asset folder for a given state and
/// automatically switches to another given state when everything is loaded.
pub struct AssetPreloadPlugin<LoadingState, NextState> {
    /// The state the plugin will start and keep loading all assets.
    loading_state: LoadingState,
    /// The state the plugin will switch to when all assets are loaded
    next_state: NextState,
    /// The path from where the paths to load the assets from originate
    path_source: PathSource,
}

impl<LoadingState, NextState> AssetPreloadPlugin<LoadingState, NextState> {
    /// The state in which assets are loaded.
    pub closed spec fn loading_state_spec(&self) -> LoadingState {
        self.loading_state
    }

    /// The state switched to once everything is loaded.
    pub closed spec fn next_state_spec(&self) -> NextState {
        self.next_state
    }

    /// Whether the paths come from the asset folder.
    pub closed spec fn from_folder(&self) -> bool {
        self.path_source is LoadFromFolder
    }

    /// The given paths, when the paths are given.
    pub closed spec fn given_paths(&self) -> Seq<String> {
        match self.path_source {
            PathSource::GivenPaths(v) => v@,
            PathSource::LoadFromFolder => seq![],
        }
    }

    /// Load all assets directly from the assets folder. This requires access to the file system and will therefore
    /// not work in WASM.
    pub fn load_from_asset_folder(loading_state: LoadingState, next_state: NextState) -> (r: Self)
        ensures
            r.loading_state_spec() == loading_state,
            r.next_state_spec() == next_state,
            r.from_folder(),
    {
        AssetPreloadPlugin { loading_state, next_state, path_source: PathSource::LoadFromFolder }
    }

    /// Load all the given assets only. This variant can be used to preload the whole asset folder in a WASM
    /// environment.
    pub fn load_given_paths(loading_state: LoadingState, next_state: NextState, paths: Vec<String>) -> (r: Self)
        ensures
            r.loading_state_spec() == loading_state,
            r.next_state_spec() == next_state,
            !r.from_folder(),
            r.given_paths() == paths@,
    {
        AssetPreloadPlugin { loading_state, next_state, path_source: PathSource::GivenPaths(paths) }
    }

    /// The state in which assets are loaded.
    pub fn loading_state(&self) -> (r: &LoadingState)
        ensures
            *r == self.loading_state_spec(),
    {
        &self.loading_state
    }

    /// The state switched to once everything is loaded.
    pub fn next_state(&self) -> (r: &NextState)
        ensures
            *r == self.next_state_spec(),
    {
        &self.next_state
    }

    /// Where the asset paths come from.
    pub fn path_source(&self) -> (r: &PathSource)
        ensures
            r is LoadFromFolder == self.from_folder(),
            r matches PathSource::GivenPaths(v) ==> v@ == self.given_paths(),
    {
        &self.path_source
    }
}

} // verus!
