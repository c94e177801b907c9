pub mod loading;
pub mod paths;
pub mod plugin;
pub mod progress;

pub use loading::{check_asset_paths, InvalidAssetPath, LoadedAssets};
pub use paths::{collect_folder_paths, to_asset_path, AssetEntry, PathSource};
pub use plugin::AssetPreloadPlugin;
pub use progress::{AssetPreloadUpdate, AssetStatus, ProgressPoller, TickOutcome};
