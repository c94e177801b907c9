use vstd::prelude::*;
use bevy_asset::{AssetPath, AssetServer, LoadState, UntypedHandle};
use crate::paths::{AssetEntry, PathSource, listing_files, texts};
use crate::progress::{AssetStatus, PollerState, ProgressPoller, TickOutcome, tick_outcome, next_state};

verus! {

#[verifier::external_type_specification]
#[verifier::external_body]
pub struct ExAssetServer(AssetServer);

#[verifier::external_type_specification]
#[verifier::external_body]
pub struct ExUntypedHandle(UntypedHandle);

/// Whether an asset source ends at `c` in `p`: `:` followed by `//`.
pub open spec fn source_mark_at(p: Seq<char>, c: int) -> bool {
    0 <= c && c + 2 < p.len() && p[c] == ':' && p[c + 1] == '/' && p[c + 2] == '/'
}

/// Whether `p` is an asset path that the asset server accepts: the source,
/// before the first `://`, is not empty and holds no `#`; the label, after
/// the last `#`, is not empty and holds no `://`.
pub open spec fn asset_path_ok(p: Seq<char>) -> bool {
    &&& !source_mark_at(p, 0)
    &&& !(p.len() > 0 && p.last() == '#')
    &&& !exists|c: int, h: int|
        #![trigger source_mark_at(p, c), p[h]]
        source_mark_at(p, c) && (forall|d: int| 0 <= d < c ==> !source_mark_at(p, d)) && 0 <= h < c
            && p[h] == '#'
    &&& !exists|c: int, h: int|
        #![trigger source_mark_at(p, c), p[h]]
        source_mark_at(p, c) && 0 <= h < c && p[h] == '#' && (forall|g: int|
            c < g < p.len() ==> p[g] != '#')
}

/// Whether `p` names neither an asset source (`:`) nor a label (`#`).
pub open spec fn plain_path(p: Seq<char>) -> bool {
    forall|i: int| 0 <= i < p.len() ==> p[i] != ':' && p[i] != '#'
}

/// A path without `:` and `#` is always accepted.
pub proof fn lemma_plain_path_ok(p: Seq<char>)
    requires
        plain_path(p),
    ensures
        asset_path_ok(p),
{
    assert(forall|c: int| !source_mark_at(p, c));
    if p.len() > 0 {
        assert(p.last() == p[p.len() - 1]);
    }
}

/// Relies on bevy_asset's `AssetPath::try_parse`, which the asset server
/// uses on every path it is asked to load: it refuses a path exactly when
/// its source is empty or holds `#`, or its label is empty or holds `://`.
#[verifier::external_body]
fn accepts_asset_path(path: &str) -> (r: bool)
    ensures
        r == asset_path_ok(path@),
{
    AssetPath::try_parse(path).is_ok()
}

/// Relies on `AssetServer::load_state`, read as one status. What it reports
/// changes while loads go on in the background, so nothing is promised.
#[verifier::external_body]
fn load_status(server: &AssetServer, handle: &UntypedHandle) -> (r: AssetStatus) {
    match server.load_state(handle.id()) {
        LoadState::NotLoaded => AssetStatus::Pending,
        LoadState::Loading => AssetStatus::Pending,
        LoadState::Loaded => AssetStatus::Loaded,
        LoadState::Failed(_) => AssetStatus::Failed,
    }
}

/// A path that the asset server refuses, by its place among the paths.
#[derive(PartialEq, Eq, Structural, Clone, Copy, Debug)]
pub struct InvalidAssetPath {
    pub index: usize,
}

/// Whether the asset server accepts every path of `paths`.
pub open spec fn all_accepted(paths: Seq<Seq<char>>) -> bool {
    forall|i: int| 0 <= i < paths.len() ==> asset_path_ok(#[trigger] paths[i])
}

/// Whether every path of `paths` is plain.
pub open spec fn all_plain(paths: Seq<Seq<char>>) -> bool {
    forall|i: int| 0 <= i < paths.len() ==> plain_path(#[trigger] paths[i])
}

/// Checks that the asset server accepts every path of `paths`, so that
/// starting their loads cannot fail; names the first one it refuses.
pub fn check_asset_paths(paths: &Vec<String>) -> (r: Result<(), InvalidAssetPath>)
    ensures
        r is Ok <==> all_accepted(texts(paths@)),
        all_plain(texts(paths@)) ==> r is Ok,
        r matches Err(e) ==> e.index < paths@.len() && !asset_path_ok(paths@[e.index as int]@)
            && forall|i: int| 0 <= i < e.index ==> asset_path_ok(#[trigger] paths@[i]@),
{
    let mut i: usize = 0;
    while i < paths.len()
        invariant
            i <= paths@.len(),
            forall|k: int| 0 <= k < i ==> asset_path_ok(#[trigger] paths@[k]@),
            all_plain(texts(paths@)) ==> forall|k: int| 0 <= k < i ==> asset_path_ok(
                #[trigger] paths@[k]@,
            ),
        decreases paths@.len() - i,
    {
        assert(texts(paths@)[i as int] == paths@[i as int]@);
        proof {
            if plain_path(paths@[i as int]@) {
                lemma_plain_path_ok(paths@[i as int]@);
            }
        }
        if !accepts_asset_path(paths[i].as_str()) {
            assert(!all_accepted(texts(paths@)));
            return Err(InvalidAssetPath { index: i });
        }
        i += 1;
    }
    assert forall|k: int| 0 <= k < texts(paths@).len() implies asset_path_ok(
        #[trigger] texts(paths@)[k],
    ) by {
        assert(texts(paths@)[k] == paths@[k]@);
    }
    Ok(())
}

/// The asset paths that `source` gives for a listed asset folder `folder`.
pub open spec fn source_paths(source: &PathSource, folder: Seq<AssetEntry>) -> Seq<Seq<char>> {
    match source {
        PathSource::LoadFromFolder => listing_files(folder),
        PathSource::GivenPaths(v) => texts(v@),
    }
}

impl PathSource {
    /// The asset paths to load, in the order their loads are to be started,
    /// once the asset server is known to accept every one of them. `folder`
    /// is the listed asset folder, read only when the paths come from it.
    pub fn asset_paths(&self, folder: &Vec<AssetEntry>) -> (r: Result<Vec<String>, InvalidAssetPath>)
        ensures
            r is Ok <==> all_accepted(source_paths(self, folder@)),
            all_plain(source_paths(self, folder@)) ==> r is Ok,
            r matches Ok(v) ==> texts(v@) == source_paths(self, folder@),
            r matches Err(e) ==> e.index < source_paths(self, folder@).len() && !asset_path_ok(
                source_paths(self, folder@)[e.index as int],
            ),
    {
        let paths = self.collect(folder);
        assert(texts(paths@) == source_paths(self, folder@));
        match check_asset_paths(&paths) {
            Ok(()) => Ok(paths),
            Err(e) => {
                assert(texts(paths@)[e.index as int] == paths@[e.index as int]@);
                Err(e)
            },
        }
    }
}

/// Handles to all assets that are being preloaded. Holding them keeps the
/// assets from being unloaded for want of users; the poller counts them.
pub struct LoadedAssets {
    handles: Vec<UntypedHandle>,
    poller: ProgressPoller,
}

impl LoadedAssets {
    /// The handles held, in the order of the paths they were started for.
    pub closed spec fn held(&self) -> Seq<UntypedHandle> {
        self.handles@
    }

    /// The poller's state: how many assets are held, and whether the next
    /// state has been asked for.
    pub closed spec fn state(&self) -> PollerState {
        self.poller@
    }

    /// The poller watches exactly the handles held.
    pub closed spec fn wf(&self) -> bool {
        self.poller@.total == self.handles@.len()
    }

    /// Holds `handles`, none of which has been seen loaded yet.
    pub fn new(handles: Vec<UntypedHandle>) -> (r: Self)
        ensures
            r.wf(),
            r.held() == handles@,
            r.state() == (PollerState { total: handles@.len(), complete: false }),
    {
        let poller = ProgressPoller::new(handles.len());
        LoadedAssets { handles, poller }
    }

    /// The number of assets held, loaded or not.
    pub fn num_loading_assets(&self) -> (r: usize)
        requires
            self.wf(),
        ensures
            r == self.state().total,
            r == self.held().len(),
    {
        self.handles.len()
    }

    /// The handles held, in order.
    pub fn handles(&self) -> (r: &Vec<UntypedHandle>)
        ensures
            r@ == self.held(),
    {
        &self.handles
    }

    fn statuses(&self, server: &AssetServer) -> (r: Vec<AssetStatus>)
        ensures
            r@.len() == self.handles@.len(),
    {
        let mut out: Vec<AssetStatus> = Vec::new();
        let mut i: usize = 0;
        while i < self.handles.len()
            invariant
                i <= self.handles@.len(),
                out@.len() == i,
            decreases self.handles@.len() - i,
        {
            out.push(load_status(server, &self.handles[i]));
            i += 1;
        }
        out
    }

    /// One tick of loading: reads the status of every held asset from the
    /// asset server, and reports as the poller does on those statuses. The
    /// handles held stay as they are.
    pub fn poll(&mut self, server: &AssetServer) -> (r: TickOutcome)
        requires
            old(self).wf(),
        ensures
            final(self).wf(),
            final(self).held() == old(self).held(),
            exists|s: Seq<AssetStatus>|
                s.len() == old(self).state().total && r == #[trigger] tick_outcome(old(self).state(), s)
                    && final(self).state() == next_state(old(self).state(), s),
    {
        let statuses = self.statuses(server);
        let r = self.poller.tick(&statuses);
        assert(r == tick_outcome(old(self).state(), statuses@));
        r
    }
}

} // verus!
