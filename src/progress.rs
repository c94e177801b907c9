use vstd::prelude::*;

verus! {

/// How far one asset has come, as the asset server reports it.
#[derive(PartialEq, Eq, Structural, Clone, Copy, Debug)]
pub enum AssetStatus {
    /// Not loaded yet: not started, or still on its way.
    Pending,
    /// Loaded and ready.
    Loaded,
    /// The load failed.
    Failed,
}

/// The progress reported on every tick of the loading state.
#[derive(PartialEq, Eq, Structural, Clone, Copy, Debug)]
pub struct AssetPreloadUpdate {
    /// The amount of assets which are already loaded
    pub num_loaded: usize,
    /// The amount of all assets which get currently loaded or are already loaded
    pub num_loading: usize,
}

/// What one tick of the poller asks for.
#[derive(PartialEq, Eq, Structural, Clone, Copy, Debug)]
pub enum TickOutcome {
    /// An asset failed to load: loading cannot go on, and nothing is reported.
    Failed,
    /// Report `update`; when `switch_state` holds, also move on to the next state.
    Progress { update: AssetPreloadUpdate, switch_state: bool },
}

/// The number of loaded assets among `s`.
pub open spec fn loaded_count(s: Seq<AssetStatus>) -> nat
    decreases s.len(),
{
    if s.len() == 0 {
        0
    } else {
        loaded_count(s.drop_last()) + if s.last() == AssetStatus::Loaded {
            1nat
        } else {
            0nat
        }
    }
}

/// Whether some asset among `s` failed to load.
pub open spec fn any_failed(s: Seq<AssetStatus>) -> bool {
    exists|i: int| 0 <= i < s.len() && s[i] == AssetStatus::Failed
}

/// The poller as a state machine: how many assets it watches, fixed when
/// loading starts, and whether it has already asked for the next state.
pub struct PollerState {
    pub total: nat,
    pub complete: bool,
}

/// What a tick reports when it sees `s` in state `p`.
pub open spec fn tick_outcome(p: PollerState, s: Seq<AssetStatus>) -> TickOutcome {
    if any_failed(s) {
        TickOutcome::Failed
    } else {
        TickOutcome::Progress {
            update: AssetPreloadUpdate {
                num_loaded: loaded_count(s) as usize,
                num_loading: p.total as usize,
            },
            switch_state: !p.complete && loaded_count(s) == p.total,
        }
    }
}

/// The state after a tick that sees `s` in state `p`.
pub open spec fn next_state(p: PollerState, s: Seq<AssetStatus>) -> PollerState {
    PollerState {
        total: p.total,
        complete: p.complete || (!any_failed(s) && loaded_count(s) == p.total),
    }
}

proof fn lemma_loaded_count_bound(s: Seq<AssetStatus>)
    ensures
        loaded_count(s) <= s.len(),
    decreases s.len(),
{
    if s.len() > 0 {
        lemma_loaded_count_bound(s.drop_last());
    }
}

proof fn lemma_all_loaded_count(s: Seq<AssetStatus>)
    requires
        forall|i: int| 0 <= i < s.len() ==> s[i] == AssetStatus::Loaded,
    ensures
        loaded_count(s) == s.len(),
        !any_failed(s),
    decreases s.len(),
{
    if s.len() > 0 {
        lemma_all_loaded_count(s.drop_last());
    }
}

/// On every tick the progress stays within bounds: no more assets are
/// reported loaded than are watched, the number watched is the one fixed
/// when loading started, and a tick never changes it.
pub proof fn lemma_tick_within_total(p: PollerState, s: Seq<AssetStatus>)
    requires
        s.len() == p.total,
        p.total <= usize::MAX,
    ensures
        tick_outcome(p, s) matches TickOutcome::Progress { update, .. } ==> 0 <= update.num_loaded
            <= update.num_loading && update.num_loading == p.total,
        next_state(p, s).total == p.total,
{
    lemma_loaded_count_bound(s);
}

/// The next state is asked for on exactly one tick: the first one, with no
/// failure, on which every watched asset is loaded.
pub proof fn lemma_switch_exactly_once(p: PollerState, s: Seq<AssetStatus>)
    ensures
        (tick_outcome(p, s) matches TickOutcome::Progress { switch_state, .. } && switch_state)
            <==> (!p.complete && !any_failed(s) && loaded_count(s) == p.total),
        next_state(p, s).complete <==> (p.complete || (tick_outcome(p, s) matches
            TickOutcome::Progress { switch_state, .. } && switch_state)),
{
}

/// Polling again once every asset is loaded keeps reporting all of them
/// loaded, and after the next state was asked for it is never asked for a
/// second time: such ticks leave the poller as it is.
pub proof fn lemma_ticks_after_completion(p: PollerState, s: Seq<AssetStatus>)
    requires
        s.len() == p.total,
        p.total <= usize::MAX,
        forall|i: int| 0 <= i < s.len() ==> s[i] == AssetStatus::Loaded,
    ensures
        tick_outcome(p, s) == (TickOutcome::Progress {
            update: AssetPreloadUpdate { num_loaded: p.total as usize, num_loading: p.total as usize },
            switch_state: !p.complete,
        }),
        next_state(p, s).complete,
        next_state(next_state(p, s), s) == next_state(p, s),
        tick_outcome(next_state(p, s), s) == (TickOutcome::Progress {
            update: AssetPreloadUpdate { num_loaded: p.total as usize, num_loading: p.total as usize },
            switch_state: false,
        }),
{
    lemma_all_loaded_count(s);
}

/// Counts the loaded assets of the next tick, or finds a failed one.
pub struct ProgressPoller {
    total: usize,
    complete: bool,
}

impl View for ProgressPoller {
    type V = PollerState;

    closed spec fn view(&self) -> PollerState {
        PollerState { total: self.total as nat, complete: self.complete }
    }
}

impl ProgressPoller {
    /// A poller for `total` assets that has not yet asked for the next state.
    pub fn new(total: usize) -> (r: Self)
        ensures
            r@ == (PollerState { total: total as nat, complete: false }),
    {
        ProgressPoller { total, complete: false }
    }

    /// The number of assets watched.
    pub fn total(&self) -> (r: usize)
        ensures
            r == self@.total,
    {
        self.total
    }

    /// Whether the next state has been asked for.
    pub fn is_complete(&self) -> (r: bool)
        ensures
            r == self@.complete,
    {
        self.complete
    }

    /// One tick: `statuses` holds the status of each watched asset.
    pub fn tick(&mut self, statuses: &Vec<AssetStatus>) -> (r: TickOutcome)
        requires
            statuses@.len() == old(self)@.total,
        ensures
            r == tick_outcome(old(self)@, statuses@),
            final(self)@ == next_state(old(self)@, statuses@),
    {
        let n = statuses.len();
        let mut loaded: usize = 0;
        let mut i: usize = 0;
        while i < n
            invariant
                n == statuses@.len(),
                i <= n,
                loaded == loaded_count(statuses@.subrange(0, i as int)),
                forall|k: int| 0 <= k < i ==> statuses@[k] != AssetStatus::Failed,
            decreases n - i,
        {
            proof {
                lemma_loaded_count_bound(statuses@.subrange(0, i as int));
                assert(statuses@.subrange(0, i + 1).drop_last() =~= statuses@.subrange(0, i as int));
            }
            match statuses[i] {
                AssetStatus::Failed => {
                    return TickOutcome::Failed;
                },
                AssetStatus::Loaded => {
                    loaded = loaded + 1;
                },
                AssetStatus::Pending => {},
            }
            i += 1;
        }
        assert(statuses@.subrange(0, n as int) =~= statuses@);
        let switch_state = !self.complete && loaded == self.total;
        if loaded == self.total {
            self.complete = true;
        }
        TickOutcome::Progress {
            update: AssetPreloadUpdate { num_loaded: loaded, num_loading: self.total },
            switch_state,
        }
    }
}

} // verus!
