use asset_preload::{AssetPreloadUpdate, AssetStatus, ProgressPoller, TickOutcome};
use AssetStatus::{Failed, Loaded, Pending};

fn progress(num_loaded: usize, num_loading: usize, switch_state: bool) -> TickOutcome {
    TickOutcome::Progress { update: AssetPreloadUpdate { num_loaded, num_loading }, switch_state }
}

#[test]
fn two_loaded_of_two_switches() {
    let mut p = ProgressPoller::new(2);
    assert_eq!(p.tick(&vec![Loaded, Loaded]), progress(2, 2, true));
    assert!(p.is_complete());
}

#[test]
fn switch_comes_on_the_tick_that_completes() {
    let mut p = ProgressPoller::new(5);
    assert_eq!(p.tick(&vec![Loaded, Pending, Loaded, Pending, Loaded]), progress(3, 5, false));
    assert!(!p.is_complete());
    assert_eq!(p.tick(&vec![Loaded; 5]), progress(5, 5, true));
    assert!(p.is_complete());
}

#[test]
fn failed_asset_reports_nothing() {
    let mut p = ProgressPoller::new(3);
    assert_eq!(p.tick(&vec![Loaded, Failed, Pending]), TickOutcome::Failed);
    assert!(!p.is_complete());
    assert_eq!(p.tick(&vec![Loaded, Loaded, Failed]), TickOutcome::Failed);
}

#[test]
fn ticks_after_completion_repeat_without_switch() {
    let mut p = ProgressPoller::new(3);
    assert_eq!(p.tick(&vec![Loaded; 3]), progress(3, 3, true));
    for _ in 0..4 {
        assert_eq!(p.tick(&vec![Loaded; 3]), progress(3, 3, false));
        assert!(p.is_complete());
        assert_eq!(p.total(), 3);
    }
}

#[test]
fn loaded_never_exceeds_total() {
    let mut p = ProgressPoller::new(4);
    let ticks = vec![
        vec![Pending; 4],
        vec![Loaded, Pending, Pending, Pending],
        vec![Loaded, Pending, Loaded, Loaded],
        vec![Loaded; 4],
    ];
    for s in ticks.iter() {
        match p.tick(s) {
            TickOutcome::Progress { update, .. } => {
                assert!(update.num_loaded <= update.num_loading);
                assert_eq!(update.num_loading, 4);
            }
            TickOutcome::Failed => panic!("no asset failed"),
        }
        assert_eq!(p.total(), 4);
    }
}

#[test]
fn nothing_to_load_switches_at_once() {
    let mut p = ProgressPoller::new(0);
    assert_eq!(p.tick(&vec![]), progress(0, 0, true));
}

#[test]
fn pending_assets_count_as_not_loaded() {
    let mut p = ProgressPoller::new(2);
    assert_eq!(p.tick(&vec![Pending, Pending]), progress(0, 2, false));
}
