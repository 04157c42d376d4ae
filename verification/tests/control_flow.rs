use rusty_variety::control::{action_of, initial, step, Action, Config, Event, Outcome, State};
use rusty_variety::guard::Marker;

/// Drives the control machine against a simulated environment: `marker` is
/// the marker path, `dir_exists` the source directory's existence. After
/// `stop_after` delegation dispatches, the next suspension is cut short by
/// an external termination request. Returns every action the machine asked
/// for, in order, and the state it terminated in.
fn drive(
    cfg: &Config,
    kill_all: bool,
    marker: &mut Marker,
    dir_exists: bool,
    stop_after: usize,
) -> (Vec<Action>, State) {
    let mut state = initial(kill_all);
    let mut actions: Vec<Action> = Vec::new();
    let mut dispatched: usize = 0;
    loop {
        let a = action_of(cfg, &state);
        actions.push(a);
        let e = match a {
            Action::DispatchKill => Event::Ready,
            Action::ForceClear => {
                marker.force_clear();
                Event::Ready
            }
            Action::ProbeMarker => Event::MarkerSeen(marker.is_held()),
            Action::ReportRunning => Event::Ready,
            Action::CreateMarker => {
                let acquired = marker.try_create();
                assert!(acquired, "the probe saw the marker absent");
                Event::Ready
            }
            Action::ProbeDir => Event::DirSeen(dir_exists),
            Action::SetWallpaper => {
                dispatched += 1;
                Event::Ready
            }
            Action::Sleep { .. } => {
                if dispatched >= stop_after {
                    Event::Stop
                } else {
                    Event::Ready
                }
            }
            Action::RemoveMarker => {
                assert!(marker.is_held(), "release runs while the marker is present");
                marker.release();
                Event::Ready
            }
            Action::Exit => return (actions, state),
        };
        state = step(&state, &e);
    }
}

fn config(interval_secs: u64) -> Config {
    Config::new(interval_secs, String::from("/wallpapers")).expect("positive interval")
}

#[test]
fn scenario_valid_directory_cycles_until_killed() {
    // interval=5, valid directory: the process acquires the marker, issues a
    // delegation immediately, then one every 5 seconds, until terminated.
    let cfg = config(5);
    let mut marker = Marker::new_absent();
    let (actions, end) = drive(&cfg, false, &mut marker, true, 3);
    assert_eq!(
        actions,
        vec![
            Action::ProbeMarker,
            Action::CreateMarker,
            Action::ProbeDir,
            Action::SetWallpaper,
            Action::Sleep { secs: 5 },
            Action::SetWallpaper,
            Action::Sleep { secs: 5 },
            Action::SetWallpaper,
            Action::Sleep { secs: 5 },
            Action::RemoveMarker,
            Action::Exit,
        ]
    );
    assert_eq!(end, State::Done { outcome: Outcome::Stopped });
    assert!(!marker.is_held());
}

#[test]
fn interval_between_delegations() {
    // Between any two delegation dispatches stands a suspension for the
    // full configured interval.
    let cfg = config(7);
    let mut marker = Marker::new_absent();
    let (actions, _) = drive(&cfg, false, &mut marker, true, 4);
    let dispatches: Vec<usize> = actions
        .iter()
        .enumerate()
        .filter(|(_, a)| **a == Action::SetWallpaper)
        .map(|(i, _)| i)
        .collect();
    assert_eq!(dispatches.len(), 4);
    for pair in dispatches.windows(2) {
        let between = &actions[pair[0] + 1..pair[1]];
        assert!(between.contains(&Action::Sleep { secs: 7 }));
    }
}

#[test]
fn scenario_second_instance_exits_informationally() {
    // A second instance started while the first holds the marker reports it
    // and exits with success; the marker stays owned by the first.
    let mut marker = Marker::new_absent();
    let acquired = marker.try_create();
    assert!(acquired);
    let cfg = config(5);
    let (actions, end) = drive(&cfg, false, &mut marker, true, 0);
    assert_eq!(
        actions,
        vec![Action::ProbeMarker, Action::ReportRunning, Action::Exit]
    );
    assert_eq!(end, State::Done { outcome: Outcome::AlreadyRunning });
    assert!(marker.is_held(), "the first instance still owns the marker");
}

#[test]
fn scenario_kill_all_clears_marker_and_proceeds() {
    // The kill-all flag signals all same-named processes and force-clears
    // the marker before the invoking process acquires its own guard and
    // starts its own loop.
    let mut marker = Marker::new_absent();
    let acquired = marker.try_create();
    assert!(acquired, "a running instance holds the marker");
    let cfg = config(5);
    let (actions, end) = drive(&cfg, true, &mut marker, true, 1);
    assert_eq!(
        actions,
        vec![
            Action::DispatchKill,
            Action::ForceClear,
            Action::ProbeMarker,
            Action::CreateMarker,
            Action::ProbeDir,
            Action::SetWallpaper,
            Action::Sleep { secs: 5 },
            Action::RemoveMarker,
            Action::Exit,
        ]
    );
    assert_eq!(end, State::Done { outcome: Outcome::Stopped });
    assert!(!marker.is_held());
}

#[test]
fn scenario_missing_directory_is_a_clean_noop() {
    // interval=10, nonexistent directory: no delegation is ever issued, the
    // process exits cleanly, and no marker is left behind (the release
    // still runs as normal teardown).
    let cfg = config(10);
    let mut marker = Marker::new_absent();
    let (actions, end) = drive(&cfg, false, &mut marker, false, 0);
    assert_eq!(
        actions,
        vec![
            Action::ProbeMarker,
            Action::CreateMarker,
            Action::ProbeDir,
            Action::RemoveMarker,
            Action::Exit,
        ]
    );
    assert!(!actions.contains(&Action::SetWallpaper));
    assert_eq!(end, State::Done { outcome: Outcome::NoSourceDir });
    assert!(!marker.is_held());
}

#[test]
fn cleanup_on_normal_exit_after_termination_request() {
    // Any run that acquired the guard and ends through a normal exit path
    // leaves the marker absent immediately afterwards.
    let cfg = config(1);
    let mut marker = Marker::new_absent();
    let (_, end) = drive(&cfg, false, &mut marker, true, 2);
    assert_eq!(end, State::Done { outcome: Outcome::Stopped });
    assert!(!marker.is_held());
}

#[test]
fn initial_state_depends_on_kill_all_flag() {
    assert_eq!(initial(true), State::Killing);
    assert_eq!(initial(false), State::Checking);
}

#[test]
fn stutter_on_unexpected_event_leaves_state_unchanged() {
    // An event that answers no pending action does not move the machine.
    let s = State::Checking;
    assert_eq!(step(&s, &Event::Ready), State::Checking);
    assert_eq!(step(&State::Killing, &Event::DirSeen(true)), State::Killing);
}
