use rlock::lockscreen::{
    all_screens_locked, lock_plan, screen_change_target, screen_is_valid, GrabAttempts, GrabStep,
    ALREADY_GRABBED, GRAB_SUCCESS, RR_ROTATE_270, RR_ROTATE_90,
};
use rlock::structs::{Lock, Xrandr};

#[test]
fn grab_constants_are_those_of_x11() {
    assert_eq!(GRAB_SUCCESS, x11::xlib::GrabSuccess);
    assert_eq!(ALREADY_GRABBED, x11::xlib::AlreadyGrabbed);
    assert_eq!(RR_ROTATE_90, x11::xrandr::RR_Rotate_90);
    assert_eq!(RR_ROTATE_270, x11::xrandr::RR_Rotate_270);
}

#[test]
fn both_grabs_lock_at_once() {
    let mut g = GrabAttempts::new();
    assert!(g.rounds_left());
    assert!(g.wants_pointer() && g.wants_keyboard());
    assert_eq!(g.record(Some(GRAB_SUCCESS), Some(GRAB_SUCCESS)), GrabStep::Locked);
    assert_eq!(g.round, 1);
}

#[test]
fn held_elsewhere_retries_then_runs_out() {
    let mut g = GrabAttempts::new();
    assert_eq!(g.record(Some(GRAB_SUCCESS), Some(ALREADY_GRABBED)), GrabStep::Retry);
    assert!(!g.wants_pointer());
    assert!(g.wants_keyboard());
    for _ in 0..5 {
        assert!(g.rounds_left());
        assert_eq!(g.record(None, Some(ALREADY_GRABBED)), GrabStep::Retry);
    }
    assert!(!g.rounds_left());
    assert_eq!(g.failures(), (false, true));
}

#[test]
fn other_errors_give_up() {
    let mut g = GrabAttempts::new();
    assert_eq!(g.record(Some(3), Some(GRAB_SUCCESS)), GrabStep::GiveUp);
    assert_eq!(g.failures(), (true, false));
}

#[test]
fn plan_and_screens() {
    let p = lock_plan(false, Xrandr { active: 1, evbase: 0, errbase: 0 });
    assert!(p.map_window && p.watch_screen_changes);
    let p = lock_plan(true, Xrandr::new());
    assert!(!p.map_window && !p.watch_screen_changes);
    assert!(screen_is_valid(0));
    assert!(!screen_is_valid(-1));
    assert!(all_screens_locked(2, 2));
    assert!(!all_screens_locked(1, 2));
}

#[test]
fn structs_start_empty() {
    let l = Lock::new();
    assert_eq!((l.screen, l.root, l.win, l.pmap), (0, 0, 0, 0));
    assert!(l.colors.is_empty());
    let r = Xrandr::new();
    assert_eq!((r.active, r.evbase, r.errbase), (0, 0, 0));
}

#[test]
fn screen_change_finds_window_and_swaps_on_side() {
    let mut a = Lock::new();
    a.win = 10;
    let mut b = Lock::new();
    b.win = 20;
    let locks = vec![a, b];
    assert_eq!(screen_change_target(&locks, 20, 1, 800, 600), Some((1, 800, 600)));
    assert_eq!(screen_change_target(&locks, 10, 2, 800, 600), Some((0, 600, 800)));
    assert_eq!(screen_change_target(&locks, 10, 8, 800, 600), Some((0, 600, 800)));
    assert_eq!(screen_change_target(&locks, 10, 4, 800, 600), Some((0, 800, 600)));
    assert_eq!(screen_change_target(&locks, 30, 1, 800, 600), None);
}
