use click_through::controller::{
    hitbox_fill_alpha, Controller, Input, MenuItem, MenuReply, Mode, ModeChange, Press, Reply,
    WaitPlan, FRAME_NS, IDLE_WAKE_NS, POLL_NS, REACTION_NS,
};

const MS: u64 = 1_000_000;

#[test]
fn starts_polling_on_macos_native_elsewhere() {
    let mac = Controller::new(true);
    assert_eq!(mac.mode, Mode::Poll);
    assert!(mac.hittest_on);
    assert_eq!((mac.presses, mac.clicks, mac.toggles), (0, 0, 0));
    let other = Controller::new(false);
    assert_eq!(other.mode, Mode::Native);
    assert!(!other.paused);
    assert_eq!(other.press, None);
}

#[test]
fn frame_interval_is_thirty_per_second() {
    assert_eq!(FRAME_NS, 33 * MS);
}

#[test]
fn hittest_switch_is_counted_once() {
    let mut c = Controller::new(false);
    assert!(!c.set_hittest(true, 5));
    assert_eq!(c.toggles, 0);
    assert!(c.set_hittest(false, 6));
    assert_eq!((c.hittest_on, c.toggles, c.hittest_on_since), (false, 1, None));
    assert!(!c.set_hittest(false, 7));
    assert!(c.set_hittest(true, 8));
    assert_eq!((c.hittest_on, c.toggles, c.hittest_on_since), (true, 2, Some(8)));
}

#[test]
fn native_mode_forces_hittest_on() {
    let mut c = Controller::new(false);
    let change = c.apply_mode(10);
    assert_eq!(change, ModeChange { hittest: Some(true), open_hit_window: false });
    assert!(c.hittest_on);
    assert_eq!(c.toggles, 1);
    assert_eq!(c.hittest_on_since, Some(10));
}

#[test]
fn two_window_mode_turns_hittest_off_and_opens_hit_window() {
    let mut c = Controller::new(false);
    c.attach_hit_window(7);
    let reply = c.menu_event(MenuItem::TwoWindow, 3);
    assert_eq!(
        reply,
        MenuReply::ModeApplied { change: ModeChange { hittest: Some(false), open_hit_window: true } }
    );
    assert_eq!(c.mode, Mode::TwoWindow);
    assert!(!c.hittest_on);
    assert_eq!(c.hit_window, None);
    c.attach_hit_window(9);
    assert_eq!(c.hit_window, Some(9));
}

#[test]
fn poll_mode_leaves_hittest_alone() {
    let mut c = Controller::new(false);
    c.set_hittest(false, 1);
    let reply = c.menu_event(MenuItem::Poll, 2);
    assert_eq!(
        reply,
        MenuReply::ModeApplied { change: ModeChange { hittest: None, open_hit_window: false } }
    );
    assert!(!c.hittest_on);
    assert_eq!(c.toggles, 1);
}

#[test]
fn menu_pause_report_quit() {
    let mut c = Controller::new(false);
    assert_eq!(c.menu_event(MenuItem::Pause, 0), MenuReply::PauseToggled { paused: true });
    assert!(c.paused);
    assert_eq!(c.menu_event(MenuItem::Pause, 0), MenuReply::PauseToggled { paused: false });
    assert!(!c.paused);
    let before = c;
    assert_eq!(c.menu_event(MenuItem::Report, 0), MenuReply::Report);
    assert_eq!(c.menu_event(MenuItem::Quit, 0), MenuReply::Quit);
    assert_eq!(c.menu_event(MenuItem::Other, 0), MenuReply::Nothing);
    assert_eq!(c, before);
}

#[test]
fn press_release_is_a_click() {
    let mut c = Controller::new(false);
    let r1 = c.window_event(1, Input::LeftPressed, 100);
    assert_eq!(r1, Reply::Pressed { number: 1, on_hit_window: false, hittest_on_since: None });
    assert_eq!(c.press, Some(Press { dragging: false, window: 1 }));
    let r2 = c.window_event(1, Input::CursorMoved { beyond_drag_threshold: false }, 150);
    assert_eq!(r2, Reply::Nothing);
    let r3 = c.window_event(1, Input::LeftReleased, 200);
    assert_eq!(r3, Reply::Clicked { number: 1 });
    assert_eq!(c.clicks, 1);
    assert_eq!(c.press, None);
    assert_eq!(c.reaction_until, Some(200 + REACTION_NS));
    assert!(c.reaction_playing(200 + REACTION_NS - 1));
    assert!(!c.reaction_playing(200 + REACTION_NS));
}

#[test]
fn press_move_release_is_a_drag() {
    let mut c = Controller::new(false);
    c.attach_hit_window(5);
    assert_eq!(
        c.window_event(5, Input::LeftPressed, 0),
        Reply::Pressed { number: 1, on_hit_window: true, hittest_on_since: None }
    );
    assert_eq!(
        c.window_event(5, Input::CursorMoved { beyond_drag_threshold: true }, 1),
        Reply::StartDrag { on_hit_window: true }
    );
    // A drag starts only once.
    assert_eq!(c.window_event(5, Input::CursorMoved { beyond_drag_threshold: true }, 2), Reply::Nothing);
    assert_eq!(c.window_event(5, Input::LeftReleased, 3), Reply::DragEnded);
    assert_eq!((c.clicks, c.reaction_until), (0, None));
}

#[test]
fn drag_of_render_window_when_press_elsewhere() {
    let mut c = Controller::new(false);
    c.attach_hit_window(5);
    c.window_event(1, Input::LeftPressed, 0);
    assert_eq!(
        c.window_event(5, Input::CursorMoved { beyond_drag_threshold: true }, 1),
        Reply::StartDrag { on_hit_window: false }
    );
}

#[test]
fn release_without_press_does_nothing() {
    let mut c = Controller::new(false);
    let before = c;
    assert_eq!(c.window_event(1, Input::LeftReleased, 0), Reply::Nothing);
    assert_eq!(c, before);
}

#[test]
fn other_window_events() {
    let mut c = Controller::new(false);
    c.attach_hit_window(5);
    assert_eq!(c.window_event(1, Input::CloseRequested, 0), Reply::Exit);
    assert_eq!(c.window_event(5, Input::Moved, 0), Reply::FollowRenderToHitWindow);
    assert_eq!(c.window_event(1, Input::Moved, 0), Reply::Nothing);
    assert_eq!(c.window_event(1, Input::RedrawRequested, 0), Reply::Render);
    assert_eq!(c.window_event(5, Input::RedrawRequested, 0), Reply::Nothing);
    assert_eq!(c.window_event(1, Input::Other, 0), Reply::Nothing);
}

#[test]
fn animating_renders_when_frame_due() {
    let mut c = Controller::new(false);
    let plan = c.about_to_wait(None, 0);
    assert_eq!(plan, WaitPlan { hittest: None, render: true, set_wait: false, wake: FRAME_NS });
    assert_eq!(c.next_frame, FRAME_NS);
    let plan = c.about_to_wait(None, 10 * MS);
    assert_eq!(plan, WaitPlan { hittest: None, render: false, set_wait: false, wake: FRAME_NS });
}

#[test]
fn paused_and_idle_sleeps() {
    let mut c = Controller::new(false);
    c.menu_event(MenuItem::Pause, 0);
    let plan = c.about_to_wait(None, 40 * MS);
    assert_eq!(
        plan,
        WaitPlan { hittest: None, render: false, set_wait: true, wake: 40 * MS + IDLE_WAKE_NS }
    );
}

#[test]
fn reaction_animates_while_paused() {
    let mut c = Controller::new(false);
    c.menu_event(MenuItem::Pause, 0);
    c.window_event(1, Input::LeftPressed, 0);
    c.window_event(1, Input::LeftReleased, 0);
    let plan = c.about_to_wait(None, 290 * MS);
    assert!(plan.render);
    assert_eq!(plan.wake, 290 * MS + FRAME_NS);
    let plan = c.about_to_wait(None, 300 * MS);
    assert!(!plan.render);
    assert!(plan.set_wait);
}

#[test]
fn polling_on_macos_follows_cursor_and_wakes_soon() {
    let mut c = Controller::new(true);
    c.menu_event(MenuItem::Pause, 0);
    let plan = c.about_to_wait(Some(0), 5 * MS);
    assert_eq!(plan, WaitPlan { hittest: Some(false), render: false, set_wait: false, wake: 5 * MS + POLL_NS });
    assert!(!c.hittest_on);
    let plan = c.about_to_wait(Some(0), 6 * MS);
    assert_eq!(plan.hittest, None);
    let plan = c.about_to_wait(Some(200), 7 * MS);
    assert_eq!(plan.hittest, Some(true));
    assert_eq!(c.toggles, 2);
    assert_eq!(c.hittest_on_since, Some(7 * MS));
}

#[test]
fn polling_caps_frame_wait() {
    let mut c = Controller::new(true);
    let plan = c.about_to_wait(Some(255), 0);
    assert!(plan.render);
    assert_eq!(plan.wake, POLL_NS);
}

#[test]
fn wait_forgets_drag_press() {
    let mut c = Controller::new(false);
    c.window_event(1, Input::LeftPressed, 0);
    c.window_event(1, Input::CursorMoved { beyond_drag_threshold: true }, 0);
    c.about_to_wait(None, 0);
    assert_eq!(c.press, None);
    assert_eq!(c.window_event(1, Input::LeftReleased, 1), Reply::Nothing);
}

#[test]
fn poll_mode_off_macos_never_polls() {
    let mut c = Controller::new(false);
    c.menu_event(MenuItem::Poll, 0);
    c.menu_event(MenuItem::Pause, 0);
    let plan = c.about_to_wait(None, 0);
    assert_eq!(plan, WaitPlan { hittest: None, render: false, set_wait: true, wake: IDLE_WAKE_NS });
}

#[test]
fn hit_window_fill() {
    assert_eq!(hitbox_fill_alpha(false), 1);
    assert_eq!(hitbox_fill_alpha(true), 60);
}

#[test]
fn clicks_never_outnumber_presses() {
    let mut c = Controller::new(false);
    let steps = [
        Input::LeftReleased,
        Input::LeftPressed,
        Input::LeftPressed,
        Input::LeftReleased,
        Input::LeftReleased,
        Input::LeftPressed,
        Input::CursorMoved { beyond_drag_threshold: true },
        Input::LeftReleased,
    ];
    for (i, input) in steps.iter().enumerate() {
        c.window_event(1, *input, i as u64);
        let held = if c.press.is_some() { 1 } else { 0 };
        assert!(c.clicks + held <= c.presses);
    }
    assert_eq!((c.presses, c.clicks), (3, 1));
}

#[test]
fn wake_is_never_more_than_idle_interval_away() {
    let mut c = Controller::new(true);
    let mut now = 0;
    for step in 0..40u64 {
        if step == 5 {
            c.menu_event(MenuItem::Pause, now);
        }
        if step == 20 {
            c.menu_event(MenuItem::Native, now);
        }
        let plan = c.about_to_wait(Some((step % 2) as u8), now);
        assert!(plan.wake > now && plan.wake <= now + IDLE_WAKE_NS);
        now = plan.wake;
    }
}

#[test]
fn switches_count_real_changes() {
    let mut c = Controller::new(false);
    for (i, on) in [true, false, false, true, true, false].iter().enumerate() {
        c.set_hittest(*on, i as u64);
    }
    assert_eq!(c.toggles, 3);
    assert!(!c.hittest_on);
}
