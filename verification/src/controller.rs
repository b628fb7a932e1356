//! The pet window's controller: which hit-testing mode is active, whether
//! the window takes the cursor, presses, clicks and drags, the menu, and
//! when the event loop renders and wakes. The event loop hands it what
//! happened as plain values and carries out what it answers.
//!
//! Times are nanoseconds since the program started.

use vstd::prelude::*;

verus! {

/// How clicks on transparent pixels are made to pass through the window.
#[derive(Clone, Copy, Debug, PartialEq, Eq, Structural)]
pub enum Mode {
    /// Hit-test always on; the window system passes alpha-0 pixels through.
    Native,
    /// Poll the cursor and turn hit-testing on only over visible pixels.
    Poll,
    /// The render window never takes input; a separate window the size of
    /// the body's hitbox follows it and takes the input.
    TwoWindow,
}

/// The entries of the tray menu.
#[derive(Clone, Copy, Debug, PartialEq, Eq, Structural)]
pub enum MenuItem {
    Native,
    Poll,
    TwoWindow,
    Pause,
    Report,
    Quit,
    /// An event for no entry of this menu.
    Other,
}

/// A left button held down on one of the windows.
#[derive(Clone, Copy, Debug, PartialEq, Eq, Structural)]
pub struct Press {
    /// The cursor has moved far enough that the press became a drag.
    pub dragging: bool,
    /// The window the button went down on.
    pub window: u64,
}

/// What happened to one of the windows.
#[derive(Clone, Copy, Debug, PartialEq, Eq, Structural)]
pub enum Input {
    CloseRequested,
    Moved,
    /// The cursor moved; `beyond_drag_threshold` tells whether it is now
    /// farther than the drag threshold from where the current press began.
    CursorMoved { beyond_drag_threshold: bool },
    LeftPressed,
    LeftReleased,
    RedrawRequested,
    /// Anything else (other buttons, key presses, ...).
    Other,
}

/// What the event loop does in answer to a window event.
#[derive(Clone, Copy, Debug, PartialEq, Eq, Structural)]
pub enum Reply {
    Nothing,
    /// Leave the event loop.
    Exit,
    /// Move the render window to where the hit window now is.
    FollowRenderToHitWindow,
    /// Let the window system drag the hit window (or else the render window).
    StartDrag { on_hit_window: bool },
    /// Press number `number` began (logged with the time hit-testing has been on).
    Pressed { number: u32, on_hit_window: bool, hittest_on_since: Option<u64> },
    /// A drag ended.
    DragEnded,
    /// Click number `number`: a reaction plays.
    Clicked { number: u32 },
    /// Render a frame.
    Render,
}

/// What the event loop does after a mode was applied: first drop the hit
/// window, then switch the render window's hit-testing to `hittest` if it is
/// `Some`, then open a hit window if `open_hit_window`.
#[derive(Clone, Copy, Debug, PartialEq, Eq, Structural)]
pub struct ModeChange {
    pub hittest: Option<bool>,
    pub open_hit_window: bool,
}

/// What the event loop does in answer to a menu event.
#[derive(Clone, Copy, Debug, PartialEq, Eq, Structural)]
pub enum MenuReply {
    Nothing,
    /// Print the report and leave the event loop.
    Quit,
    /// Animation was paused or resumed: log it and render a frame.
    PauseToggled { paused: bool },
    /// A mode was chosen and applied.
    ModeApplied { change: ModeChange },
    /// Print the report.
    Report,
}

/// What the event loop does before it waits for events again.
#[derive(Clone, Copy, Debug, PartialEq, Eq, Structural)]
pub struct WaitPlan {
    /// Switch the render window's hit-testing (cursor polling changed it).
    pub hittest: Option<bool>,
    /// Render a frame now.
    pub render: bool,
    /// Nothing animates or polls: the loop first asks to wait for events.
    pub set_wait: bool,
    /// Wake up at this time at the latest.
    pub wake: u64,
}

/// How long the squash reaction to a click lasts.
pub const REACTION_NS: u64 = 250_000_000;
/// How long after a reaction frames are still drawn.
pub const REACTION_TAIL_NS: u64 = 50_000_000;
/// Frames per second while animating.
pub const FPS: u64 = 30;
/// Time between two frames.
pub const FRAME_NS: u64 = 1000 / FPS * 1_000_000;
/// Longest sleep while the cursor is polled.
pub const POLL_NS: u64 = 16_000_000;
/// Sleep when idle: tray menu events do not wake the loop, so it looks a few
/// times a second.
pub const IDLE_WAKE_NS: u64 = 250_000_000;
/// Latest time the controller accepts, so that no deadline it computes
/// overflows.
pub const CLOCK_LIMIT: u64 = u64::MAX - 1_000_000_000;

/// The controller's state.
#[derive(Clone, Copy, Debug, PartialEq, Eq, Structural)]
pub struct Controller {
    pub mode: Mode,
    /// Animation paused from the menu.
    pub paused: bool,
    /// The render window currently takes the cursor.
    pub hittest_on: bool,
    /// When hit-testing was last turned on, if it is on because of a switch.
    pub hittest_on_since: Option<u64>,
    /// How often hit-testing was switched.
    pub toggles: u32,
    pub press: Option<Press>,
    pub presses: u32,
    pub clicks: u32,
    /// Until when the click reaction plays.
    pub reaction_until: Option<u64>,
    /// When the next frame is due.
    pub next_frame: u64,
    /// The hit window of the two-window mode, if it is open.
    pub hit_window: Option<u64>,
    /// The program runs on macOS (the only platform where the cursor is polled).
    pub macos: bool,
}

/// A time the controller can compute deadlines from.
pub open spec fn time_ok(t: u64) -> bool {
    t <= CLOCK_LIMIT
}

impl Controller {
    /// The state holds deadlines that can be extended without overflow.
    pub open spec fn wf(self) -> bool {
        self.reaction_until matches Some(u) ==> u <= CLOCK_LIMIT + REACTION_NS
    }

    /// The state at start-up: polling on macOS, native hit-testing elsewhere.
    pub open spec fn initial(macos: bool) -> Controller {
        Controller {
            mode: if macos { Mode::Poll } else { Mode::Native },
            paused: false,
            hittest_on: true,
            hittest_on_since: None,
            toggles: 0,
            press: None,
            presses: 0,
            clicks: 0,
            reaction_until: None,
            next_frame: 0,
            hit_window: None,
            macos,
        }
    }

    /// Switching the render window's hit-testing to `on`: the new state, and
    /// whether anything changed (and the window system must be told).
    pub open spec fn hittest_step(self, on: bool, now: u64) -> (Controller, bool) {
        if self.hittest_on == on {
            (self, false)
        } else {
            (
                Controller {
                    hittest_on: on,
                    toggles: (self.toggles + 1) as u32,
                    hittest_on_since: if on { Some(now) } else { None },
                    ..self
                },
                true,
            )
        }
    }

    /// Applying the current mode.
    pub open spec fn apply_mode_step(self, now: u64) -> (Controller, ModeChange) {
        let cleared = Controller { hit_window: None, ..self };
        match self.mode {
            Mode::Native => (
                Controller { hittest_on: false, ..cleared }.hittest_step(true, now).0,
                ModeChange { hittest: Some(true), open_hit_window: false },
            ),
            Mode::Poll => (cleared, ModeChange { hittest: None, open_hit_window: false }),
            Mode::TwoWindow => (
                Controller { hittest_on: true, ..cleared }.hittest_step(false, now).0,
                ModeChange { hittest: Some(false), open_hit_window: true },
            ),
        }
    }

    /// Choosing `mode` from the menu.
    pub open spec fn choose_mode_step(self, mode: Mode, now: u64) -> (Controller, MenuReply) {
        let (c, change) = Controller { mode, ..self }.apply_mode_step(now);
        (c, MenuReply::ModeApplied { change })
    }

    /// Answering a menu event.
    pub open spec fn menu_step(self, item: MenuItem, now: u64) -> (Controller, MenuReply) {
        match item {
            MenuItem::Quit => (self, MenuReply::Quit),
            MenuItem::Pause => (
                Controller { paused: !self.paused, ..self },
                MenuReply::PauseToggled { paused: !self.paused },
            ),
            MenuItem::Native => self.choose_mode_step(Mode::Native, now),
            MenuItem::Poll => self.choose_mode_step(Mode::Poll, now),
            MenuItem::TwoWindow => self.choose_mode_step(Mode::TwoWindow, now),
            MenuItem::Report => (self, MenuReply::Report),
            MenuItem::Other => (self, MenuReply::Nothing),
        }
    }

    /// The event came from the hit window.
    pub open spec fn is_hit(self, window: u64) -> bool {
        self.hit_window == Some(window)
    }

    /// Answering event `input` of window `window` at time `now`.
    pub open spec fn event_step(self, window: u64, input: Input, now: u64) -> (Controller, Reply) {
        let is_hit = self.is_hit(window);
        match input {
            Input::CloseRequested => (self, Reply::Exit),
            Input::Moved => if is_hit {
                (self, Reply::FollowRenderToHitWindow)
            } else {
                (self, Reply::Nothing)
            },
            Input::CursorMoved { beyond_drag_threshold } => match self.press {
                Some(p) => if !p.dragging && beyond_drag_threshold {
                    (
                        Controller { press: Some(Press { dragging: true, window: p.window }), ..self },
                        Reply::StartDrag { on_hit_window: p.window == window && is_hit },
                    )
                } else {
                    (self, Reply::Nothing)
                },
                None => (self, Reply::Nothing),
            },
            Input::LeftPressed => (
                Controller {
                    presses: (self.presses + 1) as u32,
                    press: Some(Press { dragging: false, window }),
                    ..self
                },
                Reply::Pressed {
                    number: (self.presses + 1) as u32,
                    on_hit_window: is_hit,
                    hittest_on_since: self.hittest_on_since,
                },
            ),
            Input::LeftReleased => match self.press {
                None => (self, Reply::Nothing),
                Some(p) => if p.dragging {
                    (Controller { press: None, ..self }, Reply::DragEnded)
                } else {
                    (
                        Controller {
                            press: None,
                            clicks: (self.clicks + 1) as u32,
                            reaction_until: Some((now + REACTION_NS) as u64),
                            ..self
                        },
                        Reply::Clicked { number: (self.clicks + 1) as u32 },
                    )
                },
            },
            Input::RedrawRequested => if !is_hit {
                (self, Reply::Render)
            } else {
                (self, Reply::Nothing)
            },
            Input::Other => (self, Reply::Nothing),
        }
    }

    /// The event releases a press that did not become a drag: a click.
    pub open spec fn is_click(self, input: Input) -> bool {
        input is LeftReleased && (self.press matches Some(p) && !p.dragging)
    }

    /// The event at `now` overflows neither a counter nor the clock.
    pub open spec fn event_fits(self, input: Input, now: u64) -> bool {
        &&& input is LeftPressed ==> self.presses < u32::MAX
        &&& self.is_click(input) ==> self.clicks < u32::MAX && time_ok(now)
    }

    /// A frame is still being drawn at `now`: animation runs, or a reaction
    /// ended less than the reaction tail ago.
    pub open spec fn animating(self, now: u64) -> bool {
        !self.paused || (self.reaction_until matches Some(u) && now < u + REACTION_TAIL_NS)
    }

    /// Cursor polling switches hit-testing with this alpha under the cursor.
    pub open spec fn poll_switches(self, cursor_alpha: Option<u8>) -> bool {
        self.mode == Mode::Poll && cursor_alpha is Some && (cursor_alpha->0 > 0) != self.hittest_on
    }

    /// Before waiting: forget a press whose drag the window system took over,
    /// follow the cursor in poll mode (`cursor_alpha` is the alpha of the
    /// frame under the cursor, where the platform polls it), render if a frame
    /// is due, and choose when to wake.
    pub open spec fn wait_step(self, cursor_alpha: Option<u8>, now: u64) -> (Controller, WaitPlan) {
        let s1 = match self.press {
            Some(p) => if p.dragging { Controller { press: None, ..self } } else { self },
            None => self,
        };
        let polled = s1.mode == Mode::Poll && cursor_alpha is Some;
        let s2 = if polled { s1.hittest_step(cursor_alpha->0 > 0, now).0 } else { s1 };
        let hittest = if polled && s1.hittest_step(cursor_alpha->0 > 0, now).1 {
            Some(cursor_alpha->0 > 0)
        } else {
            None
        };
        let animating = s2.animating(now);
        let render = animating && now >= s2.next_frame;
        let s3 = if render { Controller { next_frame: (now + FRAME_NS) as u64, ..s2 } } else { s2 };
        let poll_needed = s3.mode == Mode::Poll && s3.macos;
        let wake: u64 = if animating {
            if poll_needed && now + POLL_NS < s3.next_frame {
                (now + POLL_NS) as u64
            } else {
                s3.next_frame
            }
        } else {
            (now + if poll_needed { POLL_NS } else { IDLE_WAKE_NS }) as u64
        };
        (s3, WaitPlan { hittest, render, set_wait: !animating && !poll_needed, wake })
    }
}


impl Controller {
    /// The controller at start-up.
    pub fn new(macos: bool) -> (c: Controller)
        ensures
            c == Controller::initial(macos),
            c.wf(),
    {
        Controller {
            mode: if macos { Mode::Poll } else { Mode::Native },
            paused: false,
            hittest_on: true,
            hittest_on_since: None,
            toggles: 0,
            press: None,
            presses: 0,
            clicks: 0,
            reaction_until: None,
            next_frame: 0,
            hit_window: None,
            macos,
        }
    }

    /// Switches the render window's hit-testing to `on`; `true` when that
    /// changed it, so the window system must be told.
    pub fn set_hittest(&mut self, on: bool, now: u64) -> (changed: bool)
        requires
            old(self).hittest_on != on ==> old(self).toggles < u32::MAX,
        ensures
            (*final(self), changed) == old(self).hittest_step(on, now),
    {
        if self.hittest_on == on {
            return false;
        }
        self.hittest_on = on;
        self.toggles = self.toggles + 1;
        self.hittest_on_since = if on { Some(now) } else { None };
        true
    }

    /// Applies the current mode: the hit window is dropped; native mode turns
    /// hit-testing on, two-window mode turns it off and opens a hit window,
    /// poll mode leaves it to the cursor.
    pub fn apply_mode(&mut self, now: u64) -> (change: ModeChange)
        requires
            old(self).mode != Mode::Poll ==> old(self).toggles < u32::MAX,
        ensures
            (*final(self), change) == old(self).apply_mode_step(now),
    {
        self.hit_window = None;
        match self.mode {
            Mode::Native => {
                self.hittest_on = false;
                self.set_hittest(true, now);
                ModeChange { hittest: Some(true), open_hit_window: false }
            },
            Mode::Poll => ModeChange { hittest: None, open_hit_window: false },
            Mode::TwoWindow => {
                self.hittest_on = true;
                self.set_hittest(false, now);
                ModeChange { hittest: Some(false), open_hit_window: true }
            },
        }
    }

    /// Records the hit window the event loop opened.
    pub fn attach_hit_window(&mut self, window: u64)
        ensures
            *final(self) == (Controller { hit_window: Some(window), ..*old(self) }),
    {
        self.hit_window = Some(window);
    }

    /// Answers a tray-menu event.
    pub fn menu_event(&mut self, item: MenuItem, now: u64) -> (reply: MenuReply)
        requires
            (item is Native || item is TwoWindow) ==> old(self).toggles < u32::MAX,
        ensures
            (*final(self), reply) == old(self).menu_step(item, now),
    {
        match item {
            MenuItem::Quit => MenuReply::Quit,
            MenuItem::Pause => {
                self.paused = !self.paused;
                MenuReply::PauseToggled { paused: self.paused }
            },
            MenuItem::Native => {
                self.mode = Mode::Native;
                let change = self.apply_mode(now);
                MenuReply::ModeApplied { change }
            },
            MenuItem::Poll => {
                self.mode = Mode::Poll;
                let change = self.apply_mode(now);
                MenuReply::ModeApplied { change }
            },
            MenuItem::TwoWindow => {
                self.mode = Mode::TwoWindow;
                let change = self.apply_mode(now);
                MenuReply::ModeApplied { change }
            },
            MenuItem::Report => MenuReply::Report,
            MenuItem::Other => MenuReply::Nothing,
        }
    }

    /// Answers event `input` of window `window`, received at `now`.
    pub fn window_event(&mut self, window: u64, input: Input, now: u64) -> (reply: Reply)
        requires
            old(self).event_fits(input, now),
        ensures
            (*final(self), reply) == old(self).event_step(window, input, now),
            old(self).wf() ==> final(self).wf(),
    {
        let is_hit = match self.hit_window {
            Some(h) => h == window,
            None => false,
        };
        match input {
            Input::CloseRequested => Reply::Exit,
            Input::Moved => if is_hit {
                Reply::FollowRenderToHitWindow
            } else {
                Reply::Nothing
            },
            Input::CursorMoved { beyond_drag_threshold } => match self.press {
                Some(p) => if !p.dragging && beyond_drag_threshold {
                    self.press = Some(Press { dragging: true, window: p.window });
                    Reply::StartDrag { on_hit_window: p.window == window && is_hit }
                } else {
                    Reply::Nothing
                },
                None => Reply::Nothing,
            },
            Input::LeftPressed => {
                self.presses = self.presses + 1;
                self.press = Some(Press { dragging: false, window });
                Reply::Pressed {
                    number: self.presses,
                    on_hit_window: is_hit,
                    hittest_on_since: self.hittest_on_since,
                }
            },
            Input::LeftReleased => match self.press {
                None => Reply::Nothing,
                Some(p) => {
                    self.press = None;
                    if p.dragging {
                        Reply::DragEnded
                    } else {
                        self.clicks = self.clicks + 1;
                        self.reaction_until = Some(now + REACTION_NS);
                        Reply::Clicked { number: self.clicks }
                    }
                },
            },
            Input::RedrawRequested => if !is_hit {
                Reply::Render
            } else {
                Reply::Nothing
            },
            Input::Other => Reply::Nothing,
        }
    }

    /// Whether the click reaction is playing at `now` (the frame is drawn
    /// squashed).
    pub fn reaction_playing(&self, now: u64) -> (playing: bool)
        ensures
            playing == (self.reaction_until matches Some(u) && now < u),
    {
        match self.reaction_until {
            Some(u) => now < u,
            None => false,
        }
    }

    /// Decides what happens before the event loop waits (see `wait_step`).
    pub fn about_to_wait(&mut self, cursor_alpha: Option<u8>, now: u64) -> (plan: WaitPlan)
        requires
            old(self).wf(),
            time_ok(now),
            old(self).poll_switches(cursor_alpha) ==> old(self).toggles < u32::MAX,
        ensures
            (*final(self), plan) == old(self).wait_step(cursor_alpha, now),
            final(self).wf(),
    {
        match self.press {
            Some(p) => if p.dragging {
                self.press = None;
            },
            None => {},
        }
        let mut hittest: Option<bool> = None;
        if self.mode == Mode::Poll {
            match cursor_alpha {
                Some(a) => {
                    let hit = a > 0;
                    if self.set_hittest(hit, now) {
                        hittest = Some(hit);
                    }
                },
                None => {},
            }
        }
        let animating = !self.paused || match self.reaction_until {
            Some(u) => now < u + REACTION_TAIL_NS,
            None => false,
        };
        let render = animating && now >= self.next_frame;
        if render {
            self.next_frame = now + FRAME_NS;
        }
        let poll_needed = self.mode == Mode::Poll && self.macos;
        let wake = if animating {
            if poll_needed && now + POLL_NS < self.next_frame {
                now + POLL_NS
            } else {
                self.next_frame
            }
        } else if poll_needed {
            now + POLL_NS
        } else {
            now + IDLE_WAKE_NS
        };
        WaitPlan { hittest, render, set_wait: !animating && !poll_needed, wake }
    }
}

/// Alpha of the hit window's fill: invisible but still hit-testable, or
/// faintly visible when the hitbox is being debugged.
pub fn hitbox_fill_alpha(debug: bool) -> (a: u8)
    ensures
        a == if debug { 60u8 } else { 1u8 },
        a > 0,
{
    if debug { 60 } else { 1 }
}


// ---------------------------------------------------------------------------
// Laws
// ---------------------------------------------------------------------------

/// Switching hit-testing to the state it already has changes nothing and
/// asks nothing of the window system; a real switch is counted once.
pub proof fn hittest_switch_counted_once(c: Controller, on: bool, t1: u64, t2: u64)
    requires
        c.toggles < u32::MAX,
    ensures
        c.hittest_step(on, t1).0.hittest_on == on,
        c.hittest_step(on, t1).1 == (c.hittest_on != on),
        c.hittest_step(on, t1).0.toggles == c.toggles + if c.hittest_on != on { 1int } else { 0int },
        c.hittest_step(on, t1).0.hittest_step(on, t2) == (c.hittest_step(on, t1).0, false),
{
}

/// Applying a mode drops the hit window; native mode leaves hit-testing on,
/// two-window mode leaves it off and asks for a hit window, and both count
/// one switch; poll mode leaves hit-testing as it was.
pub proof fn applying_a_mode(c: Controller, now: u64)
    requires
        c.toggles < u32::MAX,
    ensures
        c.apply_mode_step(now).0.hit_window is None,
        c.apply_mode_step(now).0.mode == c.mode,
        c.mode == Mode::Native ==> c.apply_mode_step(now).0.hittest_on
            && c.apply_mode_step(now).0.toggles == c.toggles + 1
            && !c.apply_mode_step(now).1.open_hit_window,
        c.mode == Mode::TwoWindow ==> !c.apply_mode_step(now).0.hittest_on
            && c.apply_mode_step(now).0.toggles == c.toggles + 1
            && c.apply_mode_step(now).1.open_hit_window,
        c.mode == Mode::Poll ==> c.apply_mode_step(now).0.hittest_on == c.hittest_on
            && c.apply_mode_step(now).1.hittest is None
            && !c.apply_mode_step(now).1.open_hit_window,
{
}

/// A press and a release with no drag in between is a click: it is counted,
/// and the reaction plays for its full length from the release.
pub proof fn press_release_is_click(c: Controller, w1: u64, w2: u64, t1: u64, t2: u64)
    requires
        c.presses < u32::MAX,
        c.clicks < u32::MAX,
        time_ok(t2),
    ensures
        ({
            let (c1, r1) = c.event_step(w1, Input::LeftPressed, t1);
            let (c2, r2) = c1.event_step(w2, Input::LeftReleased, t2);
            &&& r1 == Reply::Pressed {
                number: (c.presses + 1) as u32,
                on_hit_window: c.is_hit(w1),
                hittest_on_since: c.hittest_on_since,
            }
            &&& r2 == Reply::Clicked { number: (c.clicks + 1) as u32 }
            &&& c2.clicks == c.clicks + 1
            &&& c2.press is None
            &&& c2.reaction_until == Some((t2 + REACTION_NS) as u64)
            &&& c2.mode == c.mode && c2.hittest_on == c.hittest_on && c2.paused == c.paused
        }),
{
}

/// A press followed by a move past the drag threshold starts a drag of the
/// window it began on (the hit window only if it began there); releasing
/// then ends the drag without a click or a reaction.
pub proof fn press_move_release_is_drag(c: Controller, w: u64, w2: u64, w3: u64, t1: u64, t2: u64, t3: u64)
    requires
        c.presses < u32::MAX,
        time_ok(t3),
    ensures
        ({
            let (c1, _) = c.event_step(w, Input::LeftPressed, t1);
            let (c2, r2) = c1.event_step(w2, Input::CursorMoved { beyond_drag_threshold: true }, t2);
            let (c3, r3) = c2.event_step(w3, Input::LeftReleased, t3);
            &&& r2 == Reply::StartDrag { on_hit_window: w == w2 && c.is_hit(w2) }
            &&& r3 == Reply::DragEnded
            &&& c3.clicks == c.clicks
            &&& c3.reaction_until == c.reaction_until
            &&& c3.press is None
        }),
{
}

/// Moving the cursor without a press, or within the threshold, changes nothing.
pub proof fn move_without_drag_changes_nothing(c: Controller, w: u64, beyond: bool, t: u64)
    requires
        c.press is None || !beyond,
    ensures
        c.event_step(w, Input::CursorMoved { beyond_drag_threshold: beyond }, t) == (c, Reply::Nothing),
{
}

/// Pausing twice from the menu restores the state.
pub proof fn pause_twice_restores(c: Controller, t1: u64, t2: u64)
    ensures
        c.menu_step(MenuItem::Pause, t1).0.menu_step(MenuItem::Pause, t2).0 == c,
{
}

/// Before each wait: a drag the window system took over is forgotten, the
/// loop never plans to wake in the past, it wakes within the poll interval
/// while the cursor is polled, it sleeps the idle interval when nothing
/// animates or polls, and a rendered frame schedules the next one a frame
/// later.
pub proof fn waiting_is_timely(c: Controller, cursor_alpha: Option<u8>, now: u64)
    requires
        c.wf(),
        time_ok(now),
    ensures
        ({
            let (c1, p) = c.wait_step(cursor_alpha, now);
            &&& (c1.press matches Some(q) ==> !q.dragging)
            &&& p.wake > now
            &&& (c1.mode == Mode::Poll && c1.macos ==> p.wake <= now + POLL_NS)
            &&& (!c1.animating(now) && !(c1.mode == Mode::Poll && c1.macos) ==> p.wake == now + IDLE_WAKE_NS && p.set_wait)
            &&& (p.render ==> c1.next_frame == now + FRAME_NS)
            &&& (c1.animating(now) ==> p.wake <= c1.next_frame)
        }),
{
}

/// A click's reaction is drawn to its end: from the click until the
/// reaction and its tail are over, frames are drawn even while paused, and
/// the reaction plays exactly until its length has passed.
pub proof fn reaction_is_drawn(c: Controller, w: u64, t: u64, now: u64)
    requires
        c.press matches Some(p) && !p.dragging,
        c.clicks < u32::MAX,
        time_ok(t),
        t <= now < t + REACTION_NS + REACTION_TAIL_NS,
    ensures
        c.event_step(w, Input::LeftReleased, t).0.animating(now),
        c.event_step(w, Input::LeftReleased, t).0.reaction_until == Some((t + REACTION_NS) as u64),
{
}

/// No step of the controller takes back a count of presses, clicks or
/// hit-testing switches.
pub proof fn counts_only_grow(c: Controller, w: u64, input: Input, item: MenuItem, alpha: Option<u8>, now: u64)
    requires
        c.event_fits(input, now),
        c.toggles < u32::MAX,
        time_ok(now),
    ensures
        c.event_step(w, input, now).0.presses >= c.presses,
        c.event_step(w, input, now).0.clicks >= c.clicks,
        c.event_step(w, input, now).0.toggles == c.toggles,
        c.menu_step(item, now).0.presses == c.presses,
        c.menu_step(item, now).0.clicks == c.clicks,
        c.menu_step(item, now).0.toggles >= c.toggles,
        c.wait_step(alpha, now).0.presses == c.presses,
        c.wait_step(alpha, now).0.clicks == c.clicks,
        c.wait_step(alpha, now).0.toggles >= c.toggles,
{
}


/// Every click used up an earlier press: clicks, plus one for a press still
/// held, never exceed presses.
pub open spec fn presses_account_for_clicks(c: Controller) -> bool {
    c.clicks + (if c.press is Some { 1int } else { 0int }) <= c.presses
}

/// Clicks never outnumber presses: the start-up state accounts for its
/// clicks, and every window event, menu event and wait step keeps it so.
pub proof fn clicks_never_outnumber_presses(
    c: Controller,
    macos: bool,
    w: u64,
    input: Input,
    item: MenuItem,
    alpha: Option<u8>,
    now: u64,
)
    requires
        presses_account_for_clicks(c),
        input is LeftPressed ==> c.presses < u32::MAX,
        c.is_click(input) ==> c.clicks < u32::MAX,
    ensures
        presses_account_for_clicks(Controller::initial(macos)),
        presses_account_for_clicks(c.event_step(w, input, now).0),
        presses_account_for_clicks(c.menu_step(item, now).0),
        presses_account_for_clicks(c.wait_step(alpha, now).0),
        c.event_step(w, input, now).0.clicks <= c.event_step(w, input, now).0.presses,
{
}

/// The loop never sleeps longer than the idle interval, so the tray menu is
/// looked at again within it: if the next frame is due at most one frame
/// interval from now (as it is whenever it was scheduled at or before now),
/// the wake-up is at most the idle interval away, and the next frame stays
/// due within one frame interval.
pub proof fn wake_within_idle_interval(c: Controller, alpha: Option<u8>, now: u64)
    requires
        c.wf(),
        time_ok(now),
        c.next_frame <= now + FRAME_NS,
    ensures
        c.wait_step(alpha, now).1.wake <= now + IDLE_WAKE_NS,
        c.wait_step(alpha, now).0.next_frame <= now + FRAME_NS,
{
}

/// Window events and menu events leave the frame schedule alone, and the
/// start-up state has its first frame due at once.
pub proof fn frame_schedule_kept(c: Controller, macos: bool, w: u64, input: Input, item: MenuItem, now: u64)
    ensures
        Controller::initial(macos).next_frame == 0,
        c.event_step(w, input, now).0.next_frame == c.next_frame,
        c.menu_step(item, now).0.next_frame == c.next_frame,
{
}

/// Switching hit-testing to each value of `bs` in turn.
pub open spec fn switch_all(c: Controller, bs: Seq<bool>, now: u64) -> Controller
    decreases bs.len(),
{
    if bs.len() == 0 {
        c
    } else {
        switch_all(c.hittest_step(bs[0], now).0, bs.drop_first(), now)
    }
}

/// How many of the values `bs` differ from the one before (starting from `h0`).
pub open spec fn changes(h0: bool, bs: Seq<bool>) -> int
    decreases bs.len(),
{
    if bs.len() == 0 {
        0
    } else {
        (if bs[0] != h0 { 1int } else { 0int }) + changes(bs[0], bs.drop_first())
    }
}

/// Over a sequence of switches, the switch count grows by the number of real
/// changes, and hit-testing ends in the last state asked for.
pub proof fn switches_count_changes(c: Controller, bs: Seq<bool>, now: u64)
    requires
        c.toggles + changes(c.hittest_on, bs) <= u32::MAX,
    ensures
        switch_all(c, bs, now).toggles == c.toggles + changes(c.hittest_on, bs),
        switch_all(c, bs, now).hittest_on == if bs.len() == 0 { c.hittest_on } else { bs.last() },
    decreases bs.len(),
{
    if bs.len() > 0 {
        let c1 = c.hittest_step(bs[0], now).0;
        lemma_changes_bounded(bs[0], bs.drop_first());
        switches_count_changes(c1, bs.drop_first(), now);
        if bs.len() > 1 {
            assert(bs.drop_first().last() == bs.last());
        }
    }
}

proof fn lemma_changes_bounded(h0: bool, bs: Seq<bool>)
    ensures
        0 <= changes(h0, bs) <= bs.len(),
    decreases bs.len(),
{
    if bs.len() > 0 {
        lemma_changes_bounded(bs[0], bs.drop_first());
    }
}


// ---------------------------------------------------------------------------
// What each operation answers, in terms of its inputs
// ---------------------------------------------------------------------------

/// At start-up: polling on macOS and native hit-testing elsewhere, hit-testing
/// on, animation running, nothing counted, pressed or playing, no hit window,
/// and the first frame due at once.
pub proof fn start_up_state(macos: bool)
    ensures
        Controller::initial(macos).mode == (if macos { Mode::Poll } else { Mode::Native }),
        Controller::initial(macos).hittest_on,
        Controller::initial(macos).hittest_on_since is None,
        !Controller::initial(macos).paused,
        Controller::initial(macos).toggles == 0,
        Controller::initial(macos).presses == 0,
        Controller::initial(macos).clicks == 0,
        Controller::initial(macos).press is None,
        Controller::initial(macos).reaction_until is None,
        Controller::initial(macos).hit_window is None,
        Controller::initial(macos).next_frame == 0,
        Controller::initial(macos).macos == macos,
{
}

/// Switching hit-testing: it ends as asked, the window system is told exactly
/// when that changed it, a switch on records when, a switch off forgets it,
/// and nothing else of the state moves.
pub proof fn hittest_switch_answers(c: Controller, on: bool, now: u64)
    requires
        c.hittest_on != on ==> c.toggles < u32::MAX,
    ensures
        c.hittest_step(on, now).0.hittest_on == on,
        c.hittest_step(on, now).1 == (c.hittest_on != on),
        c.hittest_on != on ==> c.hittest_step(on, now).0.toggles == c.toggles + 1
            && c.hittest_step(on, now).0.hittest_on_since == (if on { Some(now) } else { None }),
        c.hittest_on == on ==> c.hittest_step(on, now).0 == c,
        c.hittest_step(on, now).0.mode == c.mode,
        c.hittest_step(on, now).0.press == c.press,
        c.hittest_step(on, now).0.presses == c.presses,
        c.hittest_step(on, now).0.clicks == c.clicks,
        c.hittest_step(on, now).0.paused == c.paused,
        c.hittest_step(on, now).0.hit_window == c.hit_window,
        c.hittest_step(on, now).0.reaction_until == c.reaction_until,
        c.hittest_step(on, now).0.next_frame == c.next_frame,
{
}

/// What each tray menu entry does. Choosing a mode applies it: native mode
/// switches hit-testing on (counting one switch even if it was on), two-window
/// mode switches it off (counting one switch) and asks for a hit window, poll
/// mode leaves it; every mode drops the hit window. Pause flips the pause;
/// report, quit and other events change nothing. No entry touches presses,
/// clicks, the press held, the reaction or the frame schedule.
pub proof fn menu_answers(c: Controller, item: MenuItem, now: u64)
    requires
        c.toggles < u32::MAX,
    ensures
        item == MenuItem::Native ==> c.menu_step(item, now) == (
            Controller {
                mode: Mode::Native,
                hittest_on: true,
                toggles: (c.toggles + 1) as u32,
                hittest_on_since: Some(now),
                hit_window: None,
                ..c
            },
            MenuReply::ModeApplied { change: ModeChange { hittest: Some(true), open_hit_window: false } },
        ),
        item == MenuItem::TwoWindow ==> c.menu_step(item, now) == (
            Controller {
                mode: Mode::TwoWindow,
                hittest_on: false,
                toggles: (c.toggles + 1) as u32,
                hittest_on_since: None,
                hit_window: None,
                ..c
            },
            MenuReply::ModeApplied { change: ModeChange { hittest: Some(false), open_hit_window: true } },
        ),
        item == MenuItem::Poll ==> c.menu_step(item, now) == (
            Controller { mode: Mode::Poll, hit_window: None, ..c },
            MenuReply::ModeApplied { change: ModeChange { hittest: None, open_hit_window: false } },
        ),
        item == MenuItem::Pause ==> c.menu_step(item, now) == (
            Controller { paused: !c.paused, ..c },
            MenuReply::PauseToggled { paused: !c.paused },
        ),
        item == MenuItem::Report ==> c.menu_step(item, now) == (c, MenuReply::Report),
        item == MenuItem::Quit ==> c.menu_step(item, now) == (c, MenuReply::Quit),
        item == MenuItem::Other ==> c.menu_step(item, now) == (c, MenuReply::Nothing),
{
}

/// Applying the current mode directly (at start-up) does what choosing it
/// from the menu does.
pub proof fn apply_mode_answers(c: Controller, now: u64)
    requires
        c.toggles < u32::MAX,
    ensures
        c.mode == Mode::Native ==> c.apply_mode_step(now) == (
            Controller {
                hittest_on: true,
                toggles: (c.toggles + 1) as u32,
                hittest_on_since: Some(now),
                hit_window: None,
                ..c
            },
            ModeChange { hittest: Some(true), open_hit_window: false },
        ),
        c.mode == Mode::TwoWindow ==> c.apply_mode_step(now) == (
            Controller {
                hittest_on: false,
                toggles: (c.toggles + 1) as u32,
                hittest_on_since: None,
                hit_window: None,
                ..c
            },
            ModeChange { hittest: Some(false), open_hit_window: true },
        ),
        c.mode == Mode::Poll ==> c.apply_mode_step(now) == (
            Controller { hit_window: None, ..c },
            ModeChange { hittest: None, open_hit_window: false },
        ),
{
}

/// What each window event is answered with. Closing leaves the loop; a move of
/// the hit window drags the render window after it, a move of any other
/// window does nothing; a redraw request of any window but the hit window
/// (also when there is none) renders, one of the hit window does nothing;
/// other events do nothing. None of these change the state.
pub proof fn window_event_answers(c: Controller, w: u64, now: u64)
    ensures
        c.event_step(w, Input::CloseRequested, now) == (c, Reply::Exit),
        c.hit_window == Some(w) ==> c.event_step(w, Input::Moved, now) == (c, Reply::FollowRenderToHitWindow),
        c.hit_window != Some(w) ==> c.event_step(w, Input::Moved, now) == (c, Reply::Nothing),
        c.hit_window != Some(w) ==> c.event_step(w, Input::RedrawRequested, now) == (c, Reply::Render),
        c.hit_window is None ==> c.event_step(w, Input::RedrawRequested, now) == (c, Reply::Render),
        c.hit_window == Some(w) ==> c.event_step(w, Input::RedrawRequested, now) == (c, Reply::Nothing),
        c.event_step(w, Input::Other, now) == (c, Reply::Nothing),
{
}

/// Presses and releases: a press is counted, remembered on its window and
/// reported with its number, whether it is on the hit window and since when
/// hit-testing is on; a release without a press does nothing; a release
/// after a drag forgets the press; a release after a press that did not move
/// is a click, counted, with the reaction playing from the release.
pub proof fn press_release_answers(c: Controller, w: u64, now: u64)
    requires
        c.presses < u32::MAX,
        c.clicks < u32::MAX,
        time_ok(now),
    ensures
        c.event_step(w, Input::LeftPressed, now) == (
            Controller { presses: (c.presses + 1) as u32, press: Some(Press { dragging: false, window: w }), ..c },
            Reply::Pressed {
                number: (c.presses + 1) as u32,
                on_hit_window: c.hit_window == Some(w),
                hittest_on_since: c.hittest_on_since,
            },
        ),
        c.press is None ==> c.event_step(w, Input::LeftReleased, now) == (c, Reply::Nothing),
        (c.press matches Some(p) && p.dragging) ==> c.event_step(w, Input::LeftReleased, now) == (
            Controller { press: None, ..c },
            Reply::DragEnded,
        ),
        (c.press matches Some(p) && !p.dragging) ==> c.event_step(w, Input::LeftReleased, now) == (
            Controller {
                press: None,
                clicks: (c.clicks + 1) as u32,
                reaction_until: Some((now + REACTION_NS) as u64),
                ..c
            },
            Reply::Clicked { number: (c.clicks + 1) as u32 },
        ),
{
}

/// Cursor moves: a held press that has not yet become a drag becomes one when
/// the cursor is past the threshold, and the window system drags the hit
/// window if the press began on it and the move came from it (else the render
/// window); in every other case a move changes nothing.
pub proof fn cursor_move_answers(c: Controller, w: u64, beyond: bool, now: u64)
    ensures
        (c.press matches Some(p) && !p.dragging && beyond) ==> c.event_step(
            w,
            Input::CursorMoved { beyond_drag_threshold: beyond },
            now,
        ) == (
            Controller { press: Some(Press { dragging: true, window: c.press->0.window }), ..c },
            Reply::StartDrag { on_hit_window: c.press->0.window == w && c.hit_window == Some(w) },
        ),
        !(c.press matches Some(p) && !p.dragging && beyond) ==> c.event_step(
            w,
            Input::CursorMoved { beyond_drag_threshold: beyond },
            now,
        ) == (c, Reply::Nothing),
{
}

/// Before each wait: frames are drawn while animation runs or a reaction (and
/// its tail) is still on, and one is rendered exactly when it is due; in poll
/// mode with an alpha under the cursor, hit-testing follows whether that alpha
/// is visible and the window system is told only of a change; the loop waits
/// for events only when nothing animates or polls; and it wakes at the next
/// frame while animating (sooner, after the poll interval, if polling), else
/// after the poll or the idle interval.
pub proof fn wait_answers(c: Controller, alpha: Option<u8>, now: u64)
    requires
        c.wf(),
        time_ok(now),
        c.mode == Mode::Poll && alpha is Some && (alpha->0 > 0) != c.hittest_on ==> c.toggles < u32::MAX,
    ensures
        ({
            let (c1, p) = c.wait_step(alpha, now);
            let animating = !c.paused || (c.reaction_until matches Some(u) && now < u + REACTION_TAIL_NS);
            let polling = c.mode == Mode::Poll && c.macos;
            let hit = c.mode == Mode::Poll && alpha is Some;
            &&& p.render == (animating && now >= c.next_frame)
            &&& c1.next_frame == (if p.render { (now + FRAME_NS) as u64 } else { c.next_frame })
            &&& p.set_wait == (!animating && !polling)
            &&& (hit ==> c1.hittest_on == (alpha->0 > 0))
            &&& (!hit ==> c1.hittest_on == c.hittest_on)
            &&& p.hittest == (if hit && (alpha->0 > 0) != c.hittest_on { Some(alpha->0 > 0) } else { None })
            &&& (animating && polling ==> p.wake == (if now + POLL_NS < c1.next_frame {
                now + POLL_NS
            } else {
                c1.next_frame as int
            }))
            &&& (animating && !polling ==> p.wake == c1.next_frame)
            &&& (!animating && polling ==> p.wake == now + POLL_NS)
            &&& (!animating && !polling ==> p.wake == now + IDLE_WAKE_NS)
            &&& (c.press matches Some(q) && q.dragging ==> c1.press is None)
            &&& (c.press matches Some(q) && !q.dragging ==> c1.press == c.press)
            &&& (c.press is None ==> c1.press is None)
            &&& c1.mode == c.mode && c1.paused == c.paused && c1.presses == c.presses
            &&& c1.clicks == c.clicks && c1.reaction_until == c.reaction_until
            &&& c1.hit_window == c.hit_window
        }),
{
}

} // verus!
