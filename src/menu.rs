use vstd::prelude::*;

verus! {

/// The views the panel can show; exactly one is current at a time.
#[derive(Clone, Copy, Debug, PartialEq, Eq, Structural)]
pub enum Screen {
    Splash,
    Clock,
    SystemStats,
    ShutdownPrompt,
    ShutdownConfirm,
    Blank,
}

/// What one tick's sample of the buttons reported. A held button fires on
/// every tick it is seen down.
#[derive(Clone, Copy, Debug, PartialEq, Eq, Structural)]
pub enum ButtonEvent {
    Key1Pressed,
    Key2Pressed,
    Key3Pressed,
    /// The confirm control, meaningful on the shutdown prompt only.
    Key4Pressed,
    NoPress,
}

/// The highlighted answer on the shutdown prompt.
#[derive(Clone, Copy, Debug, PartialEq, Eq, Structural)]
pub enum ShutdownChoice {
    No,
    Yes,
}

/// What the tick loop has to do after a tick was handled.
#[derive(Clone, Copy, Debug, PartialEq, Eq, Structural)]
pub enum Action {
    /// Nothing to send this tick.
    Nothing,
    /// Build a fresh frame of this screen and flush it.
    Render(Screen),
    /// The user confirmed the shutdown: power the system off.
    Shutdown,
}

impl ShutdownChoice {
    pub open spec fn toggled(self) -> ShutdownChoice {
        match self {
            ShutdownChoice::No => ShutdownChoice::Yes,
            ShutdownChoice::Yes => ShutdownChoice::No,
        }
    }

    /// The other choice.
    pub fn toggle(self) -> (r: ShutdownChoice)
        ensures
            r == self.toggled(),
    {
        match self {
            ShutdownChoice::No => ShutdownChoice::Yes,
            ShutdownChoice::Yes => ShutdownChoice::No,
        }
    }
}

/// The fixed table from buttons to the screens they select.
pub open spec fn key_screen(ev: ButtonEvent) -> Option<Screen> {
    match ev {
        ButtonEvent::Key1Pressed => Some(Screen::Clock),
        ButtonEvent::Key2Pressed => Some(Screen::SystemStats),
        ButtonEvent::Key3Pressed => Some(Screen::ShutdownPrompt),
        _ => None,
    }
}

/// The screen a button selects, if it selects one.
pub fn screen_for_key(ev: ButtonEvent) -> (r: Option<Screen>)
    ensures
        r == key_screen(ev),
{
    match ev {
        ButtonEvent::Key1Pressed => Some(Screen::Clock),
        ButtonEvent::Key2Pressed => Some(Screen::SystemStats),
        ButtonEvent::Key3Pressed => Some(Screen::ShutdownPrompt),
        _ => None,
    }
}

/// Minimum time between two renders of an unchanged screen, in
/// milliseconds; `None` means the screen is drawn once per entry.
pub open spec fn min_refresh_interval(s: Screen) -> Option<u64> {
    match s {
        Screen::Clock => Some(0),
        _ => None,
    }
}

pub fn refresh_interval(s: Screen) -> (r: Option<u64>)
    ensures
        r == min_refresh_interval(s),
{
    match s {
        Screen::Clock => Some(0),
        _ => None,
    }
}

/// Time from `since` to `now`; a clock that went backwards counts as no time.
pub open spec fn elapsed(since: u64, now: u64) -> u64 {
    if now >= since {
        (now - since) as u64
    } else {
        0
    }
}

/// The state of the menu: which screen is current and when it was last drawn.
#[derive(Clone, Copy, Debug, PartialEq, Eq, Structural)]
pub struct Menu {
    pub screen: Screen,
    pub choice: ShutdownChoice,
    /// Time of the last render or screen change, in milliseconds.
    pub last_render_ms: u64,
    /// The current screen has changed since it was last drawn.
    pub render_pending: bool,
}

/// Whether an idle tick at `now` has to draw the current screen.
pub open spec fn render_due(m: Menu, now: u64) -> bool {
    m.render_pending || match min_refresh_interval(m.screen) {
        Some(i) => elapsed(m.last_render_ms, now) >= i,
        None => false,
    }
}

/// The menu's transition: the state after a tick at `now` that saw `ev`,
/// and what the loop must do.
pub open spec fn step(m: Menu, ev: ButtonEvent, now: u64) -> (Menu, Action) {
    if m.screen == Screen::ShutdownPrompt && ev == ButtonEvent::Key3Pressed {
        (Menu { choice: m.choice.toggled(), last_render_ms: now, render_pending: true, ..m },
        Action::Nothing)
    } else if m.screen == Screen::ShutdownPrompt && ev == ButtonEvent::Key4Pressed {
        if m.choice == ShutdownChoice::Yes {
            (Menu {
                screen: Screen::ShutdownConfirm,
                last_render_ms: now,
                render_pending: true,
                ..m
            }, Action::Shutdown)
        } else {
            (Menu {
                screen: Screen::Clock,
                last_render_ms: now,
                render_pending: true,
                ..m
            }, Action::Nothing)
        }
    } else if key_screen(ev).is_some() {
        (Menu {
            screen: key_screen(ev).unwrap(),
            choice: ShutdownChoice::No,
            last_render_ms: now,
            render_pending: true,
        }, Action::Nothing)
    } else if render_due(m, now) {
        (Menu { last_render_ms: now, render_pending: false, ..m }, Action::Render(m.screen))
    } else {
        (m, Action::Nothing)
    }
}

impl Menu {
    /// The menu at start: the clock, due to be drawn.
    pub fn new(now: u64) -> (r: Menu)
        ensures
            r == (Menu {
                screen: Screen::Clock,
                choice: ShutdownChoice::No,
                last_render_ms: now,
                render_pending: true,
            }),
    {
        Menu {
            screen: Screen::Clock,
            choice: ShutdownChoice::No,
            last_render_ms: now,
            render_pending: true,
        }
    }

    /// Whether an idle tick at `now` draws the current screen.
    pub fn is_render_due(&self, now: u64) -> (r: bool)
        ensures
            r == render_due(*self, now),
    {
        if self.render_pending {
            return true;
        }
        match refresh_interval(self.screen) {
            Some(i) => {
                let e: u64 = if now >= self.last_render_ms {
                    now - self.last_render_ms
                } else {
                    0
                };
                e >= i
            },
            None => false,
        }
    }

    /// Handles one tick that saw `ev` at time `now`. A pressed button only
    /// changes the state; the new screen is drawn on the next idle tick.
    pub fn tick(&mut self, ev: ButtonEvent, now: u64) -> (r: Action)
        ensures
            (*final(self), r) == step(*old(self), ev, now),
    {
        if self.screen == Screen::ShutdownPrompt && ev == ButtonEvent::Key3Pressed {
            self.choice = self.choice.toggle();
            self.last_render_ms = now;
            self.render_pending = true;
            return Action::Nothing;
        }
        if self.screen == Screen::ShutdownPrompt && ev == ButtonEvent::Key4Pressed {
            self.last_render_ms = now;
            self.render_pending = true;
            if self.choice == ShutdownChoice::Yes {
                self.screen = Screen::ShutdownConfirm;
                return Action::Shutdown;
            } else {
                self.screen = Screen::Clock;
                return Action::Nothing;
            }
        }
        match screen_for_key(ev) {
            Some(s) => {
                self.screen = s;
                self.choice = ShutdownChoice::No;
                self.last_render_ms = now;
                self.render_pending = true;
                Action::Nothing
            },
            None => {
                if self.is_render_due(now) {
                    self.last_render_ms = now;
                    self.render_pending = false;
                    Action::Render(self.screen)
                } else {
                    Action::Nothing
                }
            },
        }
    }
}

/// Toggling the prompt's choice twice gives back the choice it started from.
pub proof fn lemma_toggle_twice(c: ShutdownChoice)
    ensures
        c.toggled().toggled() == c,
{
}

/// Two presses of the third key on the shutdown prompt leave the prompt
/// showing with the choice it had before them.
pub proof fn lemma_prompt_toggle_twice(m: Menu, t1: u64, t2: u64)
    requires
        m.screen == Screen::ShutdownPrompt,
    ensures
        step(step(m, ButtonEvent::Key3Pressed, t1).0, ButtonEvent::Key3Pressed, t2).0.choice
            == m.choice,
        step(step(m, ButtonEvent::Key3Pressed, t1).0, ButtonEvent::Key3Pressed, t2).0.screen
            == Screen::ShutdownPrompt,
{
}

/// Only a pressed button changes the current screen: an idle tick keeps it.
pub proof fn lemma_idle_keeps_screen(m: Menu, now: u64)
    ensures
        step(m, ButtonEvent::NoPress, now).0.screen == m.screen,
        step(m, ButtonEvent::NoPress, now).0.choice == m.choice,
{
}

/// A confirmed shutdown is requested only from the prompt with "Yes" chosen,
/// and it lands on the confirmation screen.
pub proof fn lemma_shutdown_only_on_yes(m: Menu, ev: ButtonEvent, now: u64)
    ensures
        step(m, ev, now).1 == Action::Shutdown <==> (m.screen == Screen::ShutdownPrompt
            && m.choice == ShutdownChoice::Yes && ev == ButtonEvent::Key4Pressed),
        step(m, ev, now).1 == Action::Shutdown ==> step(m, ev, now).0.screen
            == Screen::ShutdownConfirm,
{
}

} // verus!
