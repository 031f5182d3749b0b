//! Pausing the picture: by key, and by itself while the window is out of sight.

use vstd::prelude::*;

verus! {

/// What can pause the picture or end the pause.
#[derive(Clone, Copy, Debug, PartialEq, Eq, Structural)]
pub enum PauseEvent {
    /// The window system says that the window went away.
    Minimized,
    /// The window system says that the window came back.
    Restored,
    FocusLost,
    /// With whether the watcher still says that the window is away.
    FocusGained { still_minimized: bool },
    /// What the watcher says now.
    Watched { minimized: bool },
    /// The key.
    Key,
}

/// What the settings and the system say of pausing.
#[derive(Clone, Copy, Debug, PartialEq, Eq, Structural)]
pub struct PauseRules {
    pub on_minimize: bool,
    pub on_background: bool,
    /// Whether losing the focus is the only sign of a window that goes away:
    /// where windows are watched for that, and no watcher runs.
    pub focus_is_all: bool,
}

/// The state of the pause.
#[derive(Clone, Copy, Debug, PartialEq, Eq, Structural)]
pub struct PauseState {
    pub paused: bool,
    /// Whether the pause came by itself.
    pub by_itself: bool,
    /// Whether it came because the watcher saw the window go.
    pub by_watcher: bool,
    /// Whether the sound was muted when the pause began; so too where there was
    /// none.
    pub was_muted: bool,
    /// What the watcher said last.
    pub watched: bool,
}

/// What is to be done.
#[derive(Clone, Copy, Debug, PartialEq, Eq, Structural)]
pub struct PauseStep {
    /// Whether the picture has to be drawn anew.
    pub redraw: bool,
    /// What the mute has to become, where it has to change.
    pub mute: Option<bool>,
}

/// The state once a pause began. The sound is `None` where there is none, else
/// whether it is muted.
pub open spec fn begun(s: PauseState, sound: Option<bool>, by_itself: bool, by_watcher: bool) -> PauseState {
    PauseState {
        paused: true,
        by_itself,
        by_watcher,
        was_muted: match sound {
            Some(m) => m,
            None => true,
        },
        ..s
    }
}

/// The state once a pause ended.
pub open spec fn ended(s: PauseState) -> PauseState {
    PauseState { paused: false, by_itself: false, by_watcher: false, ..s }
}

/// What beginning a pause asks for.
pub open spec fn begin_step(sound: Option<bool>) -> PauseStep {
    PauseStep {
        redraw: true,
        mute: if sound == Some(false) {
            Some(true)
        } else {
            None
        },
    }
}

/// What ending a pause asks for.
pub open spec fn end_step(s: PauseState, sound: Option<bool>) -> PauseStep {
    PauseStep {
        redraw: true,
        mute: if sound is Some && !s.was_muted {
            Some(false)
        } else {
            None
        },
    }
}

/// What asks for nothing.
pub open spec fn idle() -> PauseStep {
    PauseStep { redraw: false, mute: None }
}

/// Whether an event begins a pause.
pub open spec fn begins(s: PauseState, e: PauseEvent, r: PauseRules) -> bool {
    !s.paused && match e {
        PauseEvent::Minimized => r.on_minimize,
        PauseEvent::FocusLost => r.on_background || (r.on_minimize && r.focus_is_all),
        PauseEvent::Watched { minimized } => minimized && !s.watched && r.on_minimize,
        PauseEvent::Key => true,
        _ => false,
    }
}

/// Whether an event ends a pause.
pub open spec fn ends(s: PauseState, e: PauseEvent) -> bool {
    s.paused && match e {
        PauseEvent::Restored => s.by_itself,
        PauseEvent::FocusGained { still_minimized } => s.by_itself && !still_minimized,
        PauseEvent::Watched { minimized } => !minimized && s.watched && s.by_itself
            && s.by_watcher,
        PauseEvent::Key => true,
        _ => false,
    }
}

/// What is kept of an event whether or not it begins or ends a pause.
pub open spec fn noted(s: PauseState, e: PauseEvent) -> PauseState {
    match e {
        PauseEvent::Watched { minimized } => PauseState { watched: minimized, ..s },
        _ => s,
    }
}

/// The state after an event.
pub open spec fn next(s: PauseState, e: PauseEvent, r: PauseRules, sound: Option<bool>) -> PauseState {
    if begins(s, e, r) {
        begun(
            noted(s, e),
            sound,
            e != PauseEvent::Key,
            if e is Watched {
                true
            } else if e == PauseEvent::Key {
                false
            } else {
                s.by_watcher
            },
        )
    } else if ends(s, e) {
        ended(noted(s, e))
    } else {
        noted(s, e)
    }
}

/// What an event asks for.
pub open spec fn step(s: PauseState, e: PauseEvent, r: PauseRules, sound: Option<bool>) -> PauseStep {
    if begins(s, e, r) {
        begin_step(sound)
    } else if ends(s, e) {
        end_step(s, sound)
    } else {
        idle()
    }
}

impl PauseState {
    /// The state at the start.
    pub fn new() -> (r: PauseState)
        ensures
            r == (PauseState {
                paused: false,
                by_itself: false,
                by_watcher: false,
                was_muted: false,
                watched: false,
            }),
    {
        PauseState {
            paused: false,
            by_itself: false,
            by_watcher: false,
            was_muted: false,
            watched: false,
        }
    }

    fn begin(&mut self, sound: Option<bool>, by_itself: bool, by_watcher: bool) -> (r: PauseStep)
        ensures
            *final(self) == begun(*old(self), sound, by_itself, by_watcher),
            r == begin_step(sound),
    {
        self.paused = true;
        self.by_itself = by_itself;
        self.by_watcher = by_watcher;
        self.was_muted = match sound {
            Some(m) => m,
            None => true,
        };
        PauseStep {
            redraw: true,
            mute: match sound {
                Some(false) => Some(true),
                _ => None,
            },
        }
    }

    fn end(&mut self, sound: Option<bool>) -> (r: PauseStep)
        ensures
            *final(self) == ended(*old(self)),
            r == end_step(*old(self), sound),
    {
        self.paused = false;
        self.by_itself = false;
        self.by_watcher = false;
        PauseStep {
            redraw: true,
            mute: if sound.is_some() && !self.was_muted {
                Some(false)
            } else {
                None
            },
        }
    }

    /// Takes an event in. The sound is `None` where there is none, else whether
    /// it is muted.
    pub fn handle(&mut self, e: PauseEvent, rules: PauseRules, sound: Option<bool>) -> (r:
        PauseStep)
        ensures
            *final(self) == next(*old(self), e, rules, sound),
            r == step(*old(self), e, rules, sound),
    {
        let by_watcher = self.by_watcher;
        match e {
            PauseEvent::Minimized => if rules.on_minimize && !self.paused {
                self.begin(sound, true, by_watcher)
            } else {
                PauseStep { redraw: false, mute: None }
            },
            PauseEvent::FocusLost => if (rules.on_background || (rules.on_minimize
                && rules.focus_is_all)) && !self.paused {
                self.begin(sound, true, by_watcher)
            } else {
                PauseStep { redraw: false, mute: None }
            },
            PauseEvent::Restored => if self.paused && self.by_itself {
                self.end(sound)
            } else {
                PauseStep { redraw: false, mute: None }
            },
            PauseEvent::FocusGained { still_minimized } => if self.paused && self.by_itself
                && !still_minimized {
                self.end(sound)
            } else {
                PauseStep { redraw: false, mute: None }
            },
            PauseEvent::Watched { minimized } => {
                let before = self.watched;
                self.watched = minimized;
                if minimized && !before && rules.on_minimize && !self.paused {
                    self.begin(sound, true, true)
                } else if !minimized && before && self.paused && self.by_itself
                    && self.by_watcher {
                    self.end(sound)
                } else {
                    PauseStep { redraw: false, mute: None }
                }
            },
            PauseEvent::Key => if self.paused {
                self.end(sound)
            } else {
                self.begin(sound, false, false)
            },
        }
    }
}

/// The mute after a step.
pub open spec fn mute_after(sound: Option<bool>, s: PauseStep) -> Option<bool> {
    match (sound, s.mute) {
        (Some(_), Some(m)) => Some(m),
        _ => sound,
    }
}

/// A pause takes the sound away, and its end gives back the mute that the user
/// had chosen.
pub proof fn law_pause_keeps_the_mute(
    s: PauseState,
    e: PauseEvent,
    f: PauseEvent,
    r: PauseRules,
    sound: Option<bool>,
)
    requires
        begins(s, e, r),
        ends(next(s, e, r, sound), f),
    ensures
        ({
            let paused = mute_after(sound, step(s, e, r, sound));
            let after = mute_after(paused, step(next(s, e, r, sound), f, r, paused));
            &&& sound is Some ==> paused == Some(true)
            &&& after == sound
        }),
{
}

/// A pause that the user began is ended by the key alone.
pub proof fn law_key_pause_stays(
    s: PauseState,
    e: PauseEvent,
    r: PauseRules,
    sound: Option<bool>,
)
    requires
        s.paused,
        !s.by_itself,
        e != PauseEvent::Key,
    ensures
        next(s, e, r, sound).paused,
        !next(s, e, r, sound).by_itself,
        step(s, e, r, sound) == idle(),
{
}

/// While the picture moves, no pause is held to have come by itself.
pub proof fn law_no_stale_pause(
    s: PauseState,
    e: PauseEvent,
    r: PauseRules,
    sound: Option<bool>,
)
    requires
        !s.paused ==> !s.by_itself && !s.by_watcher,
        s.by_watcher ==> s.by_itself,
    ensures
        !next(s, e, r, sound).paused ==> !next(s, e, r, sound).by_itself && !next(
            s,
            e,
            r,
            sound,
        ).by_watcher,
        next(s, e, r, sound).by_watcher ==> next(s, e, r, sound).by_itself,
{
}

} // verus!
