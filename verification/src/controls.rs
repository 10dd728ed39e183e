use vstd::prelude::*;
use vstd::string::StrSliceExecFns;

verus! {

/// The on/off switches of a game session that the keyboard drives.
#[derive(Clone, Copy, Debug, PartialEq, Eq, Structural)]
pub struct Flags {
    /// The simulation is frozen and the pause overlay is up.
    pub paused: bool,
    /// The controls panel is shown over the pause overlay.
    pub show_controls: bool,
    /// The gravity rings and the gravity text are shown.
    pub show_gravity_debug: bool,
    /// The player's ship has been destroyed.
    pub game_over: bool,
}

/// An input event, as far as the game tells events apart.
#[derive(Debug, PartialEq, Eq)]
pub enum Input {
    /// A key that produces text, with that text.
    Character(String),
    /// The space bar.
    Space,
    /// The left mouse button.
    LeftClick,
    /// Any other key or button.
    Other,
}

/// What an input asks the game to do.
#[derive(Clone, Copy, Debug, PartialEq, Eq, Structural)]
pub enum Command {
    TogglePause,
    ToggleControls,
    ToggleGravityDebug,
    Restart,
    Fire,
    ZoomIn,
    ZoomOut,
}

/// Work that a command hands to the engine, in the order given.
#[derive(Clone, Copy, Debug, PartialEq, Eq, Structural)]
pub enum Effect {
    /// Start the simulation again.
    Resume,
    /// Freeze the simulation.
    Pause,
    /// Place the pause overlay over the screen and show it.
    ShowPauseOverlay,
    /// Hide the pause overlay.
    HidePauseOverlay,
    /// Hide the controls panel.
    HideControlsPanel,
    /// Centre the controls panel and show it (`true`) or hide it (`false`).
    PlaceControlsPanel(bool),
    /// Show (`true`) or hide (`false`) every gravity ring and the gravity text.
    SetGravityOverlays(bool),
    /// Load the game scene again for a fresh game: the ship goes back to
    /// its spawn point at rest, with full hull and shield.
    ReloadScene,
    /// Fire the player's laser.
    FireLaser,
    /// Zoom the camera in by one step.
    ZoomIn,
    /// Zoom the camera out by one step, not beyond the widest view.
    ZoomOut,
}

/// The command an input stands for: `p`, `c`, `g`, `r`, `z` and `x` as
/// typed text, the space bar and the left mouse button; nothing for the rest.
pub open spec fn command_of(input: Input) -> Option<Command> {
    match input {
        Input::Character(s) => {
            if s@ == seq!['p'] {
                Some(Command::TogglePause)
            } else if s@ == seq!['c'] {
                Some(Command::ToggleControls)
            } else if s@ == seq!['g'] {
                Some(Command::ToggleGravityDebug)
            } else if s@ == seq!['r'] {
                Some(Command::Restart)
            } else if s@ == seq!['z'] {
                Some(Command::ZoomIn)
            } else if s@ == seq!['x'] {
                Some(Command::ZoomOut)
            } else {
                None
            }
        },
        Input::Space => Some(Command::Fire),
        Input::LeftClick => Some(Command::Fire),
        Input::Other => None,
    }
}

/// The switches of a fresh game: all off.
pub open spec fn fresh_flags() -> Flags {
    Flags { paused: false, show_controls: false, show_gravity_debug: false, game_over: false }
}

/// Whether a command starts a fresh game: the restart key, once the game is
/// over.
pub open spec fn restarts(f: Flags, cmd: Command) -> bool {
    cmd == Command::Restart && f.game_over
}

/// The controls panel is only ever up while the game is paused.
pub open spec fn flags_wf(f: Flags) -> bool {
    f.show_controls ==> f.paused
}

/// The switches after a command.
pub open spec fn flags_after(f: Flags, cmd: Command) -> Flags {
    match cmd {
        Command::TogglePause => {
            if f.game_over {
                f
            } else if f.paused {
                Flags { paused: false, show_controls: false, ..f }
            } else {
                Flags { paused: true, ..f }
            }
        },
        Command::ToggleControls => {
            if f.paused {
                Flags { show_controls: !f.show_controls, ..f }
            } else {
                f
            }
        },
        Command::ToggleGravityDebug => Flags { show_gravity_debug: !f.show_gravity_debug, ..f },
        Command::Restart => {
            if f.game_over {
                fresh_flags()
            } else {
                f
            }
        },
        _ => f,
    }
}

/// The engine work a command hands out, in order.
pub open spec fn effects_of(f: Flags, cmd: Command) -> Seq<Effect> {
    match cmd {
        Command::TogglePause => {
            if f.game_over {
                seq![]
            } else if f.paused {
                seq![Effect::Resume, Effect::HidePauseOverlay, Effect::HideControlsPanel]
            } else {
                seq![Effect::ShowPauseOverlay, Effect::Pause]
            }
        },
        Command::ToggleControls => {
            if f.paused {
                seq![Effect::PlaceControlsPanel(!f.show_controls)]
            } else {
                seq![]
            }
        },
        Command::ToggleGravityDebug => seq![Effect::SetGravityOverlays(!f.show_gravity_debug)],
        Command::Restart => {
            if f.game_over {
                seq![Effect::ReloadScene]
            } else {
                seq![]
            }
        },
        Command::Fire => seq![Effect::FireLaser],
        Command::ZoomIn => seq![Effect::ZoomIn],
        Command::ZoomOut => seq![Effect::ZoomOut],
    }
}

/// Tells which command an input stands for, if any.
pub fn command_for(input: &Input) -> (cmd: Option<Command>)
    ensures
        cmd == command_of(*input),
{
    match input {
        Input::Character(s) => {
            let t = s.as_str();
            if t.unicode_len() != 1 {
                proof {
                    assert(s@.len() != 1);
                    assert(s@ != seq!['p'] && s@ != seq!['c'] && s@ != seq!['g']);
                    assert(s@ != seq!['r'] && s@ != seq!['z'] && s@ != seq!['x']);
                }
                return None;
            }
            let ch = t.get_char(0);
            proof {
                assert(s@ == seq![ch]);
            }
            if ch == 'p' {
                Some(Command::TogglePause)
            } else if ch == 'c' {
                Some(Command::ToggleControls)
            } else if ch == 'g' {
                Some(Command::ToggleGravityDebug)
            } else if ch == 'r' {
                Some(Command::Restart)
            } else if ch == 'z' {
                Some(Command::ZoomIn)
            } else if ch == 'x' {
                Some(Command::ZoomOut)
            } else {
                None
            }
        },
        Input::Space => Some(Command::Fire),
        Input::LeftClick => Some(Command::Fire),
        Input::Other => None,
    }
}

impl Flags {
    /// The switches of a fresh session: all off.
    pub fn new() -> (f: Flags)
        ensures
            f == fresh_flags(),
            flags_wf(f),
    {
        Flags { paused: false, show_controls: false, show_gravity_debug: false, game_over: false }
    }

    /// Carries out a command on the switches and returns the engine work it
    /// calls for.
    pub fn apply(&mut self, cmd: Command) -> (effects: Vec<Effect>)
        ensures
            *final(self) == flags_after(*old(self), cmd),
            effects@ == effects_of(*old(self), cmd),
            flags_wf(*old(self)) ==> flags_wf(*final(self)),
    {
        let mut effects: Vec<Effect> = Vec::new();
        match cmd {
            Command::TogglePause => {
                if self.game_over {
                } else if self.paused {
                    self.paused = false;
                    self.show_controls = false;
                    effects.push(Effect::Resume);
                    effects.push(Effect::HidePauseOverlay);
                    effects.push(Effect::HideControlsPanel);
                } else {
                    self.paused = true;
                    effects.push(Effect::ShowPauseOverlay);
                    effects.push(Effect::Pause);
                }
            },
            Command::ToggleControls => {
                if self.paused {
                    self.show_controls = !self.show_controls;
                    effects.push(Effect::PlaceControlsPanel(self.show_controls));
                }
            },
            Command::ToggleGravityDebug => {
                self.show_gravity_debug = !self.show_gravity_debug;
                effects.push(Effect::SetGravityOverlays(self.show_gravity_debug));
            },
            Command::Restart => {
                if self.game_over {
                    *self = Flags::new();
                    effects.push(Effect::ReloadScene);
                }
            },
            Command::Fire => {
                effects.push(Effect::FireLaser);
            },
            Command::ZoomIn => {
                effects.push(Effect::ZoomIn);
            },
            Command::ZoomOut => {
                effects.push(Effect::ZoomOut);
            },
        }
        proof {
            assert(effects@ =~= effects_of(*old(self), cmd));
        }
        effects
    }
}

/// Pausing and then unpausing a running game gives back exactly the
/// switches it had, and hands the engine a freeze followed by a resume.
pub proof fn law_pause_twice_restores(f: Flags)
    requires
        flags_wf(f),
        !f.paused,
        !f.game_over,
    ensures
        flags_after(f, Command::TogglePause).paused,
        flags_after(flags_after(f, Command::TogglePause), Command::TogglePause) == f,
        effects_of(f, Command::TogglePause).contains(Effect::Pause),
        effects_of(flags_after(f, Command::TogglePause), Command::TogglePause).contains(Effect::Resume),
{
    assert(effects_of(f, Command::TogglePause)[1] == Effect::Pause);
    assert(effects_of(flags_after(f, Command::TogglePause), Command::TogglePause)[0] == Effect::Resume);
}

/// Every command keeps the controls panel confined to the pause screen.
pub proof fn law_controls_only_while_paused(f: Flags, cmd: Command)
    requires
        flags_wf(f),
    ensures
        flags_wf(flags_after(f, cmd)),
        flags_after(f, cmd).show_controls ==> flags_after(f, cmd).paused,
{
}

/// Once the game is over, neither the pause key nor the controls key changes
/// anything, and only the restart key reloads the scene, starting a fresh
/// game with every switch off.
pub proof fn law_game_over_locks_pause(f: Flags)
    requires
        flags_wf(f),
        f.game_over,
        !f.paused,
    ensures
        flags_after(f, Command::TogglePause) == f,
        effects_of(f, Command::TogglePause) == Seq::<Effect>::empty(),
        flags_after(f, Command::ToggleControls) == f,
        effects_of(f, Command::ToggleControls) == Seq::<Effect>::empty(),
        effects_of(f, Command::Restart) == seq![Effect::ReloadScene],
        flags_after(f, Command::Restart) == fresh_flags(),
{
}

/// The restart key reloads the scene exactly when the game is over, and then
/// the game plays again: every switch is off, game over included.  While the
/// game is still on, the key changes nothing.
pub proof fn law_restart_only_after_game_over(f: Flags)
    ensures
        effects_of(f, Command::Restart).contains(Effect::ReloadScene) <==> f.game_over,
        f.game_over ==> flags_after(f, Command::Restart) == fresh_flags(),
        f.game_over ==> !flags_after(f, Command::Restart).game_over
            && !flags_after(f, Command::Restart).paused,
        !f.game_over ==> flags_after(f, Command::Restart) == f,
{
    if f.game_over {
        assert(effects_of(f, Command::Restart)[0] == Effect::ReloadScene);
    }
}

/// The gravity key flips the gravity overlays whatever else is going on, and
/// pressing it twice leaves every switch as it was.
pub proof fn law_gravity_toggle_involution(f: Flags)
    ensures
        flags_after(f, Command::ToggleGravityDebug).show_gravity_debug == !f.show_gravity_debug,
        flags_after(flags_after(f, Command::ToggleGravityDebug), Command::ToggleGravityDebug) == f,
{
}

/// Only six typed texts are commands: `p`, `c`, `g`, `r`, `z` and `x`, one
/// command each.  Every other text, the movement keys among them, asks the
/// game for nothing.
pub proof fn law_only_six_keys_are_commands(text: String)
    ensures
        command_of(Input::Character(text)) is Some <==> (text@ == seq!['p'] || text@ == seq!['c']
            || text@ == seq!['g'] || text@ == seq!['r'] || text@ == seq!['z'] || text@ == seq!['x']),
        text@ == seq!['p'] ==> command_of(Input::Character(text)) == Some(Command::TogglePause),
        text@ == seq!['c'] ==> command_of(Input::Character(text)) == Some(Command::ToggleControls),
        text@ == seq!['g'] ==> command_of(Input::Character(text)) == Some(Command::ToggleGravityDebug),
        text@ == seq!['r'] ==> command_of(Input::Character(text)) == Some(Command::Restart),
        text@ == seq!['z'] ==> command_of(Input::Character(text)) == Some(Command::ZoomIn),
        text@ == seq!['x'] ==> command_of(Input::Character(text)) == Some(Command::ZoomOut),
        command_of(Input::Space) == Some(Command::Fire),
        command_of(Input::LeftClick) == Some(Command::Fire),
        command_of(Input::Other) is None,
{
    let t = text@;
    if t.len() == 1 {
        assert(t =~= seq![t[0]]);
    }
}

/// Firing and zooming never look at the switches: whether the game runs, is
/// paused or is over, the fire command hands out exactly one shot and the
/// zoom commands exactly one zoom step, and none of them changes a switch.
pub proof fn law_fire_and_zoom_ignore_switches(f: Flags)
    ensures
        effects_of(f, Command::Fire) == seq![Effect::FireLaser],
        flags_after(f, Command::Fire) == f,
        effects_of(f, Command::ZoomIn) == seq![Effect::ZoomIn],
        flags_after(f, Command::ZoomIn) == f,
        effects_of(f, Command::ZoomOut) == seq![Effect::ZoomOut],
        flags_after(f, Command::ZoomOut) == f,
{
}

} // verus!
