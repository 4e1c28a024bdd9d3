use vstd::prelude::*;

verus! {

/// What the music player is told to do.
#[derive(Clone, Copy, PartialEq, Eq, Structural, Debug)]
pub enum SinkCommand {
    Play,
    Pause,
}

/// How starting the background music went.
#[derive(Clone, Copy, PartialEq, Eq, Structural, Debug)]
pub enum MusicStart {
    /// No audio output could be opened.
    NoOutput,
    /// An output was opened but no player could be made on it.
    NoPlayer,
    /// None of the music files exists.
    NotFound,
    /// The music file could not be opened.
    OpenFailed,
    /// The music file could not be decoded.
    DecodeFailed,
    /// The music is playing.
    Playing,
}

/// The manager after a toggle while the player is `paused`.
pub open spec fn after_toggle(m: AudioManager, paused: bool) -> AudioManager {
    if m.has_player {
        AudioManager { has_player: true, enabled: paused }
    } else {
        m
    }
}

/// Whether the background music can be controlled and whether it is on.
pub struct AudioManager {
    pub has_player: bool,
    pub enabled: bool,
}

/// The index of the first `true` in `exists`: the first of the candidate
/// music files that exists.
pub fn first_existing(exists: &[bool]) -> (found: Option<usize>)
    ensures
        match found {
            Some(i) => i < exists@.len() && exists@[i as int] && forall|j: int|
                0 <= j < i ==> !exists@[j],
            None => forall|j: int| 0 <= j < exists@.len() ==> !exists@[j],
        },
{
    let n = exists.len();
    for i in 0..n
        invariant
            n == exists@.len(),
            forall|j: int| 0 <= j < i ==> !exists@[j],
    {
        if exists[i] {
            return Some(i);
        }
    }
    None
}

impl AudioManager {
    /// The state after trying to start the music: the music is on unless
    /// no output could be opened or the music could not be found, opened or
    /// decoded (a missing player leaves it nominally on), and it can be
    /// controlled when a player was made.
    pub fn new(start: MusicStart) -> (m: AudioManager)
        ensures
            m.has_player == !(start == MusicStart::NoOutput || start == MusicStart::NoPlayer),
            m.enabled == (start == MusicStart::NoPlayer || start == MusicStart::Playing),
    {
        match start {
            MusicStart::NoOutput => AudioManager { has_player: false, enabled: false },
            MusicStart::NoPlayer => AudioManager { has_player: false, enabled: true },
            MusicStart::Playing => AudioManager { has_player: true, enabled: true },
            _ => AudioManager { has_player: true, enabled: false },
        }
    }

    /// Switches the music: resumes it if `paused`, pauses it otherwise.
    /// Returns what the player must do; nothing when there is no player.
    pub fn toggle_music(&mut self, paused: bool) -> (command: Option<SinkCommand>)
        ensures
            *final(self) == after_toggle(*old(self), paused),
            !old(self).has_player ==> command is None,
            old(self).has_player ==> command == Some(
                if paused {
                    SinkCommand::Play
                } else {
                    SinkCommand::Pause
                },
            ),
    {
        if !self.has_player {
            return None;
        }
        if paused {
            self.enabled = true;
            Some(SinkCommand::Play)
        } else {
            self.enabled = false;
            Some(SinkCommand::Pause)
        }
    }

    /// Whether the music is on.
    pub fn is_enabled(&self) -> (on: bool)
        ensures
            on == self.enabled,
    {
        self.enabled
    }
}

/// When the music is on exactly when the player is not paused, toggling it
/// twice, the player's pause state following each command, leaves the
/// manager as it was.
pub proof fn lemma_toggle_twice(m: AudioManager, paused: bool)
    requires
        m.has_player ==> m.enabled == !paused,
    ensures
        after_toggle(after_toggle(m, paused), !paused) == m,
{
}

} // verus!
