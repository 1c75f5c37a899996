//! Rust (the game) combat detection from its process audio: which process
//! is listened to, and a generation counter that lets a stale capture stop
//! itself when the game closes or changes.
use vstd::prelude::*;

use crate::games::DetectedGame;

verus! {

/// The currently requested audio capture of the game Rust.
pub struct RustAudioEngine {
    active_pid: u32,
    generation: u64,
    capture_alive: bool,
}

/// What `RustAudioEngine::update_active_game` asks of the caller.
#[derive(Debug, PartialEq, Eq, Structural, Clone, Copy)]
pub enum AudioCaptureAction {
    /// Nothing changes.
    Keep,
    /// The running capture must stop (it sees a new generation).
    Stop,
    /// Start a capture of process `pid` tagged with `generation`.
    Start { pid: u32, generation: u64 },
}

impl RustAudioEngine {
    /// The process listened to (0 for none).
    pub closed spec fn pid(&self) -> u32 {
        self.active_pid
    }

    /// The current capture generation.
    pub closed spec fn current_generation(&self) -> u64 {
        self.generation
    }

    /// Whether a capture is believed to be running.
    pub closed spec fn alive(&self) -> bool {
        self.capture_alive
    }

    /// An engine listening to nothing.
    pub fn new() -> (r: Self)
        ensures
            r.pid() == 0,
            r.current_generation() == 0,
            !r.alive(),
    {
        RustAudioEngine { active_pid: 0, generation: 0, capture_alive: false }
    }

    /// The current capture generation.
    pub fn generation(&self) -> (r: u64)
        ensures
            r == self.current_generation(),
    {
        self.generation
    }

    /// Follows the active game: listens to Rust's process when audio
    /// detection is `enabled` and Rust is `active`, and to nothing otherwise.
    pub fn update_active_game(&mut self, enabled: bool, active: Option<&DetectedGame>) -> (r:
        AudioCaptureAction)
        requires
            old(self).current_generation() < u64::MAX,
        ensures
            ({
                let pid: u32 = if enabled && (active matches Some(g) && g.name@ == "Rust"@) {
                    active.unwrap().pid
                } else {
                    0
                };
                &&& final(self).pid() == pid
                &&& pid == 0 && old(self).pid() != 0 ==> {
                    &&& r == AudioCaptureAction::Stop
                    &&& final(self).current_generation() == old(self).current_generation() + 1
                    &&& !final(self).alive()
                }
                &&& pid == 0 && old(self).pid() == 0 ==> {
                    &&& r == AudioCaptureAction::Keep
                    &&& final(self).current_generation() == old(self).current_generation()
                    &&& final(self).alive() == old(self).alive()
                }
                &&& pid != 0 && pid == old(self).pid() && old(self).alive() ==> {
                    &&& r == AudioCaptureAction::Keep
                    &&& final(self).current_generation() == old(self).current_generation()
                    &&& final(self).alive()
                }
                &&& pid != 0 && !(pid == old(self).pid() && old(self).alive()) ==> {
                    &&& r == AudioCaptureAction::Start {
                        pid,
                        generation: (old(self).current_generation() + 1) as u64,
                    }
                    &&& final(self).current_generation() == old(self).current_generation() + 1
                    &&& final(self).alive()
                }
            }),
    {
        let is_rust = match active {
            Some(g) => g.name == String::from_str("Rust"),
            None => false,
        };
        let pid: u32 = if enabled && is_rust {
            match active {
                Some(g) => g.pid,
                None => 0,
            }
        } else {
            0
        };
        let previous_pid = self.active_pid;
        self.active_pid = pid;
        if pid == 0 {
            if previous_pid != 0 {
                self.generation = self.generation + 1;
                self.capture_alive = false;
                return AudioCaptureAction::Stop;
            }
            return AudioCaptureAction::Keep;
        }
        if pid == previous_pid && self.capture_alive {
            return AudioCaptureAction::Keep;
        }
        self.generation = self.generation + 1;
        self.capture_alive = true;
        AudioCaptureAction::Start { pid, generation: self.generation }
    }

    /// Whether a capture of `pid` tagged `generation` is still the wanted
    /// one.
    pub fn is_current(&self, pid: u32, generation: u64) -> (r: bool)
        ensures
            r == (self.pid() == pid && self.current_generation() == generation),
    {
        self.active_pid == pid && self.generation == generation
    }

    /// Records that the capture tagged `generation` stopped; a newer
    /// capture is unaffected.
    pub fn mark_capture_stopped(&mut self, generation: u64)
        ensures
            final(self).pid() == old(self).pid(),
            final(self).current_generation() == old(self).current_generation(),
            final(self).alive() == (old(self).alive() && generation != old(self).current_generation()),
    {
        if self.generation == generation {
            self.capture_alive = false;
        }
    }
}

} // verus!
