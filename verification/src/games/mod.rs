//! Game detection from top-level windows and automatic moment handling.
//! Prism only identifies a game by its window title and receives events
//! from documented APIs; it never reads or injects into a game process.
use vstd::prelude::*;

pub mod cs2;
pub mod database;
pub mod moment;
pub mod rust;
pub mod trigger;

use database::{find_entry_from, shows_title, EntryView, GameRegistry};

verus! {

/// A running game: its name and the id of the process owning its window.
#[derive(Debug, Clone, PartialEq, Eq)]
pub struct DetectedGame {
    pub name: String,
    pub pid: u32,
}

/// The value of an optional detected game.
pub open spec fn game_view(g: Option<DetectedGame>) -> Option<(Seq<char>, u32)> {
    match g {
        Some(d) => Some((d.name@, d.pid)),
        None => None,
    }
}

fn copy_game(g: &Option<DetectedGame>) -> (r: Option<DetectedGame>)
    ensures
        game_view(r) == game_view(*g),
{
    match g {
        Some(d) => Some(DetectedGame { name: d.name.clone(), pid: d.pid }),
        None => None,
    }
}

fn same_game(a: &Option<DetectedGame>, b: &Option<DetectedGame>) -> (r: bool)
    ensures
        r == (game_view(*a) == game_view(*b)),
{
    match (a, b) {
        (Some(x), Some(y)) => x.name == y.name && x.pid == y.pid,
        (None, None) => true,
        _ => false,
    }
}

/// What one detection pass changed: the game that went away, the game that
/// appeared, and whether Counter-Strike 2 is the active game (its
/// integration config must then be in place).
pub struct GameChange {
    pub lost: Option<DetectedGame>,
    pub found: Option<DetectedGame>,
    pub cs2_active: bool,
}

/// Tracks the game window currently available to the detectors.
pub struct GameDetector {
    active: Option<DetectedGame>,
    polling: bool,
}

impl GameDetector {
    /// The active game.
    pub closed spec fn active(&self) -> Option<(Seq<char>, u32)> {
        game_view(self.active)
    }

    /// Whether polling was started.
    pub closed spec fn is_polling(&self) -> bool {
        self.polling
    }

    /// A detector with no active game, not polling.
    pub fn new() -> (r: Self)
        ensures
            r.active() is None,
            !r.is_polling(),
    {
        GameDetector { active: None, polling: false }
    }

    /// The active game, if any.
    pub fn active_game(&self) -> (r: Option<DetectedGame>)
        ensures
            game_view(r) == self.active(),
    {
        copy_game(&self.active)
    }

    /// Makes `next` the active game. Returns nothing if it already was;
    /// otherwise the game that was active before.
    pub fn set_active_game(&mut self, next: Option<DetectedGame>) -> (r: Option<Option<DetectedGame>>)
        ensures
            final(self).active() == game_view(next),
            final(self).is_polling() == old(self).is_polling(),
            old(self).active() == game_view(next) ==> r is None,
            old(self).active() != game_view(next) ==> (r matches Some(prev) && game_view(prev) == old(
                self,
            ).active()),
    {
        if same_game(&self.active, &next) {
            return None;
        }
        let previous = copy_game(&self.active);
        self.active = next;
        Some(previous)
    }

    /// Marks polling started; returns whether it already was (then no
    /// second poller must start).
    pub fn begin_polling(&mut self) -> (was_polling: bool)
        ensures
            was_polling == old(self).is_polling(),
            final(self).is_polling(),
            final(self).active() == old(self).active(),
    {
        let was = self.polling;
        self.polling = true;
        was
    }

    /// One detection pass: the active game becomes `detected` when
    /// detection is enabled and none otherwise; reports what changed.
    pub fn observe(&mut self, detection_enabled: bool, detected: Option<DetectedGame>) -> (r: GameChange)
        ensures
            final(self).active() == (if detection_enabled { game_view(detected) } else { None }),
            final(self).is_polling() == old(self).is_polling(),
            old(self).active() == final(self).active() ==> r.lost is None && r.found is None,
            old(self).active() != final(self).active() ==> game_view(r.lost) == old(self).active()
                && game_view(r.found) == final(self).active(),
            r.cs2_active == (final(self).active() matches Some(g) && g.0 == "Counter-Strike 2"@),
    {
        let next = if detection_enabled {
            detected
        } else {
            None
        };
        let next_copy = copy_game(&next);
        let cs2_active = match &next {
            Some(g) => g.name == String::from_str("Counter-Strike 2"),
            None => false,
        };
        match self.set_active_game(next) {
            Some(previous) => GameChange { lost: previous, found: next_copy, cs2_active },
            None => GameChange { lost: None, found: None, cs2_active },
        }
    }
}

/// A visible top-level window: its title and the process owning it.
pub struct WindowInfo {
    pub title: String,
    pub pid: u32,
}

/// The registered game a window title shows (the first that matches).
pub open spec fn game_for_title(registry: Seq<EntryView>, title: Seq<char>) -> Option<int> {
    find_entry_from(registry, |g: EntryView| shows_title(g, title), 0)
}

/// The first window from `k` on whose title shows a registered game, with
/// that game's index.
pub open spec fn first_game_window(registry: Seq<EntryView>, windows: Seq<WindowInfo>, k: int) -> Option<(int, int)>
    decreases windows.len() - k,
{
    if k < 0 || k >= windows.len() {
        None
    } else {
        match game_for_title(registry, windows[k].title@) {
            Some(i) => Some((k, i)),
            None => first_game_window(registry, windows, k + 1),
        }
    }
}

/// The running game: the one shown by the first visible window (in
/// enumeration order) whose title a registered game matches.
pub fn detect_running_game(registry: &GameRegistry, windows: &[WindowInfo]) -> (r: Option<DetectedGame>)
    ensures
        match first_game_window(registry@, windows@, 0) {
            Some((w, i)) => r matches Some(d) && d.name@ == registry@[i].name && d.pid == windows@[w].pid,
            None => r is None,
        },
{
    let mut k: usize = 0;
    while k < windows.len()
        invariant
            k <= windows@.len(),
            first_game_window(registry@, windows@, k as int) == first_game_window(registry@, windows@, 0),
        decreases windows@.len() - k,
    {
        match registry.detect_by_window_title(windows[k].title.as_str()) {
            Some(g) => {
                return Some(DetectedGame { name: g.name, pid: windows[k].pid });
            },
            None => {},
        }
        k += 1;
    }
    None
}

} // verus!
