//! Known games: titles, process names and window titles, and the registry
//! that detects them.
use vstd::prelude::*;

use crate::text::{chars_contains, chars_eq, chars_of, contains_seq, lowercase, to_lowercase};

verus! {

/// A known game.
#[derive(Debug, Clone)]
pub struct GameEntry {
    /// Display name.
    pub name: String,
    /// Process names to match against (e.g. "RustClient.exe", "Rust").
    pub process_names: Vec<String>,
    /// Window title substrings to match (e.g. "Rust").
    pub window_titles: Vec<String>,
    /// Whether auto-clipping is enabled for this game.
    pub auto_clip_enabled: bool,
}

/// The value of a game entry.
pub struct EntryView {
    pub name: Seq<char>,
    pub process_names: Seq<Seq<char>>,
    pub window_titles: Seq<Seq<char>>,
    pub auto_clip_enabled: bool,
}

/// The characters of each string.
pub open spec fn strs(v: Seq<String>) -> Seq<Seq<char>> {
    v.map_values(|s: String| s@)
}

impl View for GameEntry {
    type V = EntryView;

    open spec fn view(&self) -> EntryView {
        EntryView {
            name: self.name@,
            process_names: strs(self.process_names@),
            window_titles: strs(self.window_titles@),
            auto_clip_enabled: self.auto_clip_enabled,
        }
    }
}

/// The values of a sequence of entries.
pub open spec fn entry_views(s: Seq<GameEntry>) -> Seq<EntryView> {
    s.map_values(|g: GameEntry| g@)
}

/// The built-in games: Rust, Counter-Strike 2, Valorant and Apex Legends,
/// none with auto-clipping enabled.
pub open spec fn known_game_views() -> Seq<EntryView> {
    seq![
        EntryView {
            name: "Rust"@,
            process_names: seq!["RustClient.exe"@, "Rust"@, "rust"@],
            window_titles: seq!["Rust"@],
            auto_clip_enabled: false,
        },
        EntryView {
            name: "Counter-Strike 2"@,
            process_names: seq!["cs2.exe"@, "cs2"@],
            window_titles: seq!["Counter-Strike 2"@, "CS2"@],
            auto_clip_enabled: false,
        },
        EntryView {
            name: "Valorant"@,
            process_names: seq!["VALORANT.exe"@, "VALORANT"@],
            window_titles: seq!["VALORANT"@],
            auto_clip_enabled: false,
        },
        EntryView {
            name: "Apex Legends"@,
            process_names: seq!["r5apex.exe"@, "r5apex"@],
            window_titles: seq!["Apex Legends"@],
            auto_clip_enabled: false,
        },
    ]
}

fn strings(a: &str, b: &str, c: &str, n: usize) -> (r: Vec<String>)
    requires
        1 <= n <= 3,
    ensures
        n == 1 ==> strs(r@) == seq![a@],
        n == 2 ==> strs(r@) == seq![a@, b@],
        n == 3 ==> strs(r@) == seq![a@, b@, c@],
{
    let mut v: Vec<String> = Vec::new();
    v.push(a.to_owned());
    if n >= 2 {
        v.push(b.to_owned());
    }
    if n >= 3 {
        v.push(c.to_owned());
    }
    assert(n == 1 ==> strs(v@) =~= seq![a@]);
    assert(n == 2 ==> strs(v@) =~= seq![a@, b@]);
    assert(n == 3 ==> strs(v@) =~= seq![a@, b@, c@]);
    v
}

fn copy_strings(v: &Vec<String>) -> (r: Vec<String>)
    ensures
        r@ == v@,
{
    let mut out: Vec<String> = Vec::new();
    let mut i: usize = 0;
    while i < v.len()
        invariant
            i <= v@.len(),
            out@ == v@.subrange(0, i as int),
        decreases v@.len() - i,
    {
        out.push(v[i].clone());
        i += 1;
        assert(out@ =~= v@.subrange(0, i as int));
    }
    assert(v@.subrange(0, i as int) =~= v@);
    out
}

impl GameEntry {
    /// An equal entry with its own strings.
    pub fn duplicate(&self) -> (r: Self)
        ensures
            r@ == self@,
    {
        GameEntry {
            name: self.name.clone(),
            process_names: copy_strings(&self.process_names),
            window_titles: copy_strings(&self.window_titles),
            auto_clip_enabled: self.auto_clip_enabled,
        }
    }

    /// The built-in games.
    pub fn known_games() -> (r: Vec<Self>)
        ensures
            entry_views(r@) == known_game_views(),
    {
        let mut v: Vec<GameEntry> = Vec::new();
        v.push(
            GameEntry {
                name: String::from_str("Rust"),
                process_names: strings("RustClient.exe", "Rust", "rust", 3),
                window_titles: strings("Rust", "", "", 1),
                auto_clip_enabled: false,
            },
        );
        v.push(
            GameEntry {
                name: String::from_str("Counter-Strike 2"),
                process_names: strings("cs2.exe", "cs2", "", 2),
                window_titles: strings("Counter-Strike 2", "CS2", "", 2),
                auto_clip_enabled: false,
            },
        );
        v.push(
            GameEntry {
                name: String::from_str("Valorant"),
                process_names: strings("VALORANT.exe", "VALORANT", "", 2),
                window_titles: strings("VALORANT", "", "", 1),
                auto_clip_enabled: false,
            },
        );
        v.push(
            GameEntry {
                name: String::from_str("Apex Legends"),
                process_names: strings("r5apex.exe", "r5apex", "", 2),
                window_titles: strings("Apex Legends", "", "", 1),
                auto_clip_enabled: false,
            },
        );
        assert(entry_views(v@) =~= known_game_views());
        v
    }
}

/// Index of the first entry at or after `from` satisfying `p`.
pub open spec fn find_entry_from(s: Seq<EntryView>, p: spec_fn(EntryView) -> bool, from: int) -> Option<
    int,
>
    decreases s.len() - from,
{
    if from < 0 || from >= s.len() {
        None
    } else if p(s[from]) {
        Some(from)
    } else {
        find_entry_from(s, p, from + 1)
    }
}

/// One of the game's process names equals `name`, ignoring case.
pub open spec fn runs_as(g: EntryView, name: Seq<char>) -> bool {
    exists|j: int| 0 <= j < g.process_names.len() && lowercase(#[trigger] g.process_names[j]) == lowercase(name)
}

/// One of the game's window title parts occurs in `title`, ignoring case.
pub open spec fn shows_title(g: EntryView, title: Seq<char>) -> bool {
    exists|j: int|
        0 <= j < g.window_titles.len() && contains_seq(lowercase(title), lowercase(#[trigger] g.window_titles[j]))
}

proof fn lemma_find_entry_bounds(s: Seq<EntryView>, p: spec_fn(EntryView) -> bool, from: int)
    requires
        0 <= from,
    ensures
        find_entry_from(s, p, from) matches Some(i) ==> from <= i < s.len() && p(s[i]),
    decreases s.len() - from,
{
    if from < s.len() && !p(s[from]) {
        lemma_find_entry_bounds(s, p, from + 1);
    }
}

/// Where the scan for a game that runs as `name` stops in `s`.
pub open spec fn found_by_process(s: Seq<EntryView>, name: Seq<char>) -> Option<int> {
    find_entry_from(s, |g: EntryView| runs_as(g, name), 0)
}

/// A scan from `from` finds a match at or before any matching entry `k`.
proof fn lemma_find_entry_reaches(s: Seq<EntryView>, p: spec_fn(EntryView) -> bool, from: int, k: int)
    requires
        0 <= from <= k < s.len(),
        p(s[k]),
    ensures
        find_entry_from(s, p, from) matches Some(i) && from <= i <= k && p(s[i]),
    decreases k - from,
{
    if !p(s[from]) {
        lemma_find_entry_reaches(s, p, from + 1, k);
    }
}

/// A game whose process names include `name` runs as `name`.
proof fn lemma_runs_as_listed(g: EntryView, name: Seq<char>, j: int)
    requires
        0 <= j < g.process_names.len(),
        g.process_names[j] == name,
    ensures
        runs_as(g, name),
{
    assert(lowercase(g.process_names[j]) == lowercase(name));
}

/// Law of the built-in games (`GameRegistry::new`): Rust runs as
/// `RustClient.exe`, `Rust` and `rust`; Counter-Strike 2 as `cs2.exe` and
/// `cs2`; Valorant as `VALORANT.exe` and `VALORANT`; Apex Legends as
/// `r5apex.exe` and `r5apex`. Detection by each of these names succeeds:
/// Rust, listed first, is found for its names, and each other game is found
/// for its names unless a game listed before it also runs under that name.
pub proof fn lemma_builtin_games_are_detected()
    ensures
        known_game_views().len() == 4,
        known_game_views()[0].name == "Rust"@,
        known_game_views()[1].name == "Counter-Strike 2"@,
        known_game_views()[2].name == "Valorant"@,
        known_game_views()[3].name == "Apex Legends"@,
        runs_as(known_game_views()[0], "RustClient.exe"@),
        runs_as(known_game_views()[0], "Rust"@),
        runs_as(known_game_views()[0], "rust"@),
        runs_as(known_game_views()[1], "cs2.exe"@),
        runs_as(known_game_views()[1], "cs2"@),
        runs_as(known_game_views()[2], "VALORANT.exe"@),
        runs_as(known_game_views()[2], "VALORANT"@),
        runs_as(known_game_views()[3], "r5apex.exe"@),
        runs_as(known_game_views()[3], "r5apex"@),
        found_by_process(known_game_views(), "RustClient.exe"@) == Some(0int),
        found_by_process(known_game_views(), "Rust"@) == Some(0int),
        found_by_process(known_game_views(), "rust"@) == Some(0int),
        found_by_process(known_game_views(), "cs2.exe"@) matches Some(i) && i <= 1,
        found_by_process(known_game_views(), "cs2"@) matches Some(i) && i <= 1,
        found_by_process(known_game_views(), "VALORANT.exe"@) matches Some(i) && i <= 2,
        found_by_process(known_game_views(), "VALORANT"@) matches Some(i) && i <= 2,
        found_by_process(known_game_views(), "r5apex.exe"@) matches Some(i) && i <= 3,
        found_by_process(known_game_views(), "r5apex"@) matches Some(i) && i <= 3,
{
    let s = known_game_views();
    lemma_runs_as_listed(s[0], "RustClient.exe"@, 0);
    lemma_runs_as_listed(s[0], "Rust"@, 1);
    lemma_runs_as_listed(s[0], "rust"@, 2);
    lemma_runs_as_listed(s[1], "cs2.exe"@, 0);
    lemma_runs_as_listed(s[1], "cs2"@, 1);
    lemma_runs_as_listed(s[2], "VALORANT.exe"@, 0);
    lemma_runs_as_listed(s[2], "VALORANT"@, 1);
    lemma_runs_as_listed(s[3], "r5apex.exe"@, 0);
    lemma_runs_as_listed(s[3], "r5apex"@, 1);
    lemma_find_entry_reaches(s, |g: EntryView| runs_as(g, "cs2.exe"@), 0, 1);
    lemma_find_entry_reaches(s, |g: EntryView| runs_as(g, "cs2"@), 0, 1);
    lemma_find_entry_reaches(s, |g: EntryView| runs_as(g, "VALORANT.exe"@), 0, 2);
    lemma_find_entry_reaches(s, |g: EntryView| runs_as(g, "VALORANT"@), 0, 2);
    lemma_find_entry_reaches(s, |g: EntryView| runs_as(g, "r5apex.exe"@), 0, 3);
    lemma_find_entry_reaches(s, |g: EntryView| runs_as(g, "r5apex"@), 0, 3);
}

/// The registry of games that can be detected.
pub struct GameRegistry {
    games: Vec<GameEntry>,
}

impl View for GameRegistry {
    type V = Seq<EntryView>;

    closed spec fn view(&self) -> Seq<EntryView> {
        entry_views(self.games@)
    }
}

impl GameRegistry {
    /// A registry of the built-in games.
    pub fn new() -> (r: Self)
        ensures
            r@ == known_game_views(),
    {
        GameRegistry { games: GameEntry::known_games() }
    }

    /// The game one of whose process names equals `process_name`, ignoring
    /// case (the first such game).
    pub fn detect_by_process(&self, process_name: &str) -> (r: Option<GameEntry>)
        ensures
            match find_entry_from(self@, |g: EntryView| runs_as(g, process_name@), 0) {
                Some(i) => r matches Some(g) && g@ == self@[i],
                None => r is None,
            },
    {
        let lower = chars_of(to_lowercase(process_name).as_str());
        let ghost p = |g: EntryView| runs_as(g, process_name@);
        let mut i: usize = 0;
        while i < self.games.len()
            invariant
                i <= self.games@.len(),
                lower@ == lowercase(process_name@),
                p == (|g: EntryView| runs_as(g, process_name@)),
                find_entry_from(self@, p, i as int) == find_entry_from(self@, p, 0),
            decreases self.games@.len() - i,
        {
            let g = &self.games[i];
            let mut j: usize = 0;
            let mut found = false;
            while j < g.process_names.len()
                invariant
                    j <= g.process_names@.len(),
                    lower@ == lowercase(process_name@),
                    found ==> runs_as(g@, process_name@),
                    !found ==> forall|k: int|
                        0 <= k < j ==> lowercase(#[trigger] g@.process_names[k]) != lowercase(process_name@),
                decreases g.process_names@.len() - j,
            {
                let candidate = chars_of(to_lowercase(g.process_names[j].as_str()).as_str());
                if chars_eq(candidate.as_slice(), lower.as_slice()) {
                    assert(g@.process_names[j as int] == g.process_names@[j as int]@);
                    found = true;
                }
                j += 1;
            }
            if found {
                return Some(g.duplicate());
            }
            proof {
                assert(!runs_as(g@, process_name@));
                assert(self@[i as int] == g@);
            }
            i += 1;
        }
        None
    }

    /// The game one of whose window title parts occurs in `title`, ignoring
    /// case (the first such game).
    pub fn detect_by_window_title(&self, title: &str) -> (r: Option<GameEntry>)
        ensures
            match find_entry_from(self@, |g: EntryView| shows_title(g, title@), 0) {
                Some(i) => r matches Some(g) && g@ == self@[i],
                None => r is None,
            },
    {
        let lower = chars_of(to_lowercase(title).as_str());
        let ghost p = |g: EntryView| shows_title(g, title@);
        let mut i: usize = 0;
        while i < self.games.len()
            invariant
                i <= self.games@.len(),
                lower@ == lowercase(title@),
                p == (|g: EntryView| shows_title(g, title@)),
                find_entry_from(self@, p, i as int) == find_entry_from(self@, p, 0),
            decreases self.games@.len() - i,
        {
            let g = &self.games[i];
            let mut j: usize = 0;
            let mut found = false;
            while j < g.window_titles.len()
                invariant
                    j <= g.window_titles@.len(),
                    lower@ == lowercase(title@),
                    found ==> shows_title(g@, title@),
                    !found ==> forall|k: int|
                        0 <= k < j ==> !contains_seq(lowercase(title@), lowercase(#[trigger] g@.window_titles[k])),
                decreases g.window_titles@.len() - j,
            {
                let part = chars_of(to_lowercase(g.window_titles[j].as_str()).as_str());
                if chars_contains(lower.as_slice(), part.as_slice()) {
                    assert(g@.window_titles[j as int] == g.window_titles@[j as int]@);
                    found = true;
                }
                j += 1;
            }
            if found {
                return Some(g.duplicate());
            }
            proof {
                assert(!shows_title(g@, title@));
                assert(self@[i as int] == g@);
            }
            i += 1;
        }
        None
    }

    /// Turns auto-clipping on or off for the game named `name` (the first
    /// one); other games are unchanged.
    pub fn set_auto_clip(&mut self, name: &str, enabled: bool)
        ensures
            match find_entry_from(old(self)@, |g: EntryView| g.name == name@, 0) {
                Some(i) => final(self)@ == old(self)@.update(
                    i,
                    EntryView { auto_clip_enabled: enabled, ..old(self)@[i] },
                ),
                None => final(self)@ == old(self)@,
            },
    {
        let key = name.to_owned();
        let ghost p = |g: EntryView| g.name == name@;
        let mut i: usize = 0;
        while i < self.games.len()
            invariant
                i <= self.games@.len(),
                key@ == name@,
                self@ == old(self)@,
                p == (|g: EntryView| g.name == name@),
                find_entry_from(self@, p, i as int) == find_entry_from(self@, p, 0),
            decreases self.games@.len() - i,
        {
            if self.games[i].name == key {
                let mut g = self.games[i].duplicate();
                g.auto_clip_enabled = enabled;
                self.games.set(i, g);
                assert(self@ =~= old(self)@.update(
                    i as int,
                    EntryView { auto_clip_enabled: enabled, ..old(self)@[i as int] },
                ));
                return;
            }
            i += 1;
        }
    }

    /// All games, in order.
    pub fn all(&self) -> (r: Vec<GameEntry>)
        ensures
            entry_views(r@) == self@,
    {
        let mut out: Vec<GameEntry> = Vec::new();
        let mut i: usize = 0;
        while i < self.games.len()
            invariant
                i <= self.games@.len(),
                out@.len() == i,
                forall|k: int| 0 <= k < i ==> (#[trigger] out@[k])@ == self.games@[k]@,
            decreases self.games@.len() - i,
        {
            out.push(self.games[i].duplicate());
            i += 1;
        }
        assert(entry_views(out@) =~= entry_views(self.games@));
        out
    }
}

} // verus!
