//! Turning verified game events into clips: per-game rules, a per-game
//! cooldown, the clip length for each kind of moment, and the clip's file
//! name. Times are monotonic readings in nanoseconds.
use vstd::prelude::*;

use crate::games::moment::{moment_key, moment_label, GameMoment, MomentType};
use crate::games::{game_view, DetectedGame};
use crate::text::{chars_eq, chars_of, push_str, string_from_chars};

verus! {

/// Auto-clip rules for one game.
pub struct PerGameAutoClip {
    pub game_name: String,
    pub enabled: bool,
    /// Event keys that trigger a clip (see `GameMoment::event_key`).
    pub events: Vec<String>,
    /// Seconds clipped for a kill or headshot.
    pub kill_clip_duration: u32,
    /// Seconds clipped for a death.
    pub death_clip_duration: u32,
    /// Seconds clipped for any other event.
    pub combat_event_duration: u32,
    /// Whether audio-based detection is on for this game.
    pub audio_enabled: bool,
}

/// Auto-clip settings.
pub struct AutoClipSettings {
    pub enabled: bool,
    /// Minimum seconds between two automatic clips of one game.
    pub cooldown_secs: u32,
    pub games: Vec<PerGameAutoClip>,
}

/// Seconds clipped for a moment of the given type.
pub open spec fn clip_seconds(game: PerGameAutoClip, t: MomentType) -> u32 {
    match t {
        MomentType::Death => game.death_clip_duration,
        MomentType::Kill | MomentType::Headshot => game.kill_clip_duration,
        _ => game.combat_event_duration,
    }
}

/// Seconds to clip for a moment of type `moment_type` in `game`.
pub fn clip_duration(game: &PerGameAutoClip, moment_type: MomentType) -> (r: u32)
    ensures
        r == clip_seconds(*game, moment_type),
{
    match moment_type {
        MomentType::Death => game.death_clip_duration,
        MomentType::Kill | MomentType::Headshot => game.kill_clip_duration,
        _ => game.combat_event_duration,
    }
}

/// A character kept in file names: ASCII letters and digits stay, anything
/// else becomes `_`.
pub open spec fn file_char(c: char) -> char {
    if ('a' <= c && c <= 'z') || ('A' <= c && c <= 'Z') || ('0' <= c && c <= '9') {
        c
    } else {
        '_'
    }
}

/// `value` made safe for a file name.
pub fn file_name_part(value: &str) -> (r: String)
    ensures
        r@ == value@.map_values(|c: char| file_char(c)),
{
    let cs = chars_of(value);
    let mut out: Vec<char> = Vec::new();
    let mut i: usize = 0;
    while i < cs.len()
        invariant
            i <= cs@.len(),
            out@ == cs@.subrange(0, i as int).map_values(|c: char| file_char(c)),
        decreases cs@.len() - i,
    {
        let c = cs[i];
        let kept = if ('a' <= c && c <= 'z') || ('A' <= c && c <= 'Z') || ('0' <= c && c <= '9') {
            c
        } else {
            '_'
        };
        out.push(kept);
        i += 1;
        assert(out@ =~= cs@.subrange(0, i as int).map_values(|c: char| file_char(c)));
    }
    assert(cs@.subrange(0, i as int) =~= cs@);
    string_from_chars(out.as_slice())
}

/// `s` without space characters.
pub open spec fn without_spaces(s: Seq<char>) -> Seq<char>
    decreases s.len(),
{
    if s.len() == 0 {
        s
    } else if s.last() == ' ' {
        without_spaces(s.drop_last())
    } else {
        without_spaces(s.drop_last()).push(s.last())
    }
}

/// File name of an automatic clip: `<game>_<timestamp>_<label>.mp4`, with
/// the game name made file-safe and the spaces dropped from the label.
pub fn auto_clip_file_name(game_name: &str, timestamp: &str, label: &str) -> (r: String)
    ensures
        r@ == game_name@.map_values(|c: char| file_char(c)) + seq!['_'] + timestamp@ + seq!['_']
            + without_spaces(label@) + ".mp4"@,
{
    let game = file_name_part(game_name);
    let mut out: Vec<char> = Vec::new();
    push_str(&mut out, game.as_str());
    out.push('_');
    push_str(&mut out, timestamp);
    out.push('_');
    let ghost before_label = out@;
    let lc = chars_of(label);
    let mut i: usize = 0;
    while i < lc.len()
        invariant
            i <= lc@.len(),
            out@ == before_label + without_spaces(lc@.subrange(0, i as int)),
        decreases lc@.len() - i,
    {
        assert(lc@.subrange(0, i + 1).drop_last() =~= lc@.subrange(0, i as int));
        if lc[i] != ' ' {
            out.push(lc[i]);
        }
        i += 1;
        assert(out@ =~= before_label + without_spaces(lc@.subrange(0, i as int)));
    }
    assert(lc@.subrange(0, i as int) =~= lc@);
    push_str(&mut out, ".mp4");
    string_from_chars(out.as_slice())
}

/// When the game `game` last triggered a clip, in the first matching entry.
pub open spec fn last_trigger(s: Seq<(String, u64)>, game: Seq<char>) -> Option<u64>
    decreases s.len(),
{
    if s.len() == 0 {
        None
    } else if s[0].0@ == game {
        Some(s[0].1)
    } else {
        last_trigger(s.drop_first(), game)
    }
}

/// Whole seconds from `then` to `now` (zero if `now` is earlier).
pub open spec fn whole_secs_between(then: u64, now: u64) -> int {
    if now >= then {
        (now - then) / 1_000_000_000
    } else {
        0
    }
}

/// Remembers when each game last triggered an automatic clip.
pub struct AutoClipTrigger {
    last_triggered: Vec<(String, u64)>,
}

impl AutoClipTrigger {
    /// When `game` last triggered a clip, if ever.
    pub closed spec fn last(&self, game: Seq<char>) -> Option<u64> {
        last_trigger(self.last_triggered@, game)
    }

    /// A trigger that has never fired.
    pub fn new() -> (r: Self)
        ensures
            forall|g: Seq<char>| #[trigger] r.last(g) is None,
    {
        AutoClipTrigger { last_triggered: Vec::new() }
    }

    /// Whether `game` may trigger a clip at `now_ns`: not within
    /// `cooldown_secs` whole seconds of its last clip. When it may, `now_ns`
    /// becomes its last trigger time.
    pub fn allow_at(&mut self, game: &str, cooldown_secs: u32, now_ns: u64) -> (r: bool)
        ensures
            r == match old(self).last(game@) {
                Some(t) => whole_secs_between(t, now_ns) >= cooldown_secs,
                None => true,
            },
            !r ==> forall|g: Seq<char>| #[trigger] final(self).last(g) == old(self).last(g),
            r ==> final(self).last(game@) == Some(now_ns),
            r ==> forall|g: Seq<char>| g != game@ ==> #[trigger] final(self).last(g) == old(self).last(g),
    {
        let key = game.to_owned();
        let mut i: usize = 0;
        while i < self.last_triggered.len()
            invariant
                i <= self.last_triggered@.len(),
                key@ == game@,
                self.last_triggered@ == old(self).last_triggered@,
                forall|k: int| 0 <= k < i ==> (#[trigger] self.last_triggered@[k]).0@ != game@,
            decreases self.last_triggered@.len() - i,
        {
            if self.last_triggered[i].0 == key {
                let last = self.last_triggered[i].1;
                let elapsed: u64 = if now_ns >= last {
                    (now_ns - last) / 1_000_000_000
                } else {
                    0
                };
                proof {
                    lemma_last_at(self.last_triggered@, game@, i as int);
                }
                if elapsed < cooldown_secs as u64 {
                    return false;
                }
                let entry = (key, now_ns);
                self.last_triggered.set(i, entry);
                proof {
                    lemma_last_after_update(old(self).last_triggered@, game@, i as int, entry);
                }
                return true;
            }
            i += 1;
        }
        proof {
            lemma_last_absent(self.last_triggered@, game@);
        }
        self.last_triggered.push((key, now_ns));
        proof {
            lemma_last_after_push(old(self).last_triggered@, game@, (key, now_ns));
        }
        true
    }
}

proof fn lemma_last_at(s: Seq<(String, u64)>, game: Seq<char>, i: int)
    requires
        0 <= i < s.len(),
        s[i].0@ == game,
        forall|k: int| 0 <= k < i ==> (#[trigger] s[k]).0@ != game,
    ensures
        last_trigger(s, game) == Some(s[i].1),
    decreases i,
{
    if i > 0 {
        assert forall|k: int| 0 <= k < i - 1 implies (#[trigger] s.drop_first()[k]).0@ != game by {
            assert(s.drop_first()[k] == s[k + 1]);
        }
        lemma_last_at(s.drop_first(), game, i - 1);
    }
}

proof fn lemma_last_absent(s: Seq<(String, u64)>, game: Seq<char>)
    requires
        forall|k: int| 0 <= k < s.len() ==> (#[trigger] s[k]).0@ != game,
    ensures
        last_trigger(s, game) is None,
    decreases s.len(),
{
    if s.len() > 0 {
        assert forall|k: int| 0 <= k < s.len() - 1 implies (#[trigger] s.drop_first()[k]).0@ != game by {
            assert(s.drop_first()[k] == s[k + 1]);
        }
        lemma_last_absent(s.drop_first(), game);
    }
}

proof fn lemma_last_after_update(s: Seq<(String, u64)>, game: Seq<char>, i: int, e: (String, u64))
    requires
        0 <= i < s.len(),
        s[i].0@ == game,
        e.0@ == game,
        forall|k: int| 0 <= k < i ==> (#[trigger] s[k]).0@ != game,
    ensures
        last_trigger(s.update(i, e), game) == Some(e.1),
        forall|g: Seq<char>| g != game ==> #[trigger] last_trigger(s.update(i, e), g) == last_trigger(s, g),
    decreases i,
{
    if i == 0 {
        assert forall|g: Seq<char>| g != game implies #[trigger] last_trigger(s.update(i, e), g)
            == last_trigger(s, g) by {
            assert(s.update(i, e).drop_first() =~= s.drop_first());
        }
    } else {
        assert forall|k: int| 0 <= k < i - 1 implies (#[trigger] s.drop_first()[k]).0@ != game by {
            assert(s.drop_first()[k] == s[k + 1]);
        }
        lemma_last_after_update(s.drop_first(), game, i - 1, e);
        assert(s.update(i, e).drop_first() =~= s.drop_first().update(i - 1, e));
        assert(s.update(i, e)[0] == s[0]);
        assert forall|g: Seq<char>| g != game implies #[trigger] last_trigger(s.update(i, e), g)
            == last_trigger(s, g) by {
            assert(s.update(i, e)[0] == s[0]);
            if s[0].0@ != g {
                assert(last_trigger(s.update(i, e), g) == last_trigger(s.update(i, e).drop_first(), g));
                assert(last_trigger(s, g) == last_trigger(s.drop_first(), g));
                assert(last_trigger(s.drop_first().update(i - 1, e), g) == last_trigger(s.drop_first(), g));
            }
        }
    }
}

proof fn lemma_last_after_push(s: Seq<(String, u64)>, game: Seq<char>, e: (String, u64))
    requires
        last_trigger(s, game) is None,
        e.0@ == game,
    ensures
        last_trigger(s.push(e), game) == Some(e.1),
        forall|g: Seq<char>| g != game ==> #[trigger] last_trigger(s.push(e), g) == last_trigger(s, g),
    decreases s.len(),
{
    if s.len() == 0 {
        assert(s.push(e)[0] == e);
        assert(s.push(e).drop_first() =~= Seq::<(String, u64)>::empty());
        assert forall|g: Seq<char>| g != game implies #[trigger] last_trigger(s.push(e), g)
            == last_trigger(s, g) by {
            assert(s.push(e)[0] == e);
            assert(last_trigger(s.push(e), g) == last_trigger(s.push(e).drop_first(), g));
            assert(s.push(e).drop_first() =~= Seq::<(String, u64)>::empty());
            assert(last_trigger(Seq::<(String, u64)>::empty(), g) is None);
        }
    } else {
        assert(s.push(e).drop_first() =~= s.drop_first().push(e));
        assert(s.push(e)[0] == s[0]);
        lemma_last_after_push(s.drop_first(), game, e);
        assert forall|g: Seq<char>| g != game implies #[trigger] last_trigger(s.push(e), g)
            == last_trigger(s, g) by {
            assert(s.push(e)[0] == s[0]);
            if s[0].0@ != g {
                assert(last_trigger(s.push(e), g) == last_trigger(s.push(e).drop_first(), g));
                assert(last_trigger(s, g) == last_trigger(s.drop_first(), g));
                assert(last_trigger(s.drop_first().push(e), g) == last_trigger(s.drop_first(), g));
            }
        }
    }
}

/// Index of the first rule at or after `from` for game `name` that is
/// enabled.
pub open spec fn find_rule_from(rules: Seq<PerGameAutoClip>, name: Seq<char>, from: int) -> Option<int>
    decreases rules.len() - from,
{
    if from < 0 || from >= rules.len() {
        None
    } else if rules[from].game_name@ == name && rules[from].enabled {
        Some(from)
    } else {
        find_rule_from(rules, name, from + 1)
    }
}

/// Whether the rule lists the event key `key`.
pub open spec fn lists_event(rule: PerGameAutoClip, key: Seq<char>) -> bool {
    exists|j: int| 0 <= j < rule.events@.len() && (#[trigger] rule.events@[j])@ == key
}

proof fn lemma_find_rule_bounds(rules: Seq<PerGameAutoClip>, name: Seq<char>, from: int)
    requires
        0 <= from,
    ensures
        find_rule_from(rules, name, from) matches Some(i) ==> from <= i < rules.len()
            && rules[i].game_name@ == name && rules[i].enabled,
    decreases rules.len() - from,
{
    if from < rules.len() && !(rules[from].game_name@ == name && rules[from].enabled) {
        lemma_find_rule_bounds(rules, name, from + 1);
    }
}

/// The rule that lets `moment` clip: the moment's game must be the active
/// game, auto-clipping on, an enabled rule for the game present and listing
/// the moment's event.
pub open spec fn clip_rule(
    moment: GameMoment,
    active: Option<(Seq<char>, u32)>,
    settings: AutoClipSettings,
) -> Option<int> {
    if !(active matches Some(g) && g.0 == moment.game_name@) || !settings.enabled {
        None
    } else {
        match find_rule_from(settings.games@, moment.game_name@, 0) {
            Some(i) => if lists_event(settings.games@[i], moment_key(moment.moment_type)) {
                Some(i)
            } else {
                None
            },
            None => None,
        }
    }
}

fn find_rule(settings: &AutoClipSettings, name: &String) -> (r: Option<usize>)
    ensures
        match r {
            Some(k) => find_rule_from(settings.games@, name@, 0) == Some(k as int),
            None => find_rule_from(settings.games@, name@, 0) is None,
        },
{
    let mut i: usize = 0;
    while i < settings.games.len()
        invariant
            i <= settings.games@.len(),
            find_rule_from(settings.games@, name@, i as int) == find_rule_from(settings.games@, name@, 0),
        decreases settings.games@.len() - i,
    {
        if settings.games[i].game_name == *name && settings.games[i].enabled {
            return Some(i);
        }
        i += 1;
    }
    None
}

/// Decides whether `moment` triggers an automatic clip at `now_ns` and, if
/// so, for how many seconds. A moment that passes the rules still waits out
/// the game's cooldown.
pub fn plan_auto_clip(
    moment: &GameMoment,
    active: &Option<DetectedGame>,
    settings: &AutoClipSettings,
    trigger: &mut AutoClipTrigger,
    now_ns: u64,
) -> (r: Option<u32>)
    ensures
        clip_rule(*moment, game_view(*active), *settings) is None ==> {
            &&& r is None
            &&& forall|g: Seq<char>| #[trigger] final(trigger).last(g) == old(trigger).last(g)
        },
        clip_rule(*moment, game_view(*active), *settings) matches Some(i) ==> {
            let allowed = match old(trigger).last(moment.game_name@) {
                Some(t) => whole_secs_between(t, now_ns) >= settings.cooldown_secs,
                None => true,
            };
            &&& allowed ==> r == Some(clip_seconds(settings.games@[i], moment.moment_type))
            &&& allowed ==> final(trigger).last(moment.game_name@) == Some(now_ns)
            &&& !allowed ==> r is None
            &&& !allowed ==> forall|g: Seq<char>| #[trigger] final(trigger).last(g) == old(trigger).last(g)
            &&& forall|g: Seq<char>| g != moment.game_name@ ==> #[trigger] final(trigger).last(g) == old(
                trigger,
            ).last(g)
        },
{
    let is_active = match active {
        Some(g) => g.name == moment.game_name,
        None => false,
    };
    if !is_active || !settings.enabled {
        return None;
    }
    let rule = find_rule(settings, &moment.game_name);
    proof {
        lemma_find_rule_bounds(settings.games@, moment.game_name@, 0);
    }
    let k = match rule {
        Some(k) => k,
        None => {
            return None;
        },
    };
    let game = &settings.games[k];
    let key = chars_of(moment.event_key());
    let mut listed = false;
    let mut j: usize = 0;
    while j < game.events.len()
        invariant
            j <= game.events@.len(),
            key@ == moment_key(moment.moment_type),
            listed == exists|t: int| 0 <= t < j && (#[trigger] game.events@[t])@ == key@,
        decreases game.events@.len() - j,
    {
        let e = chars_of(game.events[j].as_str());
        if chars_eq(e.as_slice(), key.as_slice()) {
            listed = true;
        }
        j += 1;
    }
    if !listed {
        return None;
    }
    if !trigger.allow_at(moment.game_name.as_str(), settings.cooldown_secs, now_ns) {
        return None;
    }
    Some(clip_duration(game, moment.moment_type))
}

} // verus!
