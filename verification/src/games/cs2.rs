//! Counter-Strike 2 Game State Integration: the moments read from
//! successive state reports, and the integration config file.
use vstd::prelude::*;

use crate::games::moment::{GameMoment, MomentType};
use crate::text::{decimal, push_decimal, push_str, string_from_chars};

verus! {

/// The values Prism reads from one GSI report: `player.match_stats.kills`,
/// `player.match_stats.deaths`, `player.state.health`,
/// `player.state.round_killhs` and `round.win_team`. Missing numbers read as
/// 0 (health as -1); a missing team as none.
pub struct GsiReading {
    pub kills: u64,
    pub deaths: u64,
    pub health: i64,
    pub headshots: u64,
    pub win_team: Option<String>,
}

/// What the tracker remembers of the previous report.
pub struct GsiView {
    pub initialized: bool,
    pub kills: u64,
    pub deaths: u64,
    pub health: i64,
    pub headshots: u64,
    pub win_team: Option<Seq<char>>,
}

/// Tracks successive GSI reports to turn changes into moments.
pub struct GsiState {
    initialized: bool,
    kills: u64,
    deaths: u64,
    health: i64,
    headshots: u64,
    win_team: Option<String>,
}

/// The characters of an optional string.
pub open spec fn opt_chars(o: Option<String>) -> Option<Seq<char>> {
    match o {
        Some(s) => Some(s@),
        None => None,
    }
}

impl View for GsiState {
    type V = GsiView;

    closed spec fn view(&self) -> GsiView {
        GsiView {
            initialized: self.initialized,
            kills: self.kills,
            deaths: self.deaths,
            health: self.health,
            headshots: self.headshots,
            win_team: opt_chars(self.win_team),
        }
    }
}

impl Default for GsiState {
    /// A tracker that has seen no report yet.
    fn default() -> (r: Self)
        ensures
            !r@.initialized,
    {
        GsiState { initialized: false, kills: 0, deaths: 0, health: 0, headshots: 0, win_team: None }
    }
}

/// The moments a report announces against the previous one, as
/// (type, description): nothing for the first report; then a headshot (or
/// else a kill) when the kill count rose, a death when the death count rose
/// or health dropped to zero, and a win when a new winning team appears.
pub open spec fn gsi_moments(prev: GsiView, r: GsiReading) -> Seq<(MomentType, Seq<char>)> {
    if !prev.initialized {
        Seq::empty()
    } else {
        let headshot = r.headshots > prev.headshots;
        let kill: Seq<(MomentType, Seq<char>)> = if r.kills > prev.kills {
            if headshot {
                seq![(MomentType::Headshot, "CS2 headshot"@)]
            } else {
                seq![(MomentType::Kill, "CS2 kill"@)]
            }
        } else {
            Seq::empty()
        };
        let death: Seq<(MomentType, Seq<char>)> = if r.deaths > prev.deaths || (r.health == 0
            && prev.health > 0) {
            seq![(MomentType::Death, "CS2 death"@)]
        } else {
            Seq::empty()
        };
        let win: Seq<(MomentType, Seq<char>)> = match r.win_team {
            Some(team) => if prev.win_team != Some(team@) {
                seq![(MomentType::Win, "Round won by "@ + team@)]
            } else {
                Seq::empty()
            },
            None => Seq::empty(),
        };
        kill + death + win
    }
}

/// `m` is a Counter-Strike 2 moment of the given type and description.
pub open spec fn is_cs2_moment(m: GameMoment, expected: (MomentType, Seq<char>)) -> bool {
    &&& m.moment_type == expected.0
    &&& m.game_name@ == "Counter-Strike 2"@
    &&& m.description matches Some(d) && d@ == expected.1
}

fn cs2_moment(kind: MomentType, description: String) -> (m: GameMoment)
    ensures
        is_cs2_moment(m, (kind, description@)),
{
    GameMoment::new(kind, String::from_str("Counter-Strike 2")).with_description(description)
}

fn copy_team(o: &Option<String>) -> (r: Option<String>)
    ensures
        r == *o,
{
    match o {
        Some(s) => Some(s.clone()),
        None => None,
    }
}

impl GsiState {
    /// Takes in one report and returns the moments it announces; the report
    /// becomes the new reference.
    pub fn consume(&mut self, reading: &GsiReading) -> (moments: Vec<GameMoment>)
        ensures
            final(self)@ == (GsiView {
                initialized: true,
                kills: reading.kills,
                deaths: reading.deaths,
                health: reading.health,
                headshots: reading.headshots,
                win_team: opt_chars(reading.win_team),
            }),
            moments@.len() == gsi_moments(old(self)@, *reading).len(),
            forall|i: int|
                0 <= i < moments@.len() ==> is_cs2_moment(
                    #[trigger] moments@[i],
                    gsi_moments(old(self)@, *reading)[i],
                ),
    {
        let ghost prev = self@;
        let mut moments: Vec<GameMoment> = Vec::new();
        if self.initialized {
            let got_headshot = reading.headshots > self.headshots;
            if reading.kills > self.kills {
                if got_headshot {
                    moments.push(cs2_moment(MomentType::Headshot, String::from_str("CS2 headshot")));
                } else {
                    moments.push(cs2_moment(MomentType::Kill, String::from_str("CS2 kill")));
                }
            }
            let ghost after_kill = moments@;
            if reading.deaths > self.deaths || (reading.health == 0 && self.health > 0) {
                moments.push(cs2_moment(MomentType::Death, String::from_str("CS2 death")));
            }
            let ghost after_death = moments@;
            if let Some(team) = &reading.win_team {
                let same = match &self.win_team {
                    Some(previous) => *previous == *team,
                    None => false,
                };
                if !same {
                    let mut text = String::from_str("Round won by ");
                    text.append(team.as_str());
                    moments.push(cs2_moment(MomentType::Win, text));
                }
            }
            proof {
                let expected = gsi_moments(prev, *reading);
                assert(moments@.len() == expected.len());
                assert forall|i: int| 0 <= i < moments@.len() implies is_cs2_moment(
                    #[trigger] moments@[i],
                    expected[i],
                ) by {
                    if i < after_kill.len() {
                        assert(moments@[i] == after_kill[i]);
                    } else if i < after_death.len() {
                        assert(moments@[i] == after_death[i]);
                    }
                }
            }
        }
        self.initialized = true;
        self.kills = reading.kills;
        self.deaths = reading.deaths;
        self.health = reading.health;
        self.headshots = reading.headshots;
        self.win_team = copy_team(&reading.win_team);
        moments
    }
}

/// The tracker's memory after taking in report `r`.
pub open spec fn remembered(r: GsiReading) -> GsiView {
    GsiView {
        initialized: true,
        kills: r.kills,
        deaths: r.deaths,
        health: r.health,
        headshots: r.headshots,
        win_team: opt_chars(r.win_team),
    }
}

/// Whether some announced moment is of type `t`.
pub open spec fn announces(ms: Seq<(MomentType, Seq<char>)>, t: MomentType) -> bool {
    exists|i: int| 0 <= i < ms.len() && (#[trigger] ms[i]).0 == t
}

/// Laws of the report tracker: moments come only from changes.
/// - The same report taken in twice in a row announces nothing the second
///   time.
/// - A death is announced only when the death count rose or health fell to
///   zero from above: with the death count not risen and health already at
///   most zero, no death is announced, whatever else the report says.
/// - A risen death count is always announced as a death, and a risen kill
///   count as a kill or headshot (once a report has been seen).
pub proof fn lemma_moments_come_from_changes(prev: GsiView, r: GsiReading)
    ensures
        gsi_moments(remembered(r), r).len() == 0,
        r.deaths <= prev.deaths && prev.health <= 0 ==> !announces(gsi_moments(prev, r), MomentType::Death),
        r.deaths <= prev.deaths && r.health != 0 ==> !announces(gsi_moments(prev, r), MomentType::Death),
        prev.initialized && r.deaths > prev.deaths ==> announces(gsi_moments(prev, r), MomentType::Death),
        prev.initialized && r.kills > prev.kills ==> (announces(gsi_moments(prev, r), MomentType::Kill)
            || announces(gsi_moments(prev, r), MomentType::Headshot)),
        r.kills <= prev.kills ==> !announces(gsi_moments(prev, r), MomentType::Kill) && !announces(
            gsi_moments(prev, r),
            MomentType::Headshot,
        ),
{
    let ms = gsi_moments(prev, r);
    if prev.initialized {
        let headshot = r.headshots > prev.headshots;
        let kill: Seq<(MomentType, Seq<char>)> = if r.kills > prev.kills {
            if headshot {
                seq![(MomentType::Headshot, "CS2 headshot"@)]
            } else {
                seq![(MomentType::Kill, "CS2 kill"@)]
            }
        } else {
            Seq::empty()
        };
        let death: Seq<(MomentType, Seq<char>)> = if r.deaths > prev.deaths || (r.health == 0 && prev.health > 0) {
            seq![(MomentType::Death, "CS2 death"@)]
        } else {
            Seq::empty()
        };
        let win: Seq<(MomentType, Seq<char>)> = match r.win_team {
            Some(team) => if prev.win_team != Some(team@) {
                seq![(MomentType::Win, "Round won by "@ + team@)]
            } else {
                Seq::empty()
            },
            None => Seq::empty(),
        };
        assert(ms == kill + death + win);
        if r.deaths > prev.deaths {
            assert(ms[kill.len() as int] == (MomentType::Death, "CS2 death"@));
        }
        if r.kills > prev.kills {
            assert(ms[0] == kill[0]);
        }
        assert forall|i: int| 0 <= i < ms.len() implies (#[trigger] ms[i]).0 != MomentType::Death || death.len() > 0 by {
            if i < kill.len() {
                assert(ms[i] == kill[i]);
            } else if i >= kill.len() + death.len() {
                assert(ms[i] == win[i - kill.len() - death.len()]);
            }
        }
        assert forall|i: int| 0 <= i < ms.len() implies ((#[trigger] ms[i]).0 != MomentType::Kill && ms[i].0 != MomentType::Headshot) || kill.len() > 0 by {
            if i < kill.len() {
            } else if i < kill.len() + death.len() {
                assert(ms[i] == death[i - kill.len()]);
            } else {
                assert(ms[i] == win[i - kill.len() - death.len()]);
            }
        }
    }
    match r.win_team {
        Some(team) => {
            assert(remembered(r).win_team == Some(team@));
        },
        None => {},
    }
}

/// Listener state for CS2 reports: started once, and the report tracker.
pub struct Cs2GsiListener {
    started: bool,
    state: GsiState,
}

impl Cs2GsiListener {
    /// A listener that has not started and has seen no report.
    pub fn new() -> (r: Self)
        ensures
            !r.is_started(),
            !r.tracker()@.initialized,
    {
        Cs2GsiListener { started: false, state: GsiState::default() }
    }

    /// Whether the listener was started.
    pub closed spec fn is_started(&self) -> bool {
        self.started
    }

    /// The report tracker.
    pub closed spec fn tracker(&self) -> GsiState {
        self.state
    }

    /// Marks the listener started; returns whether it already was (then it
    /// must not be started again).
    pub fn mark_started(&mut self) -> (was_started: bool)
        ensures
            was_started == old(self).is_started(),
            final(self).is_started(),
            final(self).tracker() == old(self).tracker(),
    {
        let was = self.started;
        self.started = true;
        was
    }

    /// Passes one report to the tracker.
    pub fn consume(&mut self, reading: &GsiReading) -> (moments: Vec<GameMoment>)
        ensures
            final(self).is_started() == old(self).is_started(),
            final(self).tracker()@ == (GsiView {
                initialized: true,
                kills: reading.kills,
                deaths: reading.deaths,
                health: reading.health,
                headshots: reading.headshots,
                win_team: opt_chars(reading.win_team),
            }),
            moments@.len() == gsi_moments(old(self).tracker()@, *reading).len(),
            forall|i: int|
                0 <= i < moments@.len() ==> is_cs2_moment(
                    #[trigger] moments@[i],
                    gsi_moments(old(self).tracker()@, *reading)[i],
                ),
    {
        self.state.consume(reading)
    }
}

/// The Game State Integration config that makes CS2 report to
/// `http://127.0.0.1:<port>`.
pub open spec fn gsi_config_text(port: nat) -> Seq<char> {
    "\"Prism Game State Integration\"\n{\n  \"uri\" \"http://127.0.0.1:"@ + decimal(port)
        + "\"\n  \"timeout\" \"5.0\"\n  \"buffer\" \"0.1\"\n  \"throttle\" \"0.1\"\n  \"heartbeat\" \"10.0\"\n  \"data\"\n  {\n    \"provider\" \"1\"\n    \"map\" \"1\"\n    \"round\" \"1\"\n    \"player_id\" \"1\"\n    \"player_state\" \"1\"\n    \"player_match_stats\" \"1\"\n  }\n}\n"@
}

/// The contents of Prism's CS2 Game State Integration config for `port`.
pub fn gsi_config_contents(port: u16) -> (r: String)
    ensures
        r@ == gsi_config_text(port as nat),
{
    let mut out: Vec<char> = Vec::new();
    push_str(&mut out, "\"Prism Game State Integration\"\n{\n  \"uri\" \"http://127.0.0.1:");
    push_decimal(&mut out, port as u64);
    push_str(
        &mut out,
        "\"\n  \"timeout\" \"5.0\"\n  \"buffer\" \"0.1\"\n  \"throttle\" \"0.1\"\n  \"heartbeat\" \"10.0\"\n  \"data\"\n  {\n    \"provider\" \"1\"\n    \"map\" \"1\"\n    \"round\" \"1\"\n    \"player_id\" \"1\"\n    \"player_state\" \"1\"\n    \"player_match_stats\" \"1\"\n  }\n}\n",
    );
    assert(out@ =~= gsi_config_text(port as nat));
    string_from_chars(out.as_slice())
}

} // verus!
