//! Game moments: significant in-game events that can trigger a clip.
use vstd::prelude::*;

use crate::clock::unix_now_secs;

verus! {

/// Types of moments that can trigger auto-clipping.
#[derive(Debug, Clone, Copy, PartialEq, Eq, Structural)]
pub enum MomentType {
    Kill,
    Death,
    Headshot,
    Explosion,
    Combat,
    Win,
    MatchEnd,
    Manual,
}

/// A game moment: why a clip was saved.
#[derive(Debug, Clone)]
pub struct GameMoment {
    pub moment_type: MomentType,
    pub game_name: String,
    /// Unix timestamp in seconds.
    pub timestamp_secs: u64,
    pub description: Option<String>,
}

/// Human-readable label of a moment type.
pub open spec fn moment_label(t: MomentType) -> Seq<char> {
    match t {
        MomentType::Kill => "Kill"@,
        MomentType::Death => "Death"@,
        MomentType::Headshot => "Headshot"@,
        MomentType::Explosion => "Explosion"@,
        MomentType::Combat => "Combat"@,
        MomentType::Win => "Win"@,
        MomentType::MatchEnd => "Match End"@,
        MomentType::Manual => "Manual Clip"@,
    }
}

/// Settings key of a moment type's event.
pub open spec fn moment_key(t: MomentType) -> Seq<char> {
    match t {
        MomentType::Kill => "kill"@,
        MomentType::Death => "death"@,
        MomentType::Headshot => "headshot"@,
        MomentType::Explosion => "explosion"@,
        MomentType::Combat => "combat"@,
        MomentType::Win => "win"@,
        MomentType::MatchEnd => "match_end"@,
        MomentType::Manual => "manual"@,
    }
}

impl GameMoment {
    /// A moment of `moment_type` in `game_name`, stamped with the current
    /// time and without a description.
    pub fn new(moment_type: MomentType, game_name: String) -> (r: Self)
        ensures
            r.moment_type == moment_type,
            r.game_name == game_name,
            r.description is None,
    {
        let timestamp_secs = unix_now_secs();
        GameMoment { moment_type, game_name, timestamp_secs, description: None }
    }

    /// This moment with a description.
    pub fn with_description(self, desc: String) -> (r: Self)
        ensures
            r.moment_type == self.moment_type,
            r.game_name == self.game_name,
            r.timestamp_secs == self.timestamp_secs,
            r.description == Some(desc),
    {
        let mut m = self;
        m.description = Some(desc);
        m
    }

    /// Human-readable label for the moment type.
    pub fn type_label(&self) -> (r: &'static str)
        ensures
            r@ == moment_label(self.moment_type),
    {
        match self.moment_type {
            MomentType::Kill => "Kill",
            MomentType::Death => "Death",
            MomentType::Headshot => "Headshot",
            MomentType::Explosion => "Explosion",
            MomentType::Combat => "Combat",
            MomentType::Win => "Win",
            MomentType::MatchEnd => "Match End",
            MomentType::Manual => "Manual Clip",
        }
    }

    /// Settings key of the moment's event.
    pub fn event_key(&self) -> (r: &'static str)
        ensures
            r@ == moment_key(self.moment_type),
    {
        match self.moment_type {
            MomentType::Kill => "kill",
            MomentType::Death => "death",
            MomentType::Headshot => "headshot",
            MomentType::Explosion => "explosion",
            MomentType::Combat => "combat",
            MomentType::Win => "win",
            MomentType::MatchEnd => "match_end",
            MomentType::Manual => "manual",
        }
    }
}

} // verus!
