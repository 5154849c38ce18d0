//! The driver of a match: a number of games in sequence, each under the
//! arbiter, and the score that adds up.

use vstd::prelude::*;
use crate::config::MatchConfig;
use crate::environment::{Action, Environment, Event, Phase, Reaction};
use crate::error::Error;
use crate::stats::{MatchStatistics, Tally};

verus! {

/// A match in progress.
pub struct MatchRunner {
    env: Environment,
    stats: MatchStatistics,
}

impl MatchRunner {
    /// What holds of every match from `new` on: while a game is set up or
    /// played, the match still has a game to record.
    pub closed spec fn well_formed(&self) -> bool {
        (self.env.phase() is Readying || self.env.phase() is Playing)
            ==> self.stats@.finished_games < self.stats@.total_games
    }

    /// The arbiter of the match.
    pub closed spec fn arbiter(&self) -> Environment {
        self.env
    }

    /// The score of the match.
    pub closed spec fn tally(&self) -> Tally {
        self.stats@
    }

    /// A match by the rules of `config`, before its first game.
    pub fn new(config: &MatchConfig) -> (runner: MatchRunner)
        ensures
            runner.well_formed(),
            runner.tally() == Tally::start(config.num_games as nat),
            runner.arbiter().phase() is Idle,
            runner.arbiter().ply_limit() == config.max_ply,
    {
        MatchRunner {
            env: Environment::new().max_ply(config.max_ply),
            stats: MatchStatistics::new(config.num_games),
        }
    }

    /// The arbiter of the match.
    pub fn env(&self) -> (env: &Environment)
        ensures
            *env == self.arbiter(),
    {
        &self.env
    }

    /// The score of the match.
    pub fn stats(&self) -> (stats: &MatchStatistics)
        ensures
            stats@ == self.tally(),
            self.tally().balanced(),
    {
        let _ = self.stats.finished_games();
        &self.stats
    }

    /// Whether the match has games left to play.
    pub fn has_next_game(&self) -> (r: bool)
        ensures
            r == (self.tally().finished_games < self.tally().total_games),
    {
        self.stats.finished_games() < self.stats.total_games()
    }

    /// Sets up the next game of the match, as the arbiter does. Returns
    /// `None`, and sets up nothing, where every game of the match has been
    /// played.
    pub fn start_game(&mut self, config: &MatchConfig, black_name: &[u8], white_name: &[u8]) -> (r:
        Result<Option<Reaction>, Error>)
        requires
            old(self).well_formed(),
        ensures
            final(self).well_formed(),
            final(self).tally() == old(self).tally(),
            if old(self).tally().finished_games < old(self).tally().total_games {
                old(self).arbiter().starts(
                    config,
                    black_name@,
                    white_name@,
                    match r {
                        Ok(Some(reaction)) => Ok(reaction),
                        Ok(None) => Ok(Reaction::Nothing),
                        Err(e) => Err(e),
                    },
                    final(self).arbiter(),
                )
            } else {
                r == Ok::<Option<Reaction>, Error>(None) && final(self).arbiter() == old(
                    self,
                ).arbiter()
            },
    {
        if !self.has_next_game() {
            return Ok(None);
        }
        match self.env.start_game(config, black_name, white_name) {
            Ok(reaction) => Ok(Some(reaction)),
            Err(e) => Err(e),
        }
    }

    /// Takes one action as the arbiter does, and records the result of the
    /// game when the game is over. Returns `None`, and does nothing, where
    /// the arbiter cannot take the action.
    pub fn handle_action(&mut self, action: &Action, now: u64) -> (r: Option<Reaction>)
        requires
            old(self).well_formed(),
        ensures
            final(self).well_formed(),
            r.is_some() == old(self).arbiter().in_limits(*action),
            r.is_none() ==> final(self).arbiter() == old(self).arbiter() && final(self).tally()
                == old(self).tally(),
            r matches Some(reaction) ==> {
                &&& old(self).arbiter().reacts(*action, now, reaction, final(self).arbiter())
                &&& final(self).tally() == (match reaction {
                    Reaction::Over(result) => old(self).tally().record(result.winner),
                    _ => old(self).tally(),
                })
            },
    {
        let r = self.env.handle_action(action, now);
        match r {
            Some(Reaction::Over(result)) => {
                let _ = self.stats.total_games();
                self.stats.record_game(result.winner);
            },
            _ => {},
        }
        r
    }

    /// The events that make a reaction known.
    pub fn events<'a>(&'a self, reaction: &Reaction) -> (events: Vec<Event<'a>>)
        ensures
            events@ == crate::environment::events_of(self.arbiter().current(), *reaction),
    {
        self.env.events(reaction)
    }
}

} // verus!
