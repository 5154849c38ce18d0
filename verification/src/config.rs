//! The configuration of a match and the way a configuration document
//! changes it.

use vstd::prelude::*;
use crate::clock::TimeControl;

verus! {

/// How the match is shown while it runs.
#[derive(Debug, Clone, Copy, PartialEq, Eq, Structural)]
pub enum DisplayMode {
    Board,
    Command,
    Csa,
    Simple,
}

/// How to start an engine and what to tell it before the first game.
#[derive(Debug)]
pub struct EngineConfig {
    pub engine_path: String,
    pub working_dir: String,
    pub ponder: bool,
    /// Options by name and value, in the order in which they are set.
    pub options: Vec<(String, String)>,
}

/// The time control of a match. Times are in milliseconds.
#[derive(Debug, Clone, Copy, PartialEq, Eq)]
pub struct TimeControlConfig {
    pub black_time: u64,
    pub white_time: u64,
    pub byoyomi: Option<u64>,
    pub black_inc: Option<u64>,
    pub white_inc: Option<u64>,
}

/// The rules of a match.
#[derive(Debug)]
pub struct MatchConfig {
    pub num_games: u32,
    pub max_ply: Option<u16>,
    pub initial_pos: Option<String>,
    pub black_engine: EngineConfig,
    pub white_engine: EngineConfig,
    pub time: TimeControlConfig,
    pub display: DisplayMode,
}

/// What a configuration document says of one engine.
#[derive(Debug)]
pub struct EngineSection {
    pub engine_path: Option<String>,
    pub working_dir: Option<String>,
    pub ponder: Option<bool>,
    pub options: Vec<(String, String)>,
}

/// What a configuration document says of the time control.
#[derive(Debug, Clone, Copy, PartialEq, Eq)]
pub struct TimeSection {
    pub black_time: Option<i64>,
    pub white_time: Option<i64>,
    pub byoyomi: Option<i64>,
    pub black_inc: Option<i64>,
    pub white_inc: Option<i64>,
}

/// The entries of a configuration document that a match reads.
#[derive(Debug)]
pub struct Document {
    pub num_games: Option<i64>,
    pub max_ply: Option<i64>,
    pub initial_pos: Option<String>,
    pub black: Option<EngineSection>,
    pub white: Option<EngineSection>,
    pub time_control: Option<TimeSection>,
}

/// An integer of a document as a time in milliseconds: its low 64 bits.
pub open spec fn millis_of(v: i64) -> u64 {
    v as u64
}

/// An optional integer of a document as an optional time.
pub open spec fn optional_millis(v: Option<i64>) -> Option<u64> {
    match v {
        Some(t) => Some(millis_of(t)),
        None => None,
    }
}

/// An integer of a document as a time in milliseconds.
fn to_millis(v: i64) -> (t: u64)
    ensures
        t == millis_of(v),
{
    #[verifier::truncate]
    (v as u64)
}

/// An optional integer of a document as an optional time.
fn to_optional_millis(v: Option<i64>) -> (t: Option<u64>)
    ensures
        t == optional_millis(v),
{
    match v {
        Some(t) => Some(to_millis(t)),
        None => None,
    }
}

impl EngineConfig {
    /// An engine with no path, no options and no pondering.
    pub fn new() -> (c: EngineConfig)
        ensures
            c.engine_path@.len() == 0,
            c.working_dir@.len() == 0,
            !c.ponder,
            c.options@.len() == 0,
    {
        EngineConfig {
            engine_path: String::new(),
            working_dir: String::new(),
            ponder: false,
            options: Vec::new(),
        }
    }

    /// Takes over what `section` says: the path, the directory and the
    /// ponder flag where it names them, and its options behind those that
    /// are already there.
    pub fn merge(&mut self, section: &EngineSection)
        ensures
            final(self).engine_path == (match section.engine_path {
                Some(p) => p,
                None => old(self).engine_path,
            }),
            final(self).working_dir == (match section.working_dir {
                Some(d) => d,
                None => old(self).working_dir,
            }),
            final(self).ponder == (match section.ponder {
                Some(f) => f,
                None => old(self).ponder,
            }),
            final(self).options@ == old(self).options@ + section.options@,
    {
        if let Some(p) = &section.engine_path {
            self.engine_path = p.clone();
        }
        if let Some(d) = &section.working_dir {
            self.working_dir = d.clone();
        }
        if let Some(f) = section.ponder {
            self.ponder = f;
        }
        let ghost path = self.engine_path;
        let ghost dir = self.working_dir;
        let ghost flag = self.ponder;
        let mut i: usize = 0;
        proof {
            assert(self.options@ =~= old(self).options@ + section.options@.take(0));
        }
        while i < section.options.len()
            invariant
                i <= section.options.len(),
                self.engine_path == path,
                self.working_dir == dir,
                self.ponder == flag,
                self.options@ == old(self).options@ + section.options@.take(i as int),
            decreases section.options.len() - i,
        {
            let name = section.options[i].0.clone();
            let value = section.options[i].1.clone();
            self.options.push((name, value));
            proof {
                assert(self.options@ =~= old(self).options@ + section.options@.take(i + 1));
            }
            i += 1;
        }
        proof {
            assert(section.options@.take(section.options.len() as int) =~= section.options@);
        }
    }
}

impl Default for EngineConfig {
    /// An engine with no path, no options and no pondering.
    fn default() -> (c: EngineConfig)
        ensures
            c.engine_path@.len() == 0,
            c.working_dir@.len() == 0,
            !c.ponder,
            c.options@.len() == 0,
    {
        EngineConfig::new()
    }
}

impl TimeControlConfig {
    /// The clock that this configuration asks for: byoyomi where a byoyomi
    /// is given, else a Fischer clock, whose increments are zero where none
    /// is given.
    pub open spec fn time_control(self) -> TimeControl {
        match self.byoyomi {
            Some(byoyomi) => TimeControl::Byoyomi {
                black_time: self.black_time,
                white_time: self.white_time,
                byoyomi,
            },
            None => TimeControl::FischerClock {
                black_time: self.black_time,
                white_time: self.white_time,
                black_inc: match self.black_inc {
                    Some(t) => t,
                    None => 0,
                },
                white_inc: match self.white_inc {
                    Some(t) => t,
                    None => 0,
                },
            },
        }
    }

    /// What `section` makes of this configuration: main times are kept
    /// where the section names none; byoyomi and increments are those of
    /// the section, named or not.
    pub open spec fn merged(self, section: TimeSection) -> TimeControlConfig {
        TimeControlConfig {
            black_time: match section.black_time {
                Some(t) => millis_of(t),
                None => self.black_time,
            },
            white_time: match section.white_time {
                Some(t) => millis_of(t),
                None => self.white_time,
            },
            byoyomi: optional_millis(section.byoyomi),
            black_inc: optional_millis(section.black_inc),
            white_inc: optional_millis(section.white_inc),
        }
    }

    /// Ten minutes for each side and ten seconds for every move.
    pub open spec fn standard() -> TimeControlConfig {
        TimeControlConfig {
            black_time: 600_000,
            white_time: 600_000,
            byoyomi: None,
            black_inc: Some(10_000u64),
            white_inc: Some(10_000u64),
        }
    }

    /// Takes over what `section` says. See `merged`.
    pub fn merge(&mut self, section: &TimeSection)
        ensures
            *final(self) == old(self).merged(*section),
    {
        if let Some(t) = section.black_time {
            self.black_time = to_millis(t);
        }
        if let Some(t) = section.white_time {
            self.white_time = to_millis(t);
        }
        self.byoyomi = to_optional_millis(section.byoyomi);
        self.black_inc = to_optional_millis(section.black_inc);
        self.white_inc = to_optional_millis(section.white_inc);
    }

    /// The clock that this configuration asks for. See `time_control`.
    pub fn to_time_control(&self) -> (clock: TimeControl)
        ensures
            clock == self.time_control(),
    {
        match self.byoyomi {
            Some(byoyomi) => TimeControl::Byoyomi {
                black_time: self.black_time,
                white_time: self.white_time,
                byoyomi,
            },
            None => TimeControl::FischerClock {
                black_time: self.black_time,
                white_time: self.white_time,
                black_inc: match self.black_inc {
                    Some(t) => t,
                    None => 0,
                },
                white_inc: match self.white_inc {
                    Some(t) => t,
                    None => 0,
                },
            },
        }
    }
}

impl Default for TimeControlConfig {
    /// Ten minutes for each side and ten seconds for every move.
    fn default() -> (c: TimeControlConfig)
        ensures
            c == TimeControlConfig::standard(),
    {
        TimeControlConfig {
            black_time: 600_000,
            white_time: 600_000,
            byoyomi: None,
            black_inc: Some(10_000),
            white_inc: Some(10_000),
        }
    }
}

impl MatchConfig {
    /// Takes over what a configuration document says.
    ///
    /// The number of games is that of the document, or one. The ply limit
    /// and the initial position are those of the document, given or not.
    /// Integers are cut to the width of their field. The engines and the
    /// time control are merged where the document has their sections. The
    /// display mode stays.
    pub fn merge(&mut self, doc: &Document)
        ensures
            final(self).num_games == (match doc.num_games {
                Some(n) => n as u32,
                None => 1u32,
            }),
            final(self).max_ply == (match doc.max_ply {
                Some(n) => Some(n as u16),
                None => None::<u16>,
            }),
            final(self).initial_pos == doc.initial_pos,
            final(self).time == (match doc.time_control {
                Some(section) => old(self).time.merged(section),
                None => old(self).time,
            }),
            final(self).display == old(self).display,
            match doc.black {
                Some(section) => engine_merged(old(self).black_engine, section, final(self).black_engine),
                None => final(self).black_engine == old(self).black_engine,
            },
            match doc.white {
                Some(section) => engine_merged(old(self).white_engine, section, final(self).white_engine),
                None => final(self).white_engine == old(self).white_engine,
            },
    {
        self.num_games = match doc.num_games {
            Some(n) => #[verifier::truncate]
            (n as u32),
            None => 1,
        };
        self.max_ply = match doc.max_ply {
            Some(n) => Some(
                #[verifier::truncate]
                (n as u16),
            ),
            None => None,
        };
        self.initial_pos = match &doc.initial_pos {
            Some(s) => Some(s.clone()),
            None => None,
        };
        if let Some(section) = &doc.black {
            self.black_engine.merge(section);
        }
        if let Some(section) = &doc.white {
            self.white_engine.merge(section);
        }
        if let Some(section) = &doc.time_control {
            self.time.merge(section);
        }
    }
}

/// Whether `after` is `before` with `section` merged into it.
pub open spec fn engine_merged(before: EngineConfig, section: EngineSection, after: EngineConfig) -> bool {
    &&& after.engine_path == (match section.engine_path {
        Some(p) => p,
        None => before.engine_path,
    })
    &&& after.working_dir == (match section.working_dir {
        Some(d) => d,
        None => before.working_dir,
    })
    &&& after.ponder == (match section.ponder {
        Some(f) => f,
        None => before.ponder,
    })
    &&& after.options@ == before.options@ + section.options@
}

impl Default for MatchConfig {
    /// One game of at most 256 plies from the usual starting position, on
    /// the standard clock, shown as a board.
    fn default() -> (c: MatchConfig)
        ensures
            c.num_games == 1,
            c.max_ply == Some(256u16),
            c.initial_pos.is_none(),
            c.time == TimeControlConfig::standard(),
            c.display == DisplayMode::Board,
            c.black_engine.options@.len() == 0,
            c.white_engine.options@.len() == 0,
            !c.black_engine.ponder,
            !c.white_engine.ponder,
    {
        MatchConfig {
            num_games: 1,
            max_ply: Some(256),
            initial_pos: None,
            black_engine: EngineConfig::new(),
            white_engine: EngineConfig::new(),
            time: TimeControlConfig::default(),
            display: DisplayMode::Board,
        }
    }
}

} // verus!
