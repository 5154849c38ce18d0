//! The arbiter of a game. It owns the game, takes the actions of the two
//! engines one at a time, and says after each what is to be broadcast.

use vstd::prelude::*;
use crate::config::MatchConfig;
use crate::error::Error;
use crate::game::{Game, GameOverReason, GameResult};
use crate::rules::{Board, Color, Move};
use crate::text::copy;

verus! {

/// The usual starting position.
pub const DEFAULT_SFEN: &'static str =
    "lnsgkgsnl/1r5b1/ppppppppp/9/9/9/PPPPPPPPP/1B5R1/LNSGKGSNL b - 1";

/// What an engine asks of the arbiter.
#[derive(Debug)]
pub enum Action {
    /// The engine of this colour is ready for the game.
    Ready(Color),
    /// The engine wants to be told the state of the game again.
    RequestState,
    /// The engine of this colour plays the move; its answer was read at the
    /// given time.
    MakeMove(Color, Move, u64),
    DeclareWinning(Color),
    Resign(Color),
}

/// What the arbiter tells the engines and the reporters.
#[derive(Debug)]
pub enum Event<'a> {
    IsReady,
    NewGame(&'a Game),
    /// It is the turn of the side to move; the move before took the given
    /// time.
    NewTurn(&'a Game, u64),
    NotifyState(&'a Game),
    GameOver(Option<Color>, GameOverReason),
}

/// How far a game has come.
#[derive(Debug, Clone, Copy, PartialEq, Eq, Structural)]
pub enum Phase {
    /// No game has been set up.
    Idle,
    /// The engines have been asked whether they are ready.
    Readying { black: bool, white: bool },
    Playing,
    Finished(GameResult),
}

/// What the arbiter has decided to broadcast after an action.
#[derive(Debug, Clone, Copy, PartialEq, Eq, Structural)]
pub enum Reaction {
    Nothing,
    /// A game is set up: the engines are asked whether they are ready.
    Asked,
    /// Both engines are ready: the game and its first turn are announced.
    Started,
    /// A move was made in the given time: the next turn is announced.
    Turn(u64),
    /// The state of the game is told again.
    State,
    /// The game is over.
    Over(GameResult),
}

impl Reaction {
    /// Whether the reaction follows a move that the arbiter has accepted.
    pub open spec fn follows_accepted_move(self) -> bool {
        self is Turn || self == Reaction::Over(
            GameResult { winner: None, reason: GameOverReason::MaxPly },
        )
    }
}

/// The arbiter's ruling on a move of `c` when `side` is to move: the result
/// with which the game ends, or `None` where it goes on. `in_time` says
/// whether the clock covered the move, `accepted` whether the rules did,
/// and `ply` is the ply counter after the move.
pub open spec fn ruling_on_move(
    side: Color,
    c: Color,
    in_time: bool,
    accepted: bool,
    ply: u16,
    max_ply: Option<u16>,
) -> Option<GameResult> {
    if c != side {
        Some(GameResult { winner: Some(c), reason: GameOverReason::IllegalMove })
    } else if !in_time {
        Some(GameResult { winner: Some(c.opponent()), reason: GameOverReason::OutOfTime })
    } else if !accepted {
        Some(GameResult { winner: Some(c.opponent()), reason: GameOverReason::IllegalMove })
    } else if max_ply.is_some() && ply >= max_ply.unwrap() {
        Some(GameResult { winner: None, reason: GameOverReason::MaxPly })
    } else {
        None
    }
}

/// The arbiter's ruling on a resignation of `c` when `side` is to move.
pub open spec fn ruling_on_resignation(side: Color, c: Color) -> GameResult {
    if c == side {
        GameResult { winner: Some(c.opponent()), reason: GameOverReason::Resign }
    } else {
        GameResult { winner: Some(c.opponent()), reason: GameOverReason::IllegalMove }
    }
}

/// The arbiter's ruling on a declaration of `c`, which the rules uphold or
/// do not.
pub open spec fn ruling_on_declaration(c: Color, upheld: bool) -> GameResult {
    if upheld {
        GameResult { winner: Some(c), reason: GameOverReason::DeclareWinning }
    } else {
        GameResult { winner: Some(c.opponent()), reason: GameOverReason::DeclareWinning }
    }
}

/// The time between the start of a turn and the moment at which the answer
/// was read; nothing where the answer bears an earlier time.
pub open spec fn elapsed_between(turn_start: u64, read_at: u64) -> u64 {
    if read_at >= turn_start {
        (read_at - turn_start) as u64
    } else {
        0
    }
}

/// Rules on a move. See `ruling_on_move`.
pub fn rule_on_move(
    side: Color,
    c: Color,
    in_time: bool,
    accepted: bool,
    ply: u16,
    max_ply: Option<u16>,
) -> (r: Option<GameResult>)
    ensures
        r == ruling_on_move(side, c, in_time, accepted, ply, max_ply),
{
    if c != side {
        Some(GameResult::new(Some(c), GameOverReason::IllegalMove))
    } else if !in_time {
        Some(GameResult::new(Some(c.flip()), GameOverReason::OutOfTime))
    } else if !accepted {
        Some(GameResult::new(Some(c.flip()), GameOverReason::IllegalMove))
    } else {
        match max_ply {
            Some(limit) => {
                if ply >= limit {
                    Some(GameResult::new(None, GameOverReason::MaxPly))
                } else {
                    None
                }
            },
            None => None,
        }
    }
}

/// Rules on a resignation. See `ruling_on_resignation`.
pub fn rule_on_resignation(side: Color, c: Color) -> (r: GameResult)
    ensures
        r == ruling_on_resignation(side, c),
{
    if c == side {
        GameResult::new(Some(c.flip()), GameOverReason::Resign)
    } else {
        GameResult::new(Some(c.flip()), GameOverReason::IllegalMove)
    }
}

/// Rules on a declaration. See `ruling_on_declaration`.
pub fn rule_on_declaration(c: Color, upheld: bool) -> (r: GameResult)
    ensures
        r == ruling_on_declaration(c, upheld),
{
    if upheld {
        GameResult::new(Some(c), GameOverReason::DeclareWinning)
    } else {
        GameResult::new(Some(c.flip()), GameOverReason::DeclareWinning)
    }
}

/// What an arbiter holds before a game is set up: an empty board at its
/// first ply with Black to move, players without names, and a clock without
/// any time.
pub open spec fn is_blank_game(game: Game) -> bool {
    &&& game.time == (crate::clock::TimeControl::Byoyomi {
        black_time: 0,
        white_time: 0,
        byoyomi: 0,
    })
    &&& game.black_player@.len() == 0
    &&& game.white_player@.len() == 0
    &&& game.turn_start_time == 0
    &&& game.pos.side_to_move() == Color::Black
    &&& game.pos.ply() == 1
    &&& game.pos.last_move_text().is_none()
}

/// The arbiter.
pub struct Environment {
    max_ply: Option<u16>,
    game: Game,
    phase: Phase,
}

impl Environment {
    /// How far the game has come.
    pub closed spec fn phase(&self) -> Phase {
        self.phase
    }

    /// The game that the arbiter owns.
    pub closed spec fn current(&self) -> Game {
        self.game
    }

    /// The ply at which a game is drawn, if there is one.
    pub closed spec fn ply_limit(&self) -> Option<u16> {
        self.max_ply
    }

    /// Whether the arbiter can take `action`: a move of the side to move
    /// in a game that is being played needs room in the ply counter and in
    /// the clock; anything else can always be taken.
    pub open spec fn in_limits(&self, action: Action) -> bool {
        match action {
            Action::MakeMove(c, _, _) => self.phase() is Playing && c
                == self.current().pos.side_to_move() ==> self.current().pos.ply() < u16::MAX
                && self.current().time.has_headroom(),
            _ => true,
        }
    }

    /// An arbiter without a game and without a ply limit; what it holds in
    /// the place of a game is a blank.
    pub fn new() -> (env: Environment)
        ensures
            env.phase() is Idle,
            env.ply_limit().is_none(),
            is_blank_game(env.current()),
    {
        Environment::idle()
    }

    /// An arbiter without a game and without a ply limit; what it holds in
    /// the place of a game is a blank.
    pub(crate) fn idle() -> (env: Environment)
        ensures
            env.phase() is Idle,
            env.ply_limit().is_none(),
            is_blank_game(env.current()),
    {
        Environment {
            max_ply: None,
            game: Game::new(
                crate::clock::TimeControl::Byoyomi { black_time: 0, white_time: 0, byoyomi: 0 },
            ),
            phase: Phase::Idle,
        }
    }

    /// Sets the ply at which games are drawn.
    pub fn max_ply(self, ply: Option<u16>) -> (env: Environment)
        ensures
            env.ply_limit() == ply,
            env.phase() == self.phase(),
            env.current() == self.current(),
    {
        let mut env = self;
        env.max_ply = ply;
        env
    }

    /// The state of the game.
    pub fn state(&self) -> (p: Phase)
        ensures
            p == self.phase(),
    {
        self.phase
    }

    /// The game.
    pub fn game(&self) -> (g: &Game)
        ensures
            *g == self.current(),
    {
        &self.game
    }

    /// The result of the game, once it is over.
    pub fn result(&self) -> (r: Option<GameResult>)
        ensures
            r == (match self.phase() {
                Phase::Finished(result) => Some(result),
                _ => None,
            }),
    {
        match self.phase {
            Phase::Finished(result) => Some(result),
            _ => None,
        }
    }

    /// Whether `in_limits` holds of `action`.
    pub fn within_limits(&self, action: &Action) -> (r: bool)
        ensures
            r == self.in_limits(*action),
    {
        match action {
            Action::MakeMove(c, _, _) => {
                match self.phase {
                    Phase::Playing => {
                        *c != self.game.pos.side_to_move() || (self.game.pos.ply() < u16::MAX
                            && self.game.time.check_headroom())
                    },
                    _ => true,
                }
            },
            _ => true,
        }
    }

    /// What `start_game` does: its result and the arbiter `after` it.
    pub open spec fn starts(
        &self,
        config: &MatchConfig,
        black_name: Seq<u8>,
        white_name: Seq<u8>,
        r: Result<Reaction, Error>,
        after: Environment,
    ) -> bool {
        let sfen = initial_sfen(config);
        if !crate::rules::sfen_in_range(sfen) {
            r == Err::<Reaction, Error>(Error::Sfen(crate::rules::SfenError::OutOfRange)) && after
                == *self
        } else {
            match crate::rules::sfen_verdict(sfen) {
                Some(e) => r == Err::<Reaction, Error>(Error::Sfen(e)) && after == *self,
                None => {
                    &&& r == Ok::<Reaction, Error>(Reaction::Asked)
                    &&& after.phase() == (Phase::Readying { black: false, white: false })
                    &&& after.current().time == config.time.time_control()
                    &&& after.current().black_player@ == black_name
                    &&& after.current().white_player@ == white_name
                    &&& after.current().turn_start_time == 0
                    &&& after.current().pos.is_position_of(sfen)
                    &&& after.ply_limit() == self.ply_limit()
                },
            }
        }
    }

    /// Sets up a game by the rules of `config` between the players of the
    /// given names: on the position that the rules library makes of the
    /// initial position of `config`, or of the usual one, with the clock
    /// of `config`. The engines are to be asked whether they are ready.
    ///
    /// Fails where the initial position is not a usable SFEN text, and
    /// leaves the arbiter as it was.
    pub fn start_game(&mut self, config: &MatchConfig, black_name: &[u8], white_name: &[u8]) -> (r:
        Result<Reaction, Error>)
        ensures
            old(self).starts(config, black_name@, white_name@, r, *final(self)),
    {
        let sfen: &str = match &config.initial_pos {
            Some(text) => text.as_str(),
            None => DEFAULT_SFEN,
        };
        let pos = match Board::from_sfen(sfen) {
            Ok(pos) => pos,
            Err(e) => {
                return Err(Error::Sfen(e));
            },
        };
        self.game = Game {
            black_player: copy(black_name),
            white_player: copy(white_name),
            pos,
            time: config.time.to_time_control(),
            turn_start_time: 0,
        };
        self.phase = Phase::Readying { black: false, white: false };
        Ok(Reaction::Asked)
    }

    /// Takes one action and says what is to be broadcast.
    ///
    /// Before the game, the arbiter waits until both engines have said that
    /// they are ready, whatever else they say; then the game starts. During
    /// the game:
    ///
    /// - a move of the side that is not to move loses nothing for it: the
    ///   game ends as won by the mover, by illegal move;
    /// - a move of the side to move is charged to its clock with the time
    ///   between the start of the turn and the reading of the answer; out
    ///   of time the mover loses; a move that the rules refuse loses by
    ///   illegal move; a move that reaches the ply limit draws the game;
    ///   any other starts the next turn;
    /// - a resignation loses, by resignation for the side to move, by
    ///   illegal move for the other;
    /// - a declaration wins where the rules uphold it and loses where they
    ///   do not, as they never do for the side that is not to move;
    /// - a request for the state is answered; readiness is ignored.
    ///
    /// Once the game is over, nothing is broadcast any more.
    pub fn step(&mut self, action: &Action, now: u64) -> (reaction: Reaction)
        requires
            old(self).in_limits(*action),
        ensures
            old(self).reacts(*action, now, reaction, *final(self)),
    {
        match self.phase {
            Phase::Idle => Reaction::Nothing,
            Phase::Finished(_) => Reaction::Nothing,
            Phase::Readying { black, white } => {
                match action {
                    Action::Ready(c) => {
                        let black = black || *c == Color::Black;
                        let white = white || *c == Color::White;
                        if black && white {
                            self.phase = Phase::Playing;
                            self.game.turn_start_time = now;
                            Reaction::Started
                        } else {
                            self.phase = Phase::Readying { black, white };
                            Reaction::Nothing
                        }
                    },
                    _ => Reaction::Nothing,
                }
            },
            Phase::Playing => {
                match action {
                    Action::Ready(_) => Reaction::Nothing,
                    Action::RequestState => Reaction::State,
                    Action::Resign(c) => {
                        let result = rule_on_resignation(self.game.pos.side_to_move(), *c);
                        self.phase = Phase::Finished(result);
                        Reaction::Over(result)
                    },
                    Action::DeclareWinning(c) => {
                        let upheld = self.game.pos.try_declare_winning(*c);
                        let result = rule_on_declaration(*c, upheld);
                        self.phase = Phase::Finished(result);
                        Reaction::Over(result)
                    },
                    Action::MakeMove(c, m, read_at) => {
                        let side = self.game.pos.side_to_move();
                        let elapsed = if *read_at >= self.game.turn_start_time {
                            *read_at - self.game.turn_start_time
                        } else {
                            0
                        };
                        let in_time = *c == side && self.game.time.consume(*c, elapsed);
                        let accepted = in_time && self.game.pos.make_move(m);
                        let ply = self.game.pos.ply();
                        match rule_on_move(side, *c, in_time, accepted, ply, self.max_ply) {
                            Some(result) => {
                                self.phase = Phase::Finished(result);
                                Reaction::Over(result)
                            },
                            None => {
                                self.game.turn_start_time = now;
                                Reaction::Turn(elapsed)
                            },
                        }
                    },
                }
            },
        }
    }

    /// What `step` does: the arbiter `after` the action and its reaction.
    pub open spec fn reacts(&self, action: Action, now: u64, reaction: Reaction, after: Environment) -> bool {
        &&& after.ply_limit() == self.ply_limit()
        &&& after.current().black_player == self.current().black_player
        &&& after.current().white_player == self.current().white_player
        &&& phase_step(self.phase(), reaction, after.phase())
        &&& match self.phase() {
            Phase::Idle | Phase::Finished(_) => reaction is Nothing && after == *self,
            Phase::Readying { black, white } => {
                &&& after.current().pos == self.current().pos
                &&& after.current().time == self.current().time
                &&& after.phase() == readiness_after(black, white, action)
                &&& reaction == (if after.phase() is Playing {
                    Reaction::Started
                } else {
                    Reaction::Nothing
                })
                &&& after.current().turn_start_time == (if after.phase() is Playing {
                    now
                } else {
                    self.current().turn_start_time
                })
            },
            Phase::Playing => self.played(action, now, reaction, after),
        }
    }

    /// What `step` does to a game that is being played. Whether the rules
    /// accept a move or uphold a declaration is theirs to say; all else is
    /// the arbiter's.
    pub open spec fn played(&self, action: Action, now: u64, reaction: Reaction, after: Environment) -> bool {
        let game = self.current();
        let side = game.pos.side_to_move();
        match action {
            Action::Ready(_) => reaction is Nothing && after == *self,
            Action::RequestState => reaction is State && after == *self,
            Action::Resign(c) => {
                &&& reaction == Reaction::Over(ruling_on_resignation(side, c))
                &&& after.current() == game
            },
            Action::DeclareWinning(c) => {
                &&& after.current() == game
                &&& reaction == Reaction::Over(ruling_on_declaration(c, game.pos.upholds(c)))
                &&& game.pos.upholds(c) ==> c == side
            },
            Action::MakeMove(c, m, read_at) => {
                let elapsed = elapsed_between(game.turn_start_time, read_at);
                let in_time = game.time.in_time(c, elapsed);
                if c != side {
                    &&& reaction == Reaction::Over(
                        ruling_on_move(side, c, false, false, game.pos.ply(), self.ply_limit()).unwrap(),
                    )
                    &&& after.current() == game
                } else if !in_time {
                    &&& reaction == Reaction::Over(
                        ruling_on_move(side, c, false, false, game.pos.ply(), self.ply_limit()).unwrap(),
                    )
                    &&& after.current() == game
                } else {
                    &&& after.current().time == game.time.after(c, elapsed)
                    &&& if game.pos.accepts(m@) {
                        &&& after.current().pos.side_to_move() == c.opponent()
                        &&& after.current().pos.ply() == game.pos.ply() + 1
                        &&& after.current().pos.last_move_text() == Some(m@)
                        &&& match ruling_on_move(
                            side,
                            c,
                            true,
                            true,
                            after.current().pos.ply(),
                            self.ply_limit(),
                        ) {
                            Some(result) => reaction == Reaction::Over(result)
                                && after.current().turn_start_time == game.turn_start_time,
                            None => reaction == Reaction::Turn(elapsed)
                                && after.current().turn_start_time == now,
                        }
                    } else {
                        &&& reaction == Reaction::Over(
                            GameResult {
                                winner: Some(c.opponent()),
                                reason: GameOverReason::IllegalMove,
                            },
                        )
                        &&& after.current().turn_start_time == game.turn_start_time
                    }
                }
            },
        }
    }

    /// Takes one action as `step` does, where the arbiter can take it; does
    /// nothing and returns `None` where the action is a move for which the
    /// ply counter or the clock has no room.
    pub fn handle_action(&mut self, action: &Action, now: u64) -> (r: Option<Reaction>)
        ensures
            r.is_some() == old(self).in_limits(*action),
            r.is_none() ==> *final(self) == *old(self),
            r matches Some(reaction) ==> old(self).reacts(*action, now, reaction, *final(self)),
    {
        if self.within_limits(action) {
            Some(self.step(action, now))
        } else {
            None
        }
    }

    /// The events that make a reaction known, in the order in which they
    /// are broadcast.
    pub fn events<'a>(&'a self, reaction: &Reaction) -> (events: Vec<Event<'a>>)
        ensures
            events@ == events_of(self.current(), *reaction),
    {
        let mut events: Vec<Event<'a>> = Vec::new();
        match reaction {
            Reaction::Nothing => {},
            Reaction::Asked => {
                events.push(Event::IsReady);
            },
            Reaction::Started => {
                events.push(Event::NewGame(&self.game));
                events.push(Event::NewTurn(&self.game, 0));
            },
            Reaction::Turn(elapsed) => {
                events.push(Event::NewTurn(&self.game, *elapsed));
            },
            Reaction::State => {
                events.push(Event::NotifyState(&self.game));
            },
            Reaction::Over(result) => {
                events.push(Event::GameOver(result.winner, result.reason));
            },
        }
        proof {
            assert(events@ =~= events_of(self.current(), *reaction));
        }
        events
    }

    /// The error with which a game ends when the engines are gone before
    /// it is over: an engine has not responded where the arbiter still
    /// waits for readiness, a closed channel otherwise.
    pub fn disconnected(&self) -> (e: Error)
        ensures
            e == (if self.phase() is Readying {
                Error::EngineNotResponded
            } else {
                Error::Channel
            }),
    {
        match self.phase {
            Phase::Readying { .. } => Error::EngineNotResponded,
            _ => Error::Channel,
        }
    }
}

/// The configured initial position, or the usual one, as bytes.
pub open spec fn initial_sfen(config: &MatchConfig) -> Seq<u8> {
    match config.initial_pos {
        Some(text) => vstd::utf8::encode_utf8(text@),
        None => crate::text::bytes_of(DEFAULT_SFEN),
    }
}

/// The phase after an action of an engine while the arbiter waits for
/// readiness: the game starts once both colours have reported.
pub open spec fn readiness_after(black: bool, white: bool, action: Action) -> Phase {
    match action {
        Action::Ready(c) => {
            let black = black || c == Color::Black;
            let white = white || c == Color::White;
            if black && white {
                Phase::Playing
            } else {
                Phase::Readying { black, white }
            }
        },
        _ => Phase::Readying { black, white },
    }
}

/// The events that make `reaction` known about `game`.
pub open spec fn events_of<'a>(game: Game, reaction: Reaction) -> Seq<Event<'a>> {
    match reaction {
        Reaction::Nothing => Seq::empty(),
        Reaction::Asked => seq![Event::IsReady],
        Reaction::Started => seq![Event::NewGame(&game), Event::NewTurn(&game, 0)],
        Reaction::Turn(elapsed) => seq![Event::NewTurn(&game, elapsed)],
        Reaction::State => seq![Event::NotifyState(&game)],
        Reaction::Over(result) => seq![Event::GameOver(result.winner, result.reason)],
    }
}

/// How the phase of a game and the reaction to an action go together: the
/// end of the game is broadcast exactly when a game that is being played
/// becomes a finished one, with the result that the arbiter keeps; turns
/// and states are told only of a game that is being played; a finished
/// game stays finished and silent; and no action makes the arbiter ask for
/// readiness.
pub open spec fn phase_step(before: Phase, reaction: Reaction, after: Phase) -> bool {
    &&& !(reaction is Asked)
    &&& reaction is Over <==> before is Playing && after is Finished
    &&& reaction matches Reaction::Over(result) ==> after == Phase::Finished(result)
    &&& (reaction is Turn || reaction is State) ==> before is Playing && after is Playing
    &&& reaction is Started <==> before is Readying && after is Playing
    &&& before is Finished ==> after == before && reaction is Nothing
    &&& before is Idle ==> after == before && reaction is Nothing
    &&& before is Playing ==> after is Playing || after is Finished
    &&& before is Readying ==> after is Readying || after is Playing
}

// ---------------------------------------------------------------------------
// Laws
// ---------------------------------------------------------------------------
/// A move that the arbiter accepts is a move of the side to move; after it
/// the other side is to move, the ply counter is one higher and the move is
/// the last one.
pub proof fn lemma_accepted_move(
    before: Environment,
    c: Color,
    m: Move,
    read_at: u64,
    now: u64,
    reaction: Reaction,
    after: Environment,
)
    requires
        before.played(Action::MakeMove(c, m, read_at), now, reaction, after),
        reaction.follows_accepted_move(),
    ensures
        c == before.current().pos.side_to_move(),
        after.current().pos.side_to_move() == c.opponent(),
        after.current().pos.ply() == before.current().pos.ply() + 1,
        after.current().pos.last_move_text() == Some(m@),
{
}

/// A course of a game: the phases that the arbiter goes through and its
/// reactions to the actions in between.
pub open spec fn is_course(phases: Seq<Phase>, reactions: Seq<Reaction>) -> bool {
    &&& phases.len() == reactions.len() + 1
    &&& forall|i: int|
        0 <= i < reactions.len() ==> phase_step(phases[i], #[trigger] reactions[i], phases[i + 1])
}

/// How often the end of the game is broadcast.
pub open spec fn game_overs(reactions: Seq<Reaction>) -> nat
    decreases reactions.len(),
{
    if reactions.len() == 0 {
        0
    } else {
        game_overs(reactions.drop_last()) + if reactions.last() is Over {
            1nat
        } else {
            0nat
        }
    }
}

/// In the course of a game the end of the game is broadcast once if the
/// game comes to an end, and never if it does not; and once it has been
/// broadcast, nothing is broadcast any more.
pub proof fn lemma_one_game_over(phases: Seq<Phase>, reactions: Seq<Reaction>)
    requires
        is_course(phases, reactions),
        !(phases[0] is Finished),
    ensures
        game_overs(reactions) == (if phases.last() is Finished {
            1nat
        } else {
            0nat
        }),
        forall|i: int, j: int|
            0 <= i < j < reactions.len() && reactions[i] is Over ==> #[trigger] reactions[j]
                is Nothing && #[trigger] phases[i + 1] == phases.last(),
    decreases reactions.len(),
{
    if reactions.len() > 0 {
        let n = reactions.len() as int;
        let front_phases = phases.drop_last();
        let front = reactions.drop_last();
        assert forall|i: int| 0 <= i < front.len() implies phase_step(
            front_phases[i],
            #[trigger] front[i],
            front_phases[i + 1],
        ) by {
            assert(phase_step(phases[i], reactions[i], phases[i + 1]));
        }
        lemma_one_game_over(front_phases, front);
        assert(phase_step(phases[n - 1], reactions[n - 1], phases[n]));
        assert(front_phases.last() == phases[n - 1]);
        assert forall|i: int, j: int|
            0 <= i < j < reactions.len() && reactions[i] is Over implies #[trigger] reactions[j]
                is Nothing && #[trigger] phases[i + 1] == phases.last() by {
            assert(phase_step(phases[i], reactions[i], phases[i + 1]));
            assert(phases[i + 1] is Finished);
            if j < n - 1 {
                assert(reactions[j] == front[j]);
                assert(phases[i + 1] == front_phases[i + 1]);
                assert(front_phases.last() == phases[i + 1]);
            } else {
                if i + 1 < n - 1 {
                    assert(reactions[i] == front[i]);
                    assert(front[n - 2] is Nothing && front_phases[i + 1] == front_phases.last());
                }
                assert(phases[n - 1] == phases[i + 1]);
            }
        }
    }
}

} // verus!
