//! The adapter of one engine between the wire and the arbiter: the
//! responses that become actions, the events that become commands, and the
//! state of pondering that ties the two together.

use vstd::prelude::*;
use crate::clock::TimeControl;
use crate::config::EngineConfig;
use crate::environment::{Action, Event};
use crate::error::Error;
use crate::player::reader::{EngineOutput, EngineOutputView};
use crate::rules::{move_text, Color, Move, SfenError};
use crate::text::{append, same};
use crate::usi::engine::{
    BestMoveParams, BestMoveView, EngineCommand, EngineCommandView, InfoParams, ScoreKind,
};
use crate::usi::gui::{GameOverKind, GuiCommand, GuiCommandView, ThinkParams};

verus! {

// ---------------------------------------------------------------------------
// Pondering
// ---------------------------------------------------------------------------
/// What an adapter remembers between a response and the next event.
#[derive(Debug)]
pub struct ThinkState {
    /// The last exact evaluation that the engine has reported, in
    /// centipawns.
    pub score: i32,
    pondering: Option<Move>,
    pending: bool,
}

/// The model of a `ThinkState`.
pub struct ThinkStateView {
    pub score: i32,
    /// The reply that the engine expects and thinks about on the
    /// opponent's time.
    pub pondering: Option<Seq<u8>>,
    /// Whether a search has been stopped after a wrong guess and the state
    /// of the game is to be asked for when its answer comes.
    pub pending: bool,
}

impl View for ThinkState {
    type V = ThinkStateView;

    closed spec fn view(&self) -> ThinkStateView {
        ThinkStateView {
            score: self.score,
            pondering: match self.pondering {
                Some(m) => Some(m@),
                None => None,
            },
            pending: self.pending,
        }
    }
}

impl ThinkState {
    /// What an adapter remembers before the first game: nothing.
    pub open spec fn initial() -> ThinkStateView {
        ThinkStateView { score: 0, pondering: None, pending: false }
    }

    /// The state of an adapter before the first game.
    pub fn new() -> (s: ThinkState)
        ensures
            s@ == ThinkState::initial(),
    {
        ThinkState { score: 0, pondering: None, pending: false }
    }

    /// The reply that the engine thinks about, in SFEN notation.
    pub fn pondering(&self) -> (m: Option<Vec<u8>>)
        ensures
            crate::usi::opt_view(m) == self@.pondering,
    {
        match &self.pondering {
            Some(p) => Some(p.to_sfen()),
            None => None,
        }
    }

    /// Whether the state of the game is to be asked for.
    pub fn pending(&self) -> (r: bool)
        ensures
            r == self@.pending,
    {
        self.pending
    }
}

/// The model of an `Action`.
pub enum ActionView {
    Ready(Color),
    RequestState,
    MakeMove(Color, Seq<u8>, u64),
    DeclareWinning(Color),
    Resign(Color),
}

impl View for Action {
    type V = ActionView;

    open spec fn view(&self) -> ActionView {
        match *self {
            Action::Ready(c) => ActionView::Ready(c),
            Action::RequestState => ActionView::RequestState,
            Action::MakeMove(c, m, t) => ActionView::MakeMove(c, m@, t),
            Action::DeclareWinning(c) => ActionView::DeclareWinning(c),
            Action::Resign(c) => ActionView::Resign(c),
        }
    }
}

/// The parameters of a search on the clock `time`.
pub open spec fn think_params(time: TimeControl) -> ThinkParams {
    match time {
        TimeControl::Byoyomi { black_time, white_time, byoyomi } => ThinkParams {
            ponder: false,
            btime: Some(black_time),
            wtime: Some(white_time),
            byoyomi: Some(byoyomi),
            binc: None,
            winc: None,
        },
        TimeControl::FischerClock { black_time, white_time, black_inc, white_inc } => ThinkParams {
            ponder: false,
            btime: Some(black_time),
            wtime: Some(white_time),
            byoyomi: None,
            binc: Some(black_inc),
            winc: Some(white_inc),
        },
    }
}

/// The parameters of a search on the clock `time`.
pub fn build_think_params(time: &TimeControl) -> (p: ThinkParams)
    ensures
        p == think_params(*time),
{
    match *time {
        TimeControl::Byoyomi { black_time, white_time, byoyomi } => {
            ThinkParams::new().btime(black_time).wtime(white_time).byoyomi(byoyomi)
        },
        TimeControl::FischerClock { black_time, white_time, black_inc, white_inc } => {
            ThinkParams::new().btime(black_time).wtime(white_time).binc(black_inc).winc(white_inc)
        },
    }
}

/// How a game ended for the side `color`.
pub open spec fn game_over_kind(winner: Option<Color>, color: Color) -> GameOverKind {
    match winner {
        Some(c) => if c == color {
            GameOverKind::Win
        } else {
            GameOverKind::Lose
        },
        None => GameOverKind::Draw,
    }
}

/// The first score among the items of an `info` line.
pub open spec fn first_score(items: Seq<InfoParams>) -> Option<(i32, ScoreKind)>
    decreases items.len(),
{
    if items.len() == 0 {
        None
    } else {
        match items[0] {
            InfoParams::Score(v, k) => Some((v, k)),
            _ => first_score(items.skip(1)),
        }
    }
}

/// The evaluation after an `info` line: the first score of the line where
/// it is an exact one in centipawns, else the evaluation as it was.
pub open spec fn score_after(score: i32, items: Seq<InfoParams>) -> i32 {
    match first_score(items) {
        Some((v, ScoreKind::CpExact)) => v,
        _ => score,
    }
}

/// What an adapter does on the answer to a search, where `best` is the move
/// that the answer names, if it names one, and `reply` the reply that it
/// expects, if it names one.
///
/// While the state of the game is to be asked for, the answer belongs to a
/// search that was stopped: it is not played, and the state is asked for.
/// Else the expected reply is kept where pondering is on, and the move is
/// played; an answer that names no move is an error.
pub open spec fn best_move_outcome(
    state: ThinkStateView,
    ponder: bool,
    color: Color,
    best: Option<Seq<u8>>,
    reply: Option<Seq<u8>>,
    read_at: u64,
) -> (ThinkStateView, Result<Option<ActionView>, Error>) {
    if state.pending {
        (state, Ok(Some(ActionView::RequestState)))
    } else {
        let next = if ponder && reply.is_some() {
            ThinkStateView { pondering: reply, ..state }
        } else {
            state
        };
        match best {
            Some(m) => (next, Ok(Some(ActionView::MakeMove(color, m, read_at)))),
            None => (next, Err(Error::Sfen(SfenError::IllegalMove))),
        }
    }
}

/// The move that an optional text denotes.
pub open spec fn optional_move(text: Option<Seq<u8>>) -> Option<Seq<u8>> {
    match text {
        Some(t) => move_text(t),
        None => None,
    }
}

/// What an adapter does on an output of its engine: the state after it,
/// and the action for the arbiter, if there is one.
pub open spec fn output_outcome(
    state: ThinkStateView,
    ponder: bool,
    color: Color,
    output: EngineOutputView,
) -> (ThinkStateView, Result<Option<ActionView>, Error>) {
    match output.response {
        Some(EngineCommandView::ReadyOk) => (state, Ok(Some(ActionView::Ready(color)))),
        Some(EngineCommandView::BestMove(BestMoveView::MakeMove(best, reply))) => best_move_outcome(
            state,
            ponder,
            color,
            move_text(best),
            optional_move(reply),
            output.timestamp,
        ),
        Some(EngineCommandView::BestMove(BestMoveView::Resign)) => (
            state,
            Ok(Some(ActionView::Resign(color))),
        ),
        Some(EngineCommandView::BestMove(BestMoveView::Win)) => (
            state,
            Ok(Some(ActionView::DeclareWinning(color))),
        ),
        Some(EngineCommandView::Info(items)) => (
            ThinkStateView { score: score_after(state.score, items), ..state },
            Ok(None),
        ),
        _ => (state, Ok(None)),
    }
}

/// What an adapter does when a turn begins.
#[derive(Debug, Clone, Copy, PartialEq, Eq, Structural)]
pub enum TurnPlan {
    /// The opponent has played the expected reply: the search goes on.
    Hit,
    /// The opponent has played another move: the search is stopped.
    Miss,
    /// A search is started on the position.
    Search,
    /// A search is started on the position after the expected reply.
    Speculate,
    /// Nothing.
    Wait,
}

/// The plan for a turn: `mine` says whether the adapter's side is to move.
pub open spec fn turn_plan(pondering: Option<Seq<u8>>, mine: bool, last_move: Option<Seq<u8>>) -> TurnPlan {
    if mine {
        match (pondering, last_move) {
            (Some(p), Some(last)) => if last == p {
                TurnPlan::Hit
            } else {
                TurnPlan::Miss
            },
            _ => TurnPlan::Search,
        }
    } else if pondering.is_some() {
        TurnPlan::Speculate
    } else {
        TurnPlan::Wait
    }
}

/// The state after a plan is carried out: a hit spends the expected reply,
/// a miss leaves the state of the game to be asked for.
pub open spec fn state_after_plan(state: ThinkStateView, plan: TurnPlan) -> ThinkStateView {
    match plan {
        TurnPlan::Hit => ThinkStateView { pondering: None, ..state },
        TurnPlan::Miss => ThinkStateView { pending: true, ..state },
        _ => state,
    }
}

/// The commands that carry out a plan on the position `sfen` with the clock
/// `time`, where `pondering` is the expected reply.
pub open spec fn plan_commands(
    plan: TurnPlan,
    sfen: Seq<u8>,
    pondering: Option<Seq<u8>>,
    time: TimeControl,
) -> Seq<GuiCommandView> {
    match plan {
        TurnPlan::Hit => seq![GuiCommandView::Ponderhit],
        TurnPlan::Miss => seq![GuiCommandView::Stop],
        TurnPlan::Search => seq![
            GuiCommandView::Position(sfen),
            GuiCommandView::Go(think_params(time)),
        ],
        TurnPlan::Speculate => seq![
            GuiCommandView::Position(
                sfen + seq![32u8] + match pondering {
                    Some(p) => p,
                    None => Seq::empty(),
                },
            ),
            GuiCommandView::Go(ThinkParams { ponder: true, ..think_params(time) }),
        ],
        TurnPlan::Wait => Seq::empty(),
    }
}

/// The state of an adapter of the side `color` after an event.
pub open spec fn state_after_event(state: ThinkStateView, color: Color, event: Event) -> ThinkStateView {
    match event {
        Event::IsReady => state,
        Event::NewGame(_) => ThinkStateView { score: 0, ..state },
        Event::NewTurn(game, _) => state_after_plan(
            state,
            turn_plan(
                state.pondering,
                game.pos.side_to_move() == color,
                game.pos.last_move_text(),
            ),
        ),
        Event::NotifyState(game) => if game.pos.side_to_move() == color {
            ThinkStateView { pending: false, ..state }
        } else {
            state
        },
        Event::GameOver(_, _) => state,
    }
}

/// The commands that an adapter of the side `color` sends on an event.
pub open spec fn event_commands(state: ThinkStateView, color: Color, event: Event) -> Seq<
    GuiCommandView,
> {
    match event {
        Event::IsReady => seq![GuiCommandView::IsReady],
        Event::NewGame(_) => seq![GuiCommandView::UsiNewGame],
        Event::NewTurn(game, _) => plan_commands(
            turn_plan(
                state.pondering,
                game.pos.side_to_move() == color,
                game.pos.last_move_text(),
            ),
            game.pos.sfen_text(),
            state.pondering,
            game.time,
        ),
        Event::NotifyState(game) => if game.pos.side_to_move() == color {
            plan_commands(TurnPlan::Search, game.pos.sfen_text(), None, game.time)
        } else {
            Seq::empty()
        },
        Event::GameOver(winner, _) => seq![
            GuiCommandView::Stop,
            GuiCommandView::GameOver(game_over_kind(winner, color)),
        ],
    }
}

/// The models of a list of commands.
pub open spec fn command_views(v: Seq<GuiCommand>) -> Seq<GuiCommandView> {
    Seq::new(v.len(), |i: int| v[i]@)
}

/// The model of the result of handling an output.
pub open spec fn action_result(r: Result<Option<Action>, Error>) -> Result<Option<ActionView>, Error> {
    match r {
        Ok(Some(a)) => Ok(Some(a@)),
        Ok(None) => Ok(None),
        Err(e) => Err(e),
    }
}

/// The adapter of one engine.
#[derive(Debug)]
pub struct UsiEngine {
    color: Color,
    name: Vec<u8>,
    ponder: bool,
    think_state: ThinkState,
}

impl UsiEngine {
    /// The side that the engine plays.
    pub closed spec fn side(&self) -> Color {
        self.color
    }

    /// The name that the engine gives itself.
    pub closed spec fn label(&self) -> Seq<u8> {
        self.name@
    }

    /// What the adapter remembers.
    pub closed spec fn state(&self) -> ThinkStateView {
        self.think_state@
    }

    /// The side that the engine plays.
    pub fn color(&self) -> (c: Color)
        ensures
            c == self.side(),
    {
        self.color
    }

    /// The name that the engine gives itself.
    pub fn name(&self) -> (n: &[u8])
        ensures
            n@ == self.label(),
    {
        self.name.as_slice()
    }

    /// Whether the engine thinks on the opponent's time.
    pub closed spec fn ponders(&self) -> bool {
        self.ponder
    }

    /// The adapter of the engine called `name` that plays `color` as
    /// `config` says.
    pub fn new(color: Color, config: &EngineConfig, name: Vec<u8>) -> (engine: UsiEngine)
        ensures
            engine.side() == color,
            engine.label() == name@,
            engine.ponders() == config.ponder,
            engine.state() == ThinkState::initial(),
    {
        UsiEngine { color, name, ponder: config.ponder, think_state: ThinkState::new() }
    }

    /// What the adapter remembers.
    pub fn think_state(&self) -> (s: &ThinkState)
        ensures
            s@ == self.state(),
    {
        &self.think_state
    }

    /// Takes the answer to a search. See `best_move_outcome`.
    pub fn on_best_move(&mut self, best: Option<Move>, reply: Option<Move>, read_at: u64) -> (r:
        Result<Option<Action>, Error>)
        ensures
            final(self).side() == old(self).side(),
            final(self).label() == old(self).label(),
            final(self).ponders() == old(self).ponders(),
            (final(self).state(), action_result(r)) == best_move_outcome(
                old(self).state(),
                old(self).ponders(),
                old(self).side(),
                match best {
                    Some(m) => Some(m@),
                    None => None,
                },
                match reply {
                    Some(m) => Some(m@),
                    None => None,
                },
                read_at,
            ),
    {
        if self.think_state.pending {
            return Ok(Some(Action::RequestState));
        }
        if self.ponder {
            match reply {
                Some(p) => {
                    self.think_state.pondering = Some(p);
                },
                None => {},
            }
        }
        match best {
            Some(m) => Ok(Some(Action::MakeMove(self.color, m, read_at))),
            None => Err(Error::Sfen(SfenError::IllegalMove)),
        }
    }

    /// Takes an output of the engine and returns the action for the
    /// arbiter, if the output calls for one.
    ///
    /// `readyok` reports readiness; `bestmove` plays a move, resigns or
    /// declares the game won (see `best_move_outcome`); an `info` line
    /// with an exact score in centipawns updates the evaluation; anything
    /// else goes by.
    pub fn handle_output(&mut self, output: &EngineOutput) -> (r: Result<Option<Action>, Error>)
        ensures
            final(self).side() == old(self).side(),
            final(self).label() == old(self).label(),
            final(self).ponders() == old(self).ponders(),
            (final(self).state(), action_result(r)) == output_outcome(
                old(self).state(),
                old(self).ponders(),
                old(self).side(),
                output@,
            ),
    {
        match output.response() {
            Some(EngineCommand::ReadyOk) => Ok(Some(Action::Ready(self.color))),
            Some(EngineCommand::BestMove(BestMoveParams::MakeMove(best, reply))) => {
                let best_move = Move::from_sfen(best.as_slice());
                let reply_move = match reply {
                    Some(text) => Move::from_sfen(text.as_slice()),
                    None => None,
                };
                self.on_best_move(best_move, reply_move, *output.timestamp())
            },
            Some(EngineCommand::BestMove(BestMoveParams::Resign)) => Ok(
                Some(Action::Resign(self.color)),
            ),
            Some(EngineCommand::BestMove(BestMoveParams::Win)) => Ok(
                Some(Action::DeclareWinning(self.color)),
            ),
            Some(EngineCommand::Info(items)) => {
                match find_score(items) {
                    Some((v, ScoreKind::CpExact)) => {
                        self.think_state.score = v;
                    },
                    _ => {},
                }
                Ok(None)
            },
            _ => Ok(None),
        }
    }

    /// Decides what to do when a turn begins, where `side_to_move` is the
    /// side to move and `last_move` the last move made, and remembers what
    /// follows from it.
    pub fn plan_turn(&mut self, side_to_move: Color, last_move: &Option<Vec<u8>>) -> (plan:
        TurnPlan)
        ensures
            final(self).side() == old(self).side(),
            final(self).label() == old(self).label(),
            final(self).ponders() == old(self).ponders(),
            plan == turn_plan(
                old(self).state().pondering,
                side_to_move == old(self).side(),
                crate::usi::opt_view(*last_move),
            ),
            final(self).state() == state_after_plan(old(self).state(), plan),
    {
        if side_to_move == self.color {
            let hit = match (&self.think_state.pondering, last_move) {
                (Some(p), Some(last)) => Some(same(last.as_slice(), p.as_bytes())),
                _ => None,
            };
            match hit {
                Some(true) => {
                    self.think_state.pondering = None;
                    TurnPlan::Hit
                },
                Some(false) => {
                    self.think_state.pending = true;
                    TurnPlan::Miss
                },
                None => TurnPlan::Search,
            }
        } else if self.think_state.pondering.is_some() {
            TurnPlan::Speculate
        } else {
            TurnPlan::Wait
        }
    }

    /// Takes an event of the arbiter and returns the commands for the
    /// engine, in the order in which they are sent.
    ///
    /// On its own turn the adapter lets a search go on that has guessed the
    /// opponent's move, stops one that has not, and starts one where none
    /// runs. On the opponent's turn it starts a search on the expected
    /// reply, if it has one. Told the state of the game on its own turn, it
    /// starts a search afresh. At the end of the game it stops the engine
    /// and tells it the result.
    pub fn notify_event(&mut self, event: &Event) -> (commands: Vec<GuiCommand>)
        ensures
            final(self).side() == old(self).side(),
            final(self).label() == old(self).label(),
            final(self).ponders() == old(self).ponders(),
            final(self).state() == state_after_event(old(self).state(), old(self).side(), *event),
            command_views(commands@) == event_commands(
                old(self).state(),
                old(self).side(),
                *event,
            ),
    {
        let mut commands: Vec<GuiCommand> = Vec::new();
        let ghost expected = event_commands(old(self).state(), old(self).side(), *event);
        match event {
            Event::IsReady => {
                commands.push(GuiCommand::IsReady);
                proof {
                    assert(command_views(commands@) =~= expected);
                }
            },
            Event::NewGame(_) => {
                self.think_state.score = 0;
                commands.push(GuiCommand::UsiNewGame);
                proof {
                    assert(command_views(commands@) =~= expected);
                }
            },
            Event::NewTurn(game, _) => {
                let reply = self.think_state.pondering();
                let last = game.pos.last_move();
                let plan = self.plan_turn(game.pos.side_to_move(), &last);
                proof {
                    assert(crate::usi::opt_view(last) == game.pos.last_move_text());
                    assert(expected == plan_commands(
                        plan,
                        game.pos.sfen_text(),
                        old(self).state().pondering,
                        game.time,
                    ));
                }
                match plan {
                    TurnPlan::Hit => {
                        commands.push(GuiCommand::Ponderhit);
                        proof {
                            assert(command_views(commands@) =~= expected);
                        }
                    },
                    TurnPlan::Miss => {
                        commands.push(GuiCommand::Stop);
                        proof {
                            assert(command_views(commands@) =~= expected);
                        }
                    },
                    TurnPlan::Search => {
                        commands.push(GuiCommand::Position(game.pos.to_sfen()));
                        commands.push(GuiCommand::Go(build_think_params(&game.time)));
                        proof {
                            assert(command_views(commands@) =~= expected);
                        }
                    },
                    TurnPlan::Speculate => {
                        let mut text = game.pos.to_sfen();
                        text.push(32u8);
                        match &reply {
                            Some(p) => append(&mut text, p.as_slice()),
                            None => {},
                        }
                        proof {
                            assert(text@ =~= game.pos.sfen_text() + seq![32u8] + match old(
                                self,
                            ).state().pondering {
                                Some(p) => p,
                                None => Seq::empty(),
                            });
                        }
                        commands.push(GuiCommand::Position(text));
                        commands.push(GuiCommand::Go(build_think_params(&game.time).ponder()));
                        proof {
                            assert(command_views(commands@) =~= expected);
                        }
                    },
                    TurnPlan::Wait => {
                        proof {
                            assert(command_views(commands@) =~= expected);
                        }
                    },
                }
            },
            Event::NotifyState(game) => {
                if game.pos.side_to_move() == self.color {
                    self.think_state.pending = false;
                    commands.push(GuiCommand::Position(game.pos.to_sfen()));
                    commands.push(GuiCommand::Go(build_think_params(&game.time)));
                }
                proof {
                    assert(command_views(commands@) =~= expected);
                }
            },
            Event::GameOver(winner, _) => {
                let kind = match winner {
                    Some(c) => {
                        if *c == self.color {
                            GameOverKind::Win
                        } else {
                            GameOverKind::Lose
                        }
                    },
                    None => GameOverKind::Draw,
                };
                commands.push(GuiCommand::Stop);
                commands.push(GuiCommand::GameOver(kind));
                proof {
                    assert(command_views(commands@) =~= expected);
                }
            },
        }
        commands
    }
}

/// Finds the first score among the items of an `info` line.
pub fn find_score(items: &Vec<InfoParams>) -> (r: Option<(i32, ScoreKind)>)
    ensures
        r == first_score(items@),
{
    let mut i: usize = 0;
    proof {
        assert(items@.skip(0) =~= items@);
    }
    while i < items.len()
        invariant
            i <= items.len(),
            first_score(items@) == first_score(items@.skip(i as int)),
        decreases items.len() - i,
    {
        proof {
            assert(items@.skip(i as int)[0] == items@[i as int]);
            assert(items@.skip(i as int).skip(1) =~= items@.skip(i + 1));
        }
        match items[i] {
            InfoParams::Score(v, k) => {
                return Some((v, k));
            },
            _ => {},
        }
        i += 1;
    }
    None
}

// ---------------------------------------------------------------------------
// Laws of pondering
// ---------------------------------------------------------------------------
/// After an answer that names the expected reply `p`, the adapter expects
/// `p`; turns of the opponent leave that as it is; and when its own turn
/// comes after the opponent has played `p`, the adapter sends `ponderhit`
/// and nothing else, and expects no reply any more.
pub proof fn lemma_ponder_hit(
    state: ThinkStateView,
    color: Color,
    best: Option<Seq<u8>>,
    p: Seq<u8>,
    read_at: u64,
    others_turn: Event,
    own_turn: Event,
)
    requires
        !state.pending,
        others_turn matches Event::NewTurn(g, _) && g.pos.side_to_move() != color,
        own_turn matches Event::NewTurn(g, _) && g.pos.side_to_move() == color
            && g.pos.last_move_text() == Some(p),
    ensures
        ({
            let answered = best_move_outcome(state, true, color, best, Some(p), read_at).0;
            let waited = state_after_event(answered, color, others_turn);
            &&& answered.pondering == Some(p)
            &&& waited == answered
            &&& event_commands(waited, color, own_turn) == seq![GuiCommandView::Ponderhit]
            &&& state_after_event(waited, color, own_turn).pondering.is_none()
            &&& !state_after_event(waited, color, own_turn).pending
        }),
{
}

/// After an answer that names the expected reply `p`, when the adapter's
/// turn comes after the opponent has played another move, the adapter sends
/// `stop` and nothing else. The answer to the stopped search is not played:
/// the adapter asks for the state of the game. Told the state on its own
/// turn, it sends the position and starts a search, and plays the answers
/// that follow.
pub proof fn lemma_ponder_miss(
    state: ThinkStateView,
    color: Color,
    best: Option<Seq<u8>>,
    p: Seq<u8>,
    read_at: u64,
    own_turn: Event,
    stale: Option<Seq<u8>>,
    stale_reply: Option<Seq<u8>>,
    stale_at: u64,
    told: Event,
)
    requires
        !state.pending,
        own_turn matches Event::NewTurn(g, _) && g.pos.side_to_move() == color
            && g.pos.last_move_text().is_some() && g.pos.last_move_text() != Some(p),
        told matches Event::NotifyState(g) && g.pos.side_to_move() == color,
    ensures
        ({
            let answered = best_move_outcome(state, true, color, best, Some(p), read_at).0;
            let missed = state_after_event(answered, color, own_turn);
            let asked = best_move_outcome(missed, true, color, stale, stale_reply, stale_at);
            let resumed = state_after_event(asked.0, color, told);
            &&& event_commands(answered, color, own_turn) == seq![GuiCommandView::Stop]
            &&& missed.pending
            &&& event_commands(missed, color, own_turn) == seq![GuiCommandView::Stop]
            &&& asked.1 == Ok::<Option<ActionView>, Error>(Some(ActionView::RequestState))
            &&& asked.0 == missed
            &&& told matches Event::NotifyState(g) && event_commands(asked.0, color, told) == seq![
                GuiCommandView::Position(g.pos.sfen_text()),
                GuiCommandView::Go(think_params(g.time)),
            ]
            &&& !resumed.pending
        }),
{
}

} // verus!
