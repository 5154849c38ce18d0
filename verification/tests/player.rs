use usirun::clock::TimeControl;
use usirun::config::{EngineConfig, MatchConfig};
use usirun::environment::{Action, Environment, Event, Reaction};
use usirun::error::Error;
use usirun::game::GameOverReason;
use usirun::player::engine::{build_think_params, find_score, ThinkState, TurnPlan, UsiEngine};
use usirun::player::reader::EngineOutput;
use usirun::rules::{Color, Move, SfenError};
use usirun::usi::engine::{EngineCommand, InfoField, InfoParams, ScoreKind};
use usirun::usi::gui::{GameOverKind, GuiCommand, ThinkParams};

const PLAYER_START: &str = "lnsgkgsnl/1r5b1/ppppppppp/9/9/9/PPPPPPPPP/1B5R1/LNSGKGSNL b - 1";

fn player_engine(color: Color, ponder: bool) -> UsiEngine {
    let mut config = EngineConfig::new();
    config.ponder = ponder;
    UsiEngine::new(color, &config, b"engine".to_vec())
}

fn player_output(line: &str, read_at: u64) -> EngineOutput {
    let response = EngineCommand::parse(line.as_bytes()).expect("a response");
    EngineOutput::new(Some(response), line.as_bytes().to_vec(), read_at)
}

fn player_sfen(moves: &str) -> Vec<u8> {
    format!("{} moves {}", PLAYER_START, moves).into_bytes()
}

fn player_go() -> GuiCommand {
    GuiCommand::Go(ThinkParams::new().btime(600000).wtime(600000).binc(10000).winc(10000))
}

fn player_game() -> Environment {
    let mut env = Environment::new();
    env.start_game(&MatchConfig::default(), b"first", b"second").expect("a game");
    env.handle_action(&Action::Ready(Color::Black), 0);
    env.handle_action(&Action::Ready(Color::White), 0);
    env
}

fn player_play(env: &mut Environment, engine: &mut UsiEngine, line: &str) -> Vec<GuiCommand> {
    let action = engine
        .handle_output(&player_output(line, 1))
        .expect("no error")
        .expect("an action");
    let reaction = env.handle_action(&action, 1).expect("within limits");
    let mut commands = Vec::new();
    for event in env.events(&reaction) {
        commands.extend(engine.notify_event(&event));
    }
    commands
}

fn player_tell(env: &mut Environment, engine: &mut UsiEngine, action: &Action) -> Vec<GuiCommand> {
    let reaction = env.handle_action(action, 1).expect("within limits");
    let mut commands = Vec::new();
    for event in env.events(&reaction) {
        commands.extend(engine.notify_event(&event));
    }
    commands
}

fn player_move(color: Color, text: &str) -> Action {
    Action::MakeMove(color, Move::from_sfen(text.as_bytes()).expect("a move"), 1)
}

#[test]
fn a_new_adapter_remembers_nothing() {
    let engine = player_engine(Color::White, true);
    assert_eq!(Color::White, engine.color());
    assert_eq!(b"engine".as_slice(), engine.name());
    assert_eq!(0, engine.think_state().score);
    assert_eq!(None, engine.think_state().pondering());
    assert!(!engine.think_state().pending());
    let state = ThinkState::new();
    assert_eq!(0, state.score);
    assert_eq!(None, state.pondering());
    assert!(!state.pending());
}

#[test]
fn readiness_is_reported() {
    let mut engine = player_engine(Color::White, false);
    let action = engine.handle_output(&player_output("readyok\n", 3)).expect("no error");
    assert!(matches!(action, Some(Action::Ready(Color::White))));
}

#[test]
fn an_answer_becomes_a_move_with_the_time_of_reading() {
    let mut engine = player_engine(Color::Black, false);
    let action = engine.handle_output(&player_output("bestmove 7g7f\n", 1234)).expect("no error");
    match action {
        Some(Action::MakeMove(Color::Black, m, 1234)) => assert_eq!(b"7g7f".to_vec(), m.to_sfen()),
        other => panic!("unexpected {:?}", other),
    }
    assert_eq!(None, engine.think_state().pondering());
}

#[test]
fn the_expected_reply_is_kept_where_pondering_is_on() {
    let mut engine = player_engine(Color::Black, true);
    let action = engine
        .handle_output(&player_output("bestmove 7g7f ponder 3c3d\n", 5))
        .expect("no error");
    assert!(matches!(action, Some(Action::MakeMove(Color::Black, _, 5))));
    assert_eq!(Some(b"3c3d".to_vec()), engine.think_state().pondering());

    engine.handle_output(&player_output("bestmove 2g2f\n", 6)).expect("no error");
    assert_eq!(Some(b"3c3d".to_vec()), engine.think_state().pondering());
    engine.handle_output(&player_output("bestmove 2g2f ponder nothing\n", 6)).expect("no error");
    assert_eq!(Some(b"3c3d".to_vec()), engine.think_state().pondering());
    engine.handle_output(&player_output("bestmove 2g2f ponder 8c8d\n", 6)).expect("no error");
    assert_eq!(Some(b"8c8d".to_vec()), engine.think_state().pondering());

    let mut engine = player_engine(Color::Black, false);
    engine.handle_output(&player_output("bestmove 7g7f ponder 3c3d\n", 5)).expect("no error");
    assert_eq!(None, engine.think_state().pondering());
}

#[test]
fn an_answer_that_names_no_move_is_an_error() {
    let mut engine = player_engine(Color::Black, true);
    let r = engine.handle_output(&player_output("bestmove 7g7x ponder 3c3d\n", 5));
    assert_eq!(Some(Error::Sfen(SfenError::IllegalMove)), r.err());
    assert_eq!(Some(b"3c3d".to_vec()), engine.think_state().pondering());
    let r = engine.handle_output(&player_output("bestmove \u{ff17}g7f\n", 5));
    assert_eq!(Some(Error::Sfen(SfenError::IllegalMove)), r.err());
}

#[test]
fn resignation_and_declaration_are_passed_on() {
    let mut engine = player_engine(Color::White, true);
    let action = engine.handle_output(&player_output("bestmove resign\n", 1)).expect("no error");
    assert!(matches!(action, Some(Action::Resign(Color::White))));
    let action = engine.handle_output(&player_output("bestmove win\n", 1)).expect("no error");
    assert!(matches!(action, Some(Action::DeclareWinning(Color::White))));
}

#[test]
fn an_exact_score_updates_the_evaluation() {
    let mut engine = player_engine(Color::Black, false);
    let action = engine
        .handle_output(&player_output("info depth 3 score cp -42 pv 7g7f\n", 1))
        .expect("no error");
    assert!(action.is_none());
    assert_eq!(-42, engine.think_state().score);
    engine.handle_output(&player_output("info score cp 100 lowerbound\n", 1)).expect("no error");
    assert_eq!(-42, engine.think_state().score);
    engine.handle_output(&player_output("info score mate 3\n", 1)).expect("no error");
    assert_eq!(-42, engine.think_state().score);
    engine.handle_output(&player_output("info depth 4\n", 1)).expect("no error");
    assert_eq!(-42, engine.think_state().score);
    engine
        .handle_output(&player_output("info score cp 7 upperbound score cp 9\n", 1))
        .expect("no error");
    assert_eq!(-42, engine.think_state().score);
    engine.handle_output(&player_output("info score cp 9 score cp 10 lowerbound\n", 1)).expect("no error");
    assert_eq!(9, engine.think_state().score);
}

#[test]
fn other_outputs_go_by() {
    let mut engine = player_engine(Color::Black, true);
    for line in ["usiok\n", "id name X\n", "option name A type check\n"] {
        let action = engine.handle_output(&player_output(line, 1)).expect("no error");
        assert!(action.is_none());
    }
    let end = EngineOutput::new(None, Vec::new(), 9);
    assert!(engine.handle_output(&end).expect("no error").is_none());
    assert_eq!(0, engine.think_state().score);
}

#[test]
fn the_first_score_of_a_line_is_found() {
    assert_eq!(None, find_score(&vec![]));
    assert_eq!(
        None,
        find_score(&vec![InfoParams::Number(InfoField::Depth, 1), InfoParams::Pv])
    );
    assert_eq!(
        Some((3, ScoreKind::MateExact)),
        find_score(&vec![
            InfoParams::CurrMove,
            InfoParams::Score(3, ScoreKind::MateExact),
            InfoParams::Score(4, ScoreKind::CpExact),
        ])
    );
}

#[test]
fn search_parameters_follow_the_clock() {
    assert_eq!(
        ThinkParams::new().btime(1).wtime(2).byoyomi(3),
        build_think_params(&TimeControl::Byoyomi { black_time: 1, white_time: 2, byoyomi: 3 })
    );
    assert_eq!(
        ThinkParams::new().btime(1).wtime(2).binc(3).winc(4),
        build_think_params(&TimeControl::FischerClock {
            black_time: 1,
            white_time: 2,
            black_inc: 3,
            white_inc: 4
        })
    );
}

#[test]
fn plain_events_become_plain_commands() {
    let mut engine = player_engine(Color::White, true);
    assert_eq!(vec![GuiCommand::IsReady], engine.notify_event(&Event::IsReady));
    engine.handle_output(&player_output("info score cp 55\n", 1)).expect("no error");
    assert_eq!(55, engine.think_state().score);
    let env = player_game();
    assert_eq!(vec![GuiCommand::UsiNewGame], engine.notify_event(&Event::NewGame(env.game())));
    assert_eq!(0, engine.think_state().score);
}

#[test]
fn the_end_of_the_game_is_told_to_the_engine() {
    let mut engine = player_engine(Color::White, true);
    assert_eq!(
        vec![GuiCommand::Stop, GuiCommand::GameOver(GameOverKind::Win)],
        engine.notify_event(&Event::GameOver(Some(Color::White), GameOverReason::Resign))
    );
    assert_eq!(
        vec![GuiCommand::Stop, GuiCommand::GameOver(GameOverKind::Lose)],
        engine.notify_event(&Event::GameOver(Some(Color::Black), GameOverReason::OutOfTime))
    );
    assert_eq!(
        vec![GuiCommand::Stop, GuiCommand::GameOver(GameOverKind::Draw)],
        engine.notify_event(&Event::GameOver(None, GameOverReason::MaxPly))
    );
}

#[test]
fn a_search_is_started_on_the_own_turn() {
    let env = player_game();
    let mut black = player_engine(Color::Black, true);
    let mut white = player_engine(Color::White, true);
    let event = Event::NewTurn(env.game(), 0);
    assert_eq!(
        vec![GuiCommand::Position(PLAYER_START.as_bytes().to_vec()), player_go()],
        black.notify_event(&event)
    );
    assert_eq!(Vec::<GuiCommand>::new(), white.notify_event(&event));
}

#[test]
fn a_reply_expected_before_the_first_move_starts_a_plain_search() {
    let env = player_game();
    let mut black = player_engine(Color::Black, true);
    black.handle_output(&player_output("bestmove 7g7f ponder 3c3d\n", 1)).expect("no error");
    assert_eq!(
        vec![GuiCommand::Position(PLAYER_START.as_bytes().to_vec()), player_go()],
        black.notify_event(&Event::NewTurn(env.game(), 0))
    );
    assert_eq!(Some(b"3c3d".to_vec()), black.think_state().pondering());
    assert!(!black.think_state().pending());
}

#[test]
fn a_guessed_reply_lets_the_search_go_on() {
    let mut env = player_game();
    let mut black = player_engine(Color::Black, true);
    let commands = player_play(&mut env, &mut black, "bestmove 7g7f ponder 3c3d\n");
    let mut guess = player_sfen("7g7f");
    guess.extend_from_slice(b" 3c3d");
    assert_eq!(
        vec![
            GuiCommand::Position(guess),
            GuiCommand::Go(
                ThinkParams::new().btime(609999).wtime(600000).binc(10000).winc(10000).ponder()
            ),
        ],
        commands
    );
    assert_eq!(Some(b"3c3d".to_vec()), black.think_state().pondering());

    let commands = player_tell(&mut env, &mut black, &player_move(Color::White, "3c3d"));
    assert_eq!(vec![GuiCommand::Ponderhit], commands);
    assert_eq!(None, black.think_state().pondering());
    assert!(!black.think_state().pending());

    let action = black.handle_output(&player_output("bestmove 2g2f\n", 9)).expect("no error");
    assert!(matches!(action, Some(Action::MakeMove(Color::Black, _, 9))));
}

#[test]
fn a_wrong_guess_stops_the_search_and_asks_for_the_state() {
    let mut env = player_game();
    let mut black = player_engine(Color::Black, true);
    player_play(&mut env, &mut black, "bestmove 7g7f ponder 3c3d\n");

    let commands = player_tell(&mut env, &mut black, &player_move(Color::White, "8c8d"));
    assert_eq!(vec![GuiCommand::Stop], commands);
    assert!(black.think_state().pending());

    let action = black
        .handle_output(&player_output("bestmove 2g2f\n", 7))
        .expect("no error")
        .expect("an action");
    assert!(matches!(action, Action::RequestState));
    assert!(black.think_state().pending());
    assert_eq!(Some(b"3c3d".to_vec()), black.think_state().pondering());

    let reaction = env.handle_action(&action, 8).expect("within limits");
    assert_eq!(Reaction::State, reaction);
    assert_eq!(3, env.game().pos.ply());
    let events = env.events(&reaction);
    let mut white = player_engine(Color::White, true);
    assert_eq!(Vec::<GuiCommand>::new(), white.notify_event(&events[0]));
    let commands = black.notify_event(&events[0]);
    assert_eq!(
        vec![
            GuiCommand::Position(player_sfen("7g7f 8c8d")),
            GuiCommand::Go(
                ThinkParams::new().btime(609999).wtime(610000).binc(10000).winc(10000)
            ),
        ],
        commands
    );
    assert!(!black.think_state().pending());

    let action = black
        .handle_output(&player_output("bestmove 2g2f\n", 9))
        .expect("no error")
        .expect("an action");
    match action {
        Action::MakeMove(Color::Black, m, 9) => assert_eq!(b"2g2f".to_vec(), m.to_sfen()),
        other => panic!("unexpected {:?}", other),
    }
}

#[test]
fn the_state_is_of_no_concern_on_the_opponents_turn() {
    let env = player_game();
    let mut white = player_engine(Color::White, true);
    assert_eq!(
        Vec::<GuiCommand>::new(),
        white.notify_event(&Event::NotifyState(env.game()))
    );
    let mut black = player_engine(Color::Black, false);
    assert_eq!(
        vec![GuiCommand::Position(PLAYER_START.as_bytes().to_vec()), player_go()],
        black.notify_event(&Event::NotifyState(env.game()))
    );
}

#[test]
fn turns_are_planned_from_plain_values() {
    let mut engine = player_engine(Color::White, true);
    assert_eq!(TurnPlan::Wait, engine.plan_turn(Color::Black, &None));
    assert_eq!(TurnPlan::Search, engine.plan_turn(Color::White, &None));
    assert_eq!(TurnPlan::Search, engine.plan_turn(Color::White, &Some(b"7g7f".to_vec())));
    let reply = || Move::from_sfen(b"2g2f");
    let best = || Move::from_sfen(b"3c3d");
    engine.on_best_move(best(), reply(), 1).expect("no error");
    assert_eq!(TurnPlan::Speculate, engine.plan_turn(Color::Black, &Some(b"3c3d".to_vec())));
    assert_eq!(TurnPlan::Search, engine.plan_turn(Color::White, &None));
    assert_eq!(TurnPlan::Miss, engine.plan_turn(Color::White, &Some(b"2g2f+".to_vec())));
    assert!(engine.think_state().pending());
    assert_eq!(Some(b"2g2f".to_vec()), engine.think_state().pondering());
    assert!(matches!(engine.on_best_move(best(), None, 1), Ok(Some(Action::RequestState))));
    assert_eq!(TurnPlan::Hit, engine.plan_turn(Color::White, &Some(b"2g2f".to_vec())));
    assert_eq!(None, engine.think_state().pondering());
    assert!(matches!(engine.on_best_move(None, reply(), 1), Ok(Some(Action::RequestState))));
    assert_eq!(None, engine.think_state().pondering());
}
