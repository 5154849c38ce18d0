use usirun::config::MatchConfig;
use usirun::environment::{Action, Event, Phase, Reaction};
use usirun::error::Error;
use usirun::game::{GameOverReason, GameResult};
use usirun::rules::{Color, Move, SfenError};
use usirun::runner::MatchRunner;

fn runner_ready(runner: &mut MatchRunner) {
    assert_eq!(Some(Reaction::Nothing), runner.handle_action(&Action::Ready(Color::Black), 0));
    assert_eq!(Some(Reaction::Started), runner.handle_action(&Action::Ready(Color::White), 0));
}

#[test]
fn a_match_by_resignation_counts_one_win_for_white() {
    let config = MatchConfig::default();
    let mut runner = MatchRunner::new(&config);
    assert!(runner.has_next_game());
    assert_eq!(Ok(Some(Reaction::Asked)), runner.start_game(&config, b"first", b"second"));
    runner_ready(&mut runner);
    let reaction = runner.handle_action(&Action::Resign(Color::Black), 5);
    assert_eq!(
        Some(Reaction::Over(GameResult::new(Some(Color::White), GameOverReason::Resign))),
        reaction
    );
    let events = runner.events(&reaction.unwrap());
    assert_eq!(1, events.len());
    assert!(matches!(events[0], Event::GameOver(Some(Color::White), GameOverReason::Resign)));
    assert_eq!(0, runner.stats().black_wins());
    assert_eq!(1, runner.stats().white_wins());
    assert_eq!(0, runner.stats().draw_games());
    assert_eq!(1, runner.stats().finished_games());
    assert_eq!(1, runner.stats().total_games());
    assert!(!runner.has_next_game());
    assert_eq!(Ok(None), runner.start_game(&config, b"first", b"second"));
    assert!(matches!(runner.env().state(), Phase::Finished(_)));
    assert_eq!(Some(Reaction::Nothing), runner.handle_action(&Action::Resign(Color::Black), 6));
    assert_eq!(1, runner.stats().finished_games());
}

#[test]
fn the_games_of_a_match_add_up() {
    let mut config = MatchConfig::default();
    config.num_games = 3;
    config.max_ply = Some(2);
    let mut runner = MatchRunner::new(&config);
    assert_eq!(None, runner.env().result());

    assert_eq!(Ok(Some(Reaction::Asked)), runner.start_game(&config, b"a", b"b"));
    runner_ready(&mut runner);
    let first = Action::MakeMove(Color::Black, Move::from_sfen(b"7g7f").unwrap(), 1);
    assert_eq!(
        Some(Reaction::Over(GameResult::new(None, GameOverReason::MaxPly))),
        runner.handle_action(&first, 1)
    );

    assert_eq!(Ok(Some(Reaction::Asked)), runner.start_game(&config, b"a", b"b"));
    runner_ready(&mut runner);
    assert_eq!(Some(Reaction::State), runner.handle_action(&Action::RequestState, 1));
    assert_eq!(1, runner.stats().finished_games());
    let wrong = Action::MakeMove(Color::White, Move::from_sfen(b"3c3d").unwrap(), 1);
    assert_eq!(
        Some(Reaction::Over(GameResult::new(Some(Color::White), GameOverReason::IllegalMove))),
        runner.handle_action(&wrong, 1)
    );

    assert_eq!(Ok(Some(Reaction::Asked)), runner.start_game(&config, b"a", b"b"));
    runner_ready(&mut runner);
    assert_eq!(
        Some(Reaction::Over(GameResult::new(Some(Color::Black), GameOverReason::IllegalMove))),
        runner.handle_action(&Action::Resign(Color::White), 1)
    );

    assert_eq!(1, runner.stats().black_wins());
    assert_eq!(1, runner.stats().white_wins());
    assert_eq!(1, runner.stats().draw_games());
    assert_eq!(3, runner.stats().finished_games());
    assert_eq!(3, runner.stats().total_games());
    assert_eq!(Ok(None), runner.start_game(&config, b"a", b"b"));
}

#[test]
fn a_match_of_no_games_starts_none() {
    let mut config = MatchConfig::default();
    config.num_games = 0;
    let mut runner = MatchRunner::new(&config);
    assert!(!runner.has_next_game());
    assert_eq!(Ok(None), runner.start_game(&config, b"a", b"b"));
    assert_eq!(Phase::Idle, runner.env().state());
}

#[test]
fn a_broken_position_starts_no_game() {
    let mut config = MatchConfig::default();
    config.initial_pos = Some("9/9/9 b".to_string());
    let mut runner = MatchRunner::new(&config);
    assert_eq!(
        Err(Error::Sfen(SfenError::MissingDataFields)),
        runner.start_game(&config, b"a", b"b")
    );
    assert_eq!(Phase::Idle, runner.env().state());
    assert_eq!(0, runner.stats().finished_games());
    assert!(runner.has_next_game());
}
