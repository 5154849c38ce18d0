use usirun::game::GameOverReason;
use usirun::player::reader::EngineOutput;
use usirun::reporter::{outcome, progress, reason_to_text, summary, UsiReporter};
use usirun::rules::Color;
use usirun::stats::MatchStatistics;
use usirun::usi::gui::GuiCommand;

#[test]
fn the_outcome_of_a_game_is_told_in_a_sentence() {
    assert_eq!(
        b"Black won the game. (Resign)".to_vec(),
        outcome(Some(Color::Black), GameOverReason::Resign)
    );
    assert_eq!(
        b"White won the game. (IllegalMove)".to_vec(),
        outcome(Some(Color::White), GameOverReason::IllegalMove)
    );
    assert_eq!(
        b"White won the game. (OutOfTime)".to_vec(),
        outcome(Some(Color::White), GameOverReason::OutOfTime)
    );
    assert_eq!(
        b"Black won the game. (DeclareWinning)".to_vec(),
        outcome(Some(Color::Black), GameOverReason::DeclareWinning)
    );
    assert_eq!(b"Draw(MaxPly)".to_vec(), outcome(None, GameOverReason::MaxPly));
}

#[test]
fn reasons_have_names() {
    assert_eq!("Resign", reason_to_text(GameOverReason::Resign));
    assert_eq!("IllegalMove", reason_to_text(GameOverReason::IllegalMove));
    assert_eq!("OutOfTime", reason_to_text(GameOverReason::OutOfTime));
    assert_eq!("MaxPly", reason_to_text(GameOverReason::MaxPly));
    assert_eq!("DeclareWinning", reason_to_text(GameOverReason::DeclareWinning));
}

#[test]
fn the_game_that_is_played_is_numbered() {
    let mut stats = MatchStatistics::new(10);
    assert_eq!(b"[1/10]".to_vec(), progress(&stats));
    stats.record_game(None);
    stats.record_game(Some(Color::Black));
    assert_eq!(b"[3/10]".to_vec(), progress(&stats));
    assert_eq!(b"[1/4294967295]".to_vec(), progress(&MatchStatistics::new(u32::MAX)));
}

#[test]
fn the_score_of_a_match_is_a_table() {
    let mut stats = MatchStatistics::new(10);
    assert_eq!(b"Total\tBlack\tWhite\tDraw\n0\t0\t0\t0\n".to_vec(), summary(&stats));
    for winner in [Some(Color::Black), None, Some(Color::White), Some(Color::Black)] {
        stats.record_game(winner);
    }
    assert_eq!(b"Total\tBlack\tWhite\tDraw\n4\t2\t1\t1\n".to_vec(), summary(&stats));
}

#[test]
fn the_protocol_is_traced_line_by_line() {
    let mut reporter = UsiReporter::default();
    assert_eq!(
        b"B< isready\n".to_vec(),
        reporter.on_send_command(Color::Black, &GuiCommand::IsReady, b"isready\n")
    );
    assert_eq!(
        b"W< go btime 1\n".to_vec(),
        reporter.on_send_command(Color::White, &GuiCommand::Stop, b"go btime 1\n")
    );
    let output = EngineOutput::new(None, b"  readyok\n".to_vec(), 3);
    assert_eq!(b"B>   readyok\n".to_vec(), reporter.on_receive_command(Color::Black, &output));
    assert_eq!(b"W>   readyok\n".to_vec(), reporter.on_receive_command(Color::White, &output));
}
