use usirun::usi::engine::{
    BestMoveParams, EngineCommand, IdParams, InfoField, InfoParams, OptionKind, OptionParams,
    ScoreKind,
};
use usirun::usi::UsiError;

fn engine_option(name: &str, value: OptionKind) -> Result<EngineCommand, UsiError> {
    Ok(EngineCommand::Option(OptionParams {
        name: name.as_bytes().to_vec(),
        value,
    }))
}

fn engine_info(items: Vec<InfoParams>) -> Result<EngineCommand, UsiError> {
    Ok(EngineCommand::Info(items))
}

#[test]
fn plain_responses_are_read() {
    assert_eq!(Ok(EngineCommand::UsiOk), EngineCommand::parse(b"usiok\n"));
    assert_eq!(Ok(EngineCommand::ReadyOk), EngineCommand::parse(b"readyok\n"));
    assert_eq!(Ok(EngineCommand::ReadyOk), EngineCommand::parse(b"   readyok \r\n"));
}

#[test]
fn the_identity_of_an_engine_is_read() {
    assert_eq!(
        Ok(EngineCommand::Id(IdParams::Name(b"Lesserkai 1.4.2".to_vec()))),
        EngineCommand::parse(b"id name Lesserkai   1.4.2\n")
    );
    assert_eq!(
        Ok(EngineCommand::Id(IdParams::Author(b"Program Writer".to_vec()))),
        EngineCommand::parse(b"id author Program Writer\n")
    );
    assert_eq!(
        Ok(EngineCommand::Id(IdParams::Name(b"".to_vec()))),
        EngineCommand::parse(b"id name\n")
    );
    assert_eq!(Err(UsiError::IllegalSyntax), EngineCommand::parse(b"id\n"));
    assert_eq!(Err(UsiError::IllegalSyntax), EngineCommand::parse(b"id version 3\n"));
}

#[test]
fn the_answer_to_a_search_is_read() {
    assert_eq!(
        Ok(EngineCommand::BestMove(BestMoveParams::MakeMove(
            b"7g7f".to_vec(),
            None
        ))),
        EngineCommand::parse(b"bestmove 7g7f\n")
    );
    assert_eq!(
        Ok(EngineCommand::BestMove(BestMoveParams::MakeMove(
            b"7g7f".to_vec(),
            Some(b"3c3d".to_vec())
        ))),
        EngineCommand::parse(b"bestmove 7g7f ponder 3c3d\n")
    );
    assert_eq!(
        Ok(EngineCommand::BestMove(BestMoveParams::Resign)),
        EngineCommand::parse(b"bestmove resign\n")
    );
    assert_eq!(
        Ok(EngineCommand::BestMove(BestMoveParams::Win)),
        EngineCommand::parse(b"bestmove win\n")
    );
    assert_eq!(
        Ok(EngineCommand::BestMove(BestMoveParams::MakeMove(
            b"nonsense".to_vec(),
            None
        ))),
        EngineCommand::parse(b"bestmove nonsense\n")
    );
    assert_eq!(Err(UsiError::IllegalSyntax), EngineCommand::parse(b"bestmove\n"));
    assert_eq!(Err(UsiError::IllegalSyntax), EngineCommand::parse(b"bestmove 7g7f ponder\n"));
    assert_eq!(Err(UsiError::IllegalSyntax), EngineCommand::parse(b"bestmove 7g7f 3c3d\n"));
    assert_eq!(
        Err(UsiError::IllegalSyntax),
        EngineCommand::parse(b"bestmove 7g7f ponder 3c3d 2g2f\n")
    );
    assert_eq!(
        Err(UsiError::IllegalSyntax),
        EngineCommand::parse(b"bestmove 7g7f think 3c3d\n")
    );
}

#[test]
fn scores_are_read_with_their_kind() {
    assert_eq!(
        engine_info(vec![InfoParams::Score(-1521, ScoreKind::CpExact)]),
        EngineCommand::parse(b"info score cp -1521\n")
    );
    assert_eq!(
        engine_info(vec![InfoParams::Score(12, ScoreKind::CpLowerbound)]),
        EngineCommand::parse(b"info score cp 12 lowerbound\n")
    );
    assert_eq!(
        engine_info(vec![InfoParams::Score(12, ScoreKind::CpUpperbound)]),
        EngineCommand::parse(b"info score cp 12 upperbound\n")
    );
    assert_eq!(
        engine_info(vec![InfoParams::Score(5, ScoreKind::MateExact)]),
        EngineCommand::parse(b"info score mate 5\n")
    );
    assert_eq!(
        engine_info(vec![InfoParams::Score(1, ScoreKind::MateSignOnly)]),
        EngineCommand::parse(b"info score mate +\n")
    );
    assert_eq!(
        engine_info(vec![InfoParams::Score(-1, ScoreKind::MateSignOnly)]),
        EngineCommand::parse(b"info score mate -\n")
    );
    assert_eq!(
        engine_info(vec![InfoParams::Score(-3, ScoreKind::MateLowerbound)]),
        EngineCommand::parse(b"info score mate -3 lowerbound\n")
    );
    assert_eq!(
        engine_info(vec![InfoParams::Score(3, ScoreKind::MateUpperbound)]),
        EngineCommand::parse(b"info score mate 3 upperbound\n")
    );
    assert_eq!(
        engine_info(vec![InfoParams::Score(2147483647, ScoreKind::CpExact)]),
        EngineCommand::parse(b"info score cp 2147483647\n")
    );
    assert_eq!(
        engine_info(vec![InfoParams::Score(-2147483648, ScoreKind::CpExact)]),
        EngineCommand::parse(b"info score cp -2147483648\n")
    );
    assert_eq!(
        Err(UsiError::IllegalSyntax),
        EngineCommand::parse(b"info score cp 2147483648\n")
    );
    assert_eq!(Err(UsiError::IllegalSyntax), EngineCommand::parse(b"info score cp\n"));
    assert_eq!(Err(UsiError::IllegalSyntax), EngineCommand::parse(b"info score\n"));
    assert_eq!(Err(UsiError::IllegalSyntax), EngineCommand::parse(b"info score cp +\n"));
    assert_eq!(Err(UsiError::IllegalSyntax), EngineCommand::parse(b"info score elo 3\n"));
}

#[test]
fn the_items_of_an_info_line_are_read_in_order() {
    assert_eq!(engine_info(vec![]), EngineCommand::parse(b"info\n"));
    assert_eq!(
        engine_info(vec![
            InfoParams::Number(InfoField::Depth, 8),
            InfoParams::Number(InfoField::SelDepth, 12),
            InfoParams::Number(InfoField::Time, 1234),
            InfoParams::Number(InfoField::Nodes, 9876543210),
            InfoParams::Number(InfoField::Nps, 100000),
            InfoParams::Number(InfoField::HashFull, 55),
            InfoParams::Number(InfoField::MultiPv, 1),
            InfoParams::CurrMove,
            InfoParams::Score(156, ScoreKind::CpExact),
            InfoParams::Pv,
        ]),
        EngineCommand::parse(
            b"info depth 8 seldepth 12 time 1234 nodes 9876543210 nps 100000 hashfull 55 multipv 1 currmove 7g7f score cp 156 pv P*5h 4g5g 5h5g score cp 3\n"
        )
    );
    assert_eq!(
        engine_info(vec![InfoParams::Text]),
        EngineCommand::parse(b"info string score cp 99 is only talk\n")
    );
    assert_eq!(
        engine_info(vec![
            InfoParams::Score(1, ScoreKind::CpExact),
            InfoParams::Score(2, ScoreKind::CpLowerbound),
        ]),
        EngineCommand::parse(b"info score cp 1 score cp 2 lowerbound\n")
    );
    assert_eq!(Err(UsiError::IllegalSyntax), EngineCommand::parse(b"info depth\n"));
    assert_eq!(Err(UsiError::IllegalSyntax), EngineCommand::parse(b"info depth deep\n"));
    assert_eq!(Err(UsiError::IllegalSyntax), EngineCommand::parse(b"info currmove\n"));
    assert_eq!(Err(UsiError::IllegalSyntax), EngineCommand::parse(b"info mood 3\n"));
}

#[test]
fn options_are_read_with_their_defaults() {
    assert_eq!(
        engine_option("UseBook", OptionKind::Check { default: Some(true) }),
        EngineCommand::parse(b"option name UseBook type check default true\n")
    );
    assert_eq!(
        engine_option("UseBook", OptionKind::Check { default: Some(false) }),
        EngineCommand::parse(b"option name UseBook type check default false\n")
    );
    assert_eq!(
        engine_option("UseBook", OptionKind::Check { default: None }),
        EngineCommand::parse(b"option name UseBook type check\n")
    );
    assert_eq!(
        engine_option(
            "Selectivity",
            OptionKind::Spin { default: Some(2), min: Some(0), max: Some(4) }
        ),
        EngineCommand::parse(b"option name Selectivity type spin default 2 min 0 max 4\n")
    );
    assert_eq!(
        engine_option(
            "Selectivity",
            OptionKind::Spin { default: Some(-2), min: None, max: None }
        ),
        EngineCommand::parse(b"option name Selectivity type spin default -2\n")
    );
    assert_eq!(
        engine_option(
            "Style",
            OptionKind::Combo {
                default: Some(b"Normal".to_vec()),
                vars: vec![b"Solid".to_vec(), b"Normal".to_vec(), b"Risky".to_vec()],
            }
        ),
        EngineCommand::parse(
            b"option name Style type combo default Normal var Solid var Normal var Risky\n"
        )
    );
    assert_eq!(
        engine_option("ResetLearning", OptionKind::Button { default: None }),
        EngineCommand::parse(b"option name ResetLearning type button\n")
    );
    assert_eq!(
        engine_option(
            "BookFile",
            OptionKind::String { default: Some(b"public.bin".to_vec()) }
        ),
        EngineCommand::parse(b"option name BookFile type string default public.bin\n")
    );
    assert_eq!(
        engine_option(
            "LearningFile",
            OptionKind::Filename { default: Some(b"<empty>".to_vec()) }
        ),
        EngineCommand::parse(b"option name LearningFile type filename default <empty>\n")
    );
    assert_eq!(
        engine_option(
            "Selectivity",
            OptionKind::Spin { default: Some(7), min: None, max: None }
        ),
        EngineCommand::parse(b"option name Selectivity type spin default 2 default 7\n")
    );
}

#[test]
fn options_of_the_wrong_form_are_refused() {
    let cases: [&[u8]; 11] = [
        b"option",
        b"option name UseBook",
        b"option name UseBook type",
        b"option title UseBook type check",
        b"option name UseBook kind check",
        b"option name UseBook type check default yes",
        b"option name UseBook type check default",
        b"option name UseBook type slider",
        b"option name Selectivity type spin default two",
        b"option name Selectivity type spin min 0 max four",
        b"option name Selectivity type spin step 2",
    ];
    for case in cases {
        assert_eq!(
            Err(UsiError::IllegalSyntax),
            EngineCommand::parse(case),
            "{:?}",
            String::from_utf8_lossy(case)
        );
    }
}

#[test]
fn the_default_of_an_option_is_kept_as_a_text() {
    assert_eq!(b"true".to_vec(), OptionKind::Check { default: Some(true) }.default_text());
    assert_eq!(b"false".to_vec(), OptionKind::Check { default: Some(false) }.default_text());
    assert_eq!(b"".to_vec(), OptionKind::Check { default: None }.default_text());
    assert_eq!(
        b"-12".to_vec(),
        OptionKind::Spin { default: Some(-12), min: None, max: Some(3) }.default_text()
    );
    assert_eq!(
        b"".to_vec(),
        OptionKind::Spin { default: None, min: Some(1), max: Some(3) }.default_text()
    );
    assert_eq!(
        b"Normal".to_vec(),
        OptionKind::Combo { default: Some(b"Normal".to_vec()), vars: vec![] }.default_text()
    );
    assert_eq!(
        b"".to_vec(),
        OptionKind::Combo { default: None, vars: vec![b"Solid".to_vec()] }.default_text()
    );
    assert_eq!(
        b"x".to_vec(),
        OptionKind::Button { default: Some(b"x".to_vec()) }.default_text()
    );
    assert_eq!(
        b"a.bin".to_vec(),
        OptionKind::String { default: Some(b"a.bin".to_vec()) }.default_text()
    );
    assert_eq!(b"".to_vec(), OptionKind::Filename { default: None }.default_text());
}

#[test]
fn lines_that_are_no_responses_are_refused() {
    assert_eq!(Err(UsiError::Blank), EngineCommand::parse(b""));
    assert_eq!(Err(UsiError::Blank), EngineCommand::parse(b"  \t \n"));
    assert_eq!(Err(UsiError::UnknownCommand), EngineCommand::parse(b"hello world\n"));
    assert_eq!(Err(UsiError::UnknownCommand), EngineCommand::parse(b"usi\n"));
    assert_eq!(Err(UsiError::UnknownCommand), EngineCommand::parse(b"checkmate nomate\n"));
    assert_eq!(Err(UsiError::IllegalSyntax), EngineCommand::parse(b"usiok usiok\n"));
    assert_eq!(Err(UsiError::IllegalSyntax), EngineCommand::parse(b"readyok now\n"));
}

#[test]
fn white_space_around_a_response_does_not_count() {
    assert_eq!(
        EngineCommand::parse(b"bestmove 7g7f ponder 3c3d"),
        EngineCommand::parse(b"\t  bestmove   7g7f\tponder 3c3d \r\n")
    );
    assert_eq!(
        EngineCommand::parse(b"info score cp 5"),
        EngineCommand::parse(b"\x0c\x0binfo score cp 5\n\n")
    );
}
