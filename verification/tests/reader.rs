use usirun::error::Error;
use usirun::player::reader::EngineCommandReader;
use usirun::usi::engine::{BestMoveParams, EngineCommand};
use usirun::usi::UsiError;

#[test]
fn reader_it_works() {
    let buf = "\nusiok\n\n     readyok\n  bestmove 5e5f\n";

    let mut reader = EngineCommandReader::new(buf.as_bytes());

    let output = reader.next().expect("failed to read the output");
    match *output.response() {
        Some(EngineCommand::UsiOk) => assert!(true),
        ref r => unreachable!("unexpected {:?}", r),
    }
    assert_eq!("usiok\n".as_bytes(), output.raw_str());

    let output = reader.next().expect("failed to read the output");
    match *output.response() {
        Some(EngineCommand::ReadyOk) => assert!(true),
        ref r => unreachable!("unexpected {:?}", r),
    }
    assert_eq!("     readyok\n".as_bytes(), output.raw_str());

    let output = reader.next().expect("failed to read the output");
    match *output.response() {
        Some(EngineCommand::BestMove(BestMoveParams::MakeMove(_, None))) => assert!(true),
        ref r => unreachable!("unexpected {:?}", r),
    }
    assert_eq!("  bestmove 5e5f\n".as_bytes(), output.raw_str());
}

#[test]
fn reader_reports_the_end_of_the_output() {
    let mut reader = EngineCommandReader::new(b"readyok\n \t \n\n");
    let output = reader.next().expect("a response");
    assert_eq!(&Some(EngineCommand::ReadyOk), output.response());

    let output = reader.next().expect("the end");
    assert_eq!(&None, output.response());
    assert_eq!(b"".as_slice(), output.raw_str());

    let output = reader.next().expect("still the end");
    assert_eq!(&None, output.response());
}

#[test]
fn reader_reads_a_last_line_without_line_feed() {
    let mut reader = EngineCommandReader::new(b"usiok");
    let output = reader.next().expect("a response");
    assert_eq!(&Some(EngineCommand::UsiOk), output.response());
    assert_eq!(b"usiok".as_slice(), output.raw_str());
}

#[test]
fn reader_spends_a_line_that_is_no_response() {
    let mut reader = EngineCommandReader::new(b"hello world\nbestmove\nreadyok\n");
    assert_eq!(Some(Error::Usi(UsiError::UnknownCommand)), reader.next().err());
    assert_eq!(Some(Error::Usi(UsiError::IllegalSyntax)), reader.next().err());
    let output = reader.next().expect("a response");
    assert_eq!(&Some(EngineCommand::ReadyOk), output.response());
}

#[test]
fn reader_stamps_outputs_with_the_time_of_arrival() {
    let mut reader = EngineCommandReader::new(b"");
    reader.feed(b"\n\nbest", 10);
    reader.feed(b"move resign\nreadyok\n", 25);
    reader.feed(b"usiok\n", 40);
    let output = reader.next().expect("a response");
    assert_eq!(
        &Some(EngineCommand::BestMove(BestMoveParams::Resign)),
        output.response()
    );
    assert_eq!(25, *output.timestamp());
    assert_eq!(b"bestmove resign\n".as_slice(), output.raw_str());
    let output = reader.next().expect("a response");
    assert_eq!(&Some(EngineCommand::ReadyOk), output.response());
    assert_eq!(25, *output.timestamp());
    let output = reader.next().expect("a response");
    assert_eq!(&Some(EngineCommand::UsiOk), output.response());
    assert_eq!(40, *output.timestamp());
    let output = reader.next().expect("the end");
    assert_eq!(&None, output.response());
    assert_eq!(40, *output.timestamp());
}

#[test]
fn reader_stamps_a_line_with_the_time_of_its_last_byte() {
    let mut reader = EngineCommandReader::new(b"ready");
    reader.feed(b"ok", 7);
    reader.feed(b"\n", 9);
    reader.feed(b"usiok", 11);
    reader.feed(b"   ", 12);
    let output = reader.next().expect("a response");
    assert_eq!(&Some(EngineCommand::ReadyOk), output.response());
    assert_eq!(9, *output.timestamp());
    let output = reader.next().expect("a response");
    assert_eq!(&Some(EngineCommand::UsiOk), output.response());
    assert_eq!(12, *output.timestamp());
}

#[test]
fn reader_starts_at_time_zero() {
    let mut reader = EngineCommandReader::new(b"readyok\n");
    let output = reader.next().expect("a response");
    assert_eq!(0, *output.timestamp());
}
