use usirun::error::Error;
use usirun::rules::SfenError;
use usirun::usi::UsiError;

#[test]
fn only_a_line_that_cannot_be_decoded_is_passed_over() {
    assert!(Error::Usi(UsiError::Blank).recoverable());
    assert!(Error::Usi(UsiError::UnknownCommand).recoverable());
    assert!(Error::Usi(UsiError::IllegalSyntax).recoverable());
    assert!(!Error::Sfen(SfenError::IllegalMove).recoverable());
    assert!(!Error::Io.recoverable());
    assert!(!Error::Channel.recoverable());
    assert!(!Error::EngineNotResponded.recoverable());
}

#[test]
fn every_error_says_what_went_wrong() {
    assert_eq!(
        "the engine did not return 'readyok' command",
        Error::EngineNotResponded.describe()
    );
    assert_eq!("an illegal move notation is found", Error::Sfen(SfenError::IllegalMove).describe());
    assert_eq!("data fields are missing", Error::Sfen(SfenError::MissingDataFields).describe());
    assert_eq!(
        "an illegal piece notation is found",
        Error::Sfen(SfenError::IllegalPieceType).describe()
    );
    assert_eq!(
        "the side to move needs to be black or white",
        Error::Sfen(SfenError::IllegalSideToMove).describe()
    );
    assert_eq!(
        "an illegal move count notation is found",
        Error::Sfen(SfenError::IllegalMoveCount).describe()
    );
    assert_eq!(
        "an illegal board state notation is found",
        Error::Sfen(SfenError::IllegalBoardState).describe()
    );
    let all = [
        Error::Usi(UsiError::Blank),
        Error::Usi(UsiError::UnknownCommand),
        Error::Usi(UsiError::IllegalSyntax),
        Error::Sfen(SfenError::OutOfRange),
        Error::Io,
        Error::Channel,
    ];
    for e in all {
        assert!(!e.describe().is_empty());
    }
}
