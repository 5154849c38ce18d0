//! Commands from the match runner to an engine.

use vstd::prelude::*;
use crate::number::{decimal, lemma_decimal_round_trip, read_unsigned, unsigned_of, write_unsigned};
use crate::text::{
    bytes_of, copy, is_blank, is_phrase, is_word, join, join_from, lemma_tokens_join,
    lemma_tokens_join_tail, lemma_tokens_leading, lemma_tokens_trailing, spells, split, tokens,
    views,
};
use crate::usi::{opt_view, UsiError};

verus! {

/// How a game ended for the engine that is told so.
#[derive(Debug, Clone, Copy, PartialEq, Eq, Structural)]
pub enum GameOverKind {
    Win,
    Lose,
    Draw,
}

/// The parameters of a `go` command. Times are in milliseconds.
#[derive(Debug, Clone, Copy, PartialEq, Eq)]
pub struct ThinkParams {
    pub ponder: bool,
    pub btime: Option<u64>,
    pub wtime: Option<u64>,
    pub byoyomi: Option<u64>,
    pub binc: Option<u64>,
    pub winc: Option<u64>,
}

impl ThinkParams {
    /// No parameter at all.
    pub open spec fn empty() -> ThinkParams {
        ThinkParams {
            ponder: false,
            btime: None,
            wtime: None,
            byoyomi: None,
            binc: None,
            winc: None,
        }
    }

    /// No parameter at all.
    pub fn new() -> (p: ThinkParams)
        ensures
            p == ThinkParams::empty(),
    {
        ThinkParams { ponder: false, btime: None, wtime: None, byoyomi: None, binc: None, winc: None }
    }

    /// Sets the time left to Black.
    pub fn btime(self, t: u64) -> (p: ThinkParams)
        ensures
            p == (ThinkParams { btime: Some(t), ..self }),
    {
        ThinkParams { btime: Some(t), ..self }
    }

    /// Sets the time left to White.
    pub fn wtime(self, t: u64) -> (p: ThinkParams)
        ensures
            p == (ThinkParams { wtime: Some(t), ..self }),
    {
        ThinkParams { wtime: Some(t), ..self }
    }

    /// Sets the grace period of each move.
    pub fn byoyomi(self, t: u64) -> (p: ThinkParams)
        ensures
            p == (ThinkParams { byoyomi: Some(t), ..self }),
    {
        ThinkParams { byoyomi: Some(t), ..self }
    }

    /// Sets the increment of Black.
    pub fn binc(self, t: u64) -> (p: ThinkParams)
        ensures
            p == (ThinkParams { binc: Some(t), ..self }),
    {
        ThinkParams { binc: Some(t), ..self }
    }

    /// Sets the increment of White.
    pub fn winc(self, t: u64) -> (p: ThinkParams)
        ensures
            p == (ThinkParams { winc: Some(t), ..self }),
    {
        ThinkParams { winc: Some(t), ..self }
    }

    /// Makes the search a speculative one.
    pub fn ponder(self) -> (p: ThinkParams)
        ensures
            p == (ThinkParams { ponder: true, ..self }),
    {
        ThinkParams { ponder: true, ..self }
    }
}

/// A command from the match runner to an engine.
#[derive(Debug, Clone, PartialEq, Eq)]
pub enum GuiCommand {
    GameOver(GameOverKind),
    Go(ThinkParams),
    IsReady,
    Ponderhit,
    /// A position and the moves that led to it, as an SFEN text.
    Position(Vec<u8>),
    /// An option by name, with a value or without.
    SetOption(Vec<u8>, Option<Vec<u8>>),
    Stop,
    Usi,
    UsiNewGame,
    Quit,
}

/// The model of a `GuiCommand`.
pub enum GuiCommandView {
    GameOver(GameOverKind),
    Go(ThinkParams),
    IsReady,
    Ponderhit,
    Position(Seq<u8>),
    SetOption(Seq<u8>, Option<Seq<u8>>),
    Stop,
    Usi,
    UsiNewGame,
    Quit,
}

impl View for GuiCommand {
    type V = GuiCommandView;

    open spec fn view(&self) -> GuiCommandView {
        match *self {
            GuiCommand::GameOver(k) => GuiCommandView::GameOver(k),
            GuiCommand::Go(p) => GuiCommandView::Go(p),
            GuiCommand::IsReady => GuiCommandView::IsReady,
            GuiCommand::Ponderhit => GuiCommandView::Ponderhit,
            GuiCommand::Position(s) => GuiCommandView::Position(s@),
            GuiCommand::SetOption(n, v) => GuiCommandView::SetOption(n@, opt_view(v)),
            GuiCommand::Stop => GuiCommandView::Stop,
            GuiCommand::Usi => GuiCommandView::Usi,
            GuiCommand::UsiNewGame => GuiCommandView::UsiNewGame,
            GuiCommand::Quit => GuiCommandView::Quit,
        }
    }
}

impl GuiCommandView {
    /// The commands that a line can carry and give back: the name of an
    /// option is one word; an SFEN text and the value of an option are
    /// phrases.
    pub open spec fn well_formed(self) -> bool {
        match self {
            GuiCommandView::Position(s) => is_phrase(s),
            GuiCommandView::SetOption(n, None) => is_word(n),
            GuiCommandView::SetOption(n, Some(v)) => is_word(n) && is_phrase(v),
            _ => true,
        }
    }
}

// ---------------------------------------------------------------------------
// Encoding
// ---------------------------------------------------------------------------
/// The word for the result of a game.
pub open spec fn kind_word(k: GameOverKind) -> Seq<u8> {
    match k {
        GameOverKind::Win => bytes_of("win"),
        GameOverKind::Lose => bytes_of("lose"),
        GameOverKind::Draw => bytes_of("draw"),
    }
}

/// A label and a number, or nothing.
pub open spec fn number_words(label: &str, v: Option<u64>) -> Seq<Seq<u8>> {
    match v {
        Some(n) => seq![bytes_of(label), decimal(n as nat)],
        None => Seq::empty(),
    }
}

/// The words of the parameters of a `go` command.
pub open spec fn think_words(p: ThinkParams) -> Seq<Seq<u8>> {
    (if p.ponder {
        seq![bytes_of("ponder")]
    } else {
        Seq::empty()
    }) + number_words("btime", p.btime) + number_words("wtime", p.wtime) + number_words(
        "byoyomi",
        p.byoyomi,
    ) + number_words("binc", p.binc) + number_words("winc", p.winc)
}

/// The parts of a command as it is written on a line.
pub open spec fn command_words(c: GuiCommandView) -> Seq<Seq<u8>> {
    match c {
        GuiCommandView::GameOver(k) => seq![bytes_of("gameover"), kind_word(k)],
        GuiCommandView::Go(p) => seq![bytes_of("go")] + think_words(p),
        GuiCommandView::IsReady => seq![bytes_of("isready")],
        GuiCommandView::Ponderhit => seq![bytes_of("ponderhit")],
        GuiCommandView::Position(s) => seq![bytes_of("position"), bytes_of("sfen"), s],
        GuiCommandView::SetOption(n, None) => seq![bytes_of("setoption"), bytes_of("name"), n],
        GuiCommandView::SetOption(n, Some(v)) => seq![
            bytes_of("setoption"),
            bytes_of("name"),
            n,
            bytes_of("value"),
            v,
        ],
        GuiCommandView::Stop => seq![bytes_of("stop")],
        GuiCommandView::Usi => seq![bytes_of("usi")],
        GuiCommandView::UsiNewGame => seq![bytes_of("usinewgame")],
        GuiCommandView::Quit => seq![bytes_of("quit")],
    }
}

/// A command as it is written on a line, without the line feed: its parts
/// with single spaces between them.
pub open spec fn command_text(c: GuiCommandView) -> Seq<u8> {
    join(command_words(c))
}

/// A command as a whole line.
pub open spec fn command_line(c: GuiCommandView) -> Seq<u8> {
    command_text(c) + seq![10u8]
}

// ---------------------------------------------------------------------------
// Decoding
// ---------------------------------------------------------------------------
/// Reads the parameters of a `go` command from its words, on top of those
/// in `acc`. The parameters may come in any order.
pub open spec fn think_params_of(t: Seq<Seq<u8>>, acc: ThinkParams) -> Option<ThinkParams>
    decreases t.len(),
{
    if t.len() == 0 {
        Some(acc)
    } else if t[0] == bytes_of("ponder") {
        think_params_of(t.skip(1), ThinkParams { ponder: true, ..acc })
    } else if t.len() >= 2 {
        match unsigned_of(t[1]) {
            Some(n) => {
                if t[0] == bytes_of("btime") {
                    think_params_of(t.skip(2), ThinkParams { btime: Some(n), ..acc })
                } else if t[0] == bytes_of("wtime") {
                    think_params_of(t.skip(2), ThinkParams { wtime: Some(n), ..acc })
                } else if t[0] == bytes_of("byoyomi") {
                    think_params_of(t.skip(2), ThinkParams { byoyomi: Some(n), ..acc })
                } else if t[0] == bytes_of("binc") {
                    think_params_of(t.skip(2), ThinkParams { binc: Some(n), ..acc })
                } else if t[0] == bytes_of("winc") {
                    think_params_of(t.skip(2), ThinkParams { winc: Some(n), ..acc })
                } else {
                    None
                }
            },
            None => None,
        }
    } else {
        None
    }
}

/// The command that a list of words spells.
pub open spec fn command_of(t: Seq<Seq<u8>>) -> Result<GuiCommandView, UsiError> {
    if t.len() == 0 {
        Err(UsiError::Blank)
    } else if t[0] == bytes_of("usi") {
        single(t, GuiCommandView::Usi)
    } else if t[0] == bytes_of("isready") {
        single(t, GuiCommandView::IsReady)
    } else if t[0] == bytes_of("usinewgame") {
        single(t, GuiCommandView::UsiNewGame)
    } else if t[0] == bytes_of("ponderhit") {
        single(t, GuiCommandView::Ponderhit)
    } else if t[0] == bytes_of("stop") {
        single(t, GuiCommandView::Stop)
    } else if t[0] == bytes_of("quit") {
        single(t, GuiCommandView::Quit)
    } else if t[0] == bytes_of("gameover") {
        if t.len() != 2 {
            Err(UsiError::IllegalSyntax)
        } else if t[1] == bytes_of("win") {
            Ok(GuiCommandView::GameOver(GameOverKind::Win))
        } else if t[1] == bytes_of("lose") {
            Ok(GuiCommandView::GameOver(GameOverKind::Lose))
        } else if t[1] == bytes_of("draw") {
            Ok(GuiCommandView::GameOver(GameOverKind::Draw))
        } else {
            Err(UsiError::IllegalSyntax)
        }
    } else if t[0] == bytes_of("position") {
        if t.len() >= 3 && t[1] == bytes_of("sfen") {
            Ok(GuiCommandView::Position(join(t.skip(2))))
        } else {
            Err(UsiError::IllegalSyntax)
        }
    } else if t[0] == bytes_of("setoption") {
        if t.len() == 3 && t[1] == bytes_of("name") {
            Ok(GuiCommandView::SetOption(t[2], None))
        } else if t.len() >= 5 && t[1] == bytes_of("name") && t[3] == bytes_of("value") {
            Ok(GuiCommandView::SetOption(t[2], Some(join(t.skip(4)))))
        } else {
            Err(UsiError::IllegalSyntax)
        }
    } else if t[0] == bytes_of("go") {
        match think_params_of(t.skip(1), ThinkParams::empty()) {
            Some(p) => Ok(GuiCommandView::Go(p)),
            None => Err(UsiError::IllegalSyntax),
        }
    } else {
        Err(UsiError::UnknownCommand)
    }
}

/// A command that is one word long.
pub open spec fn single(t: Seq<Seq<u8>>, c: GuiCommandView) -> Result<GuiCommandView, UsiError> {
    if t.len() == 1 {
        Ok(c)
    } else {
        Err(UsiError::IllegalSyntax)
    }
}

/// The command that a line carries. White space around and between the
/// words does not count.
pub open spec fn decode(line: Seq<u8>) -> Result<GuiCommandView, UsiError> {
    command_of(tokens(line))
}

/// Whether `r` is the result `m` with owned data in place of models.
pub open spec fn same_result(r: Result<GuiCommand, UsiError>, m: Result<GuiCommandView, UsiError>) -> bool {
    match r {
        Ok(c) => m == Ok::<GuiCommandView, UsiError>(c@),
        Err(e) => m == Err::<GuiCommandView, UsiError>(e),
    }
}

/// The bytes of `s`, owned.
fn word(s: &str) -> (w: Vec<u8>)
    ensures
        w@ == bytes_of(s),
{
    copy(s.as_bytes())
}

/// Adds a word.
fn push_word(words: &mut Vec<Vec<u8>>, w: Vec<u8>)
    ensures
        views(final(words)@) == views(old(words)@).push(w@),
{
    words.push(w);
    proof {
        assert(views(words@) =~= views(old(words)@).push(w@));
    }
}

/// Adds a label and a number, where there is a number.
fn push_number(words: &mut Vec<Vec<u8>>, label: &str, v: Option<u64>)
    ensures
        views(final(words)@) == views(old(words)@) + number_words(label, v),
{
    match v {
        Some(n) => {
            push_word(words, word(label));
            push_word(words, write_unsigned(n));
            proof {
                assert(views(words@) =~= views(old(words)@) + number_words(label, v));
            }
        },
        None => {
            proof {
                assert(views(words@) =~= views(old(words)@) + number_words(label, v));
            }
        },
    }
}

/// A command that is one word long, read from `n` words.
fn single_command(n: usize, c: GuiCommand) -> (r: Result<GuiCommand, UsiError>)
    ensures
        r == (if n == 1 {
            Ok::<GuiCommand, UsiError>(c)
        } else {
            Err::<GuiCommand, UsiError>(UsiError::IllegalSyntax)
        }),
{
    if n == 1 {
        Ok(c)
    } else {
        Err(UsiError::IllegalSyntax)
    }
}

/// Reads the parameters of a `go` command. See `think_params_of`.
fn read_think_params(t: &Vec<Vec<u8>>) -> (r: Option<ThinkParams>)
    requires
        t.len() >= 1,
    ensures
        r == think_params_of(views(t@).skip(1), ThinkParams::empty()),
{
    let mut acc = ThinkParams::new();
    let mut i: usize = 1;
    let ghost ws = views(t@);
    while i < t.len()
        invariant
            1 <= i <= t.len(),
            ws == views(t@),
            think_params_of(ws.skip(1), ThinkParams::empty()) == think_params_of(
                ws.skip(i as int),
                acc,
            ),
        decreases t.len() - i,
    {
        let ghost rest = ws.skip(i as int);
        proof {
            assert(rest[0] == t@[i as int]@);
            assert(rest.skip(1) =~= ws.skip(i + 1));
        }
        let key = t[i].as_slice();
        if spells(key, "ponder") {
            acc = acc.ponder();
            i += 1;
        } else if i + 1 < t.len() {
            proof {
                assert(rest[1] == t@[i + 1]@);
                assert(rest.skip(2) =~= ws.skip(i + 2));
            }
            match read_unsigned(t[i + 1].as_slice()) {
                Some(n) => {
                    if spells(key, "btime") {
                        acc = acc.btime(n);
                    } else if spells(key, "wtime") {
                        acc = acc.wtime(n);
                    } else if spells(key, "byoyomi") {
                        acc = acc.byoyomi(n);
                    } else if spells(key, "binc") {
                        acc = acc.binc(n);
                    } else if spells(key, "winc") {
                        acc = acc.winc(n);
                    } else {
                        return None;
                    }
                    i += 2;
                },
                None => {
                    return None;
                },
            }
        } else {
            return None;
        }
    }
    proof {
        assert(ws.skip(i as int) =~= Seq::<Seq<u8>>::empty());
    }
    Some(acc)
}

impl GuiCommand {
    /// Writes the command as it goes on a line, without the line feed.
    pub fn to_bytes(&self) -> (out: Vec<u8>)
        ensures
            out@ == command_text(self@),
    {
        let mut words: Vec<Vec<u8>> = Vec::new();
        proof {
            assert(views(words@) =~= Seq::<Seq<u8>>::empty());
        }
        match self {
            GuiCommand::GameOver(k) => {
                push_word(&mut words, word("gameover"));
                match k {
                    GameOverKind::Win => push_word(&mut words, word("win")),
                    GameOverKind::Lose => push_word(&mut words, word("lose")),
                    GameOverKind::Draw => push_word(&mut words, word("draw")),
                }
            },
            GuiCommand::Go(p) => {
                push_word(&mut words, word("go"));
                if p.ponder {
                    push_word(&mut words, word("ponder"));
                }
                push_number(&mut words, "btime", p.btime);
                push_number(&mut words, "wtime", p.wtime);
                push_number(&mut words, "byoyomi", p.byoyomi);
                push_number(&mut words, "binc", p.binc);
                push_number(&mut words, "winc", p.winc);
            },
            GuiCommand::IsReady => push_word(&mut words, word("isready")),
            GuiCommand::Ponderhit => push_word(&mut words, word("ponderhit")),
            GuiCommand::Position(s) => {
                push_word(&mut words, word("position"));
                push_word(&mut words, word("sfen"));
                push_word(&mut words, copy(s.as_slice()));
            },
            GuiCommand::SetOption(n, v) => {
                push_word(&mut words, word("setoption"));
                push_word(&mut words, word("name"));
                push_word(&mut words, copy(n.as_slice()));
                match v {
                    Some(value) => {
                        push_word(&mut words, word("value"));
                        push_word(&mut words, copy(value.as_slice()));
                    },
                    None => {},
                }
            },
            GuiCommand::Stop => push_word(&mut words, word("stop")),
            GuiCommand::Usi => push_word(&mut words, word("usi")),
            GuiCommand::UsiNewGame => push_word(&mut words, word("usinewgame")),
            GuiCommand::Quit => push_word(&mut words, word("quit")),
        }
        proof {
            assert(views(words@) =~= command_words(self@));
            assert(views(words@).skip(0) =~= views(words@));
        }
        join_from(&words, 0)
    }

    /// Reads the command that a line carries.
    pub fn parse(line: &[u8]) -> (r: Result<GuiCommand, UsiError>)
        ensures
            same_result(r, decode(line@)),
    {
        let t = split(line);
        let ghost ws = views(t@);
        if t.len() == 0 {
            return Err(UsiError::Blank);
        }
        proof {
            assert(ws[0] == t@[0]@);
            assert(t.len() > 1 ==> ws[1] == t@[1]@);
            assert(t.len() > 2 ==> ws[2] == t@[2]@);
            assert(t.len() > 3 ==> ws[3] == t@[3]@);
        }
        let head = t[0].as_slice();
        if spells(head, "usi") {
            single_command(t.len(), GuiCommand::Usi)
        } else if spells(head, "isready") {
            single_command(t.len(), GuiCommand::IsReady)
        } else if spells(head, "usinewgame") {
            single_command(t.len(), GuiCommand::UsiNewGame)
        } else if spells(head, "ponderhit") {
            single_command(t.len(), GuiCommand::Ponderhit)
        } else if spells(head, "stop") {
            single_command(t.len(), GuiCommand::Stop)
        } else if spells(head, "quit") {
            single_command(t.len(), GuiCommand::Quit)
        } else if spells(head, "gameover") {
            if t.len() != 2 {
                Err(UsiError::IllegalSyntax)
            } else if spells(t[1].as_slice(), "win") {
                Ok(GuiCommand::GameOver(GameOverKind::Win))
            } else if spells(t[1].as_slice(), "lose") {
                Ok(GuiCommand::GameOver(GameOverKind::Lose))
            } else if spells(t[1].as_slice(), "draw") {
                Ok(GuiCommand::GameOver(GameOverKind::Draw))
            } else {
                Err(UsiError::IllegalSyntax)
            }
        } else if spells(head, "position") {
            if t.len() >= 3 && spells(t[1].as_slice(), "sfen") {
                Ok(GuiCommand::Position(join_from(&t, 2)))
            } else {
                Err(UsiError::IllegalSyntax)
            }
        } else if spells(head, "setoption") {
            if t.len() == 3 && spells(t[1].as_slice(), "name") {
                Ok(GuiCommand::SetOption(copy(t[2].as_slice()), None))
            } else if t.len() >= 5 && spells(t[1].as_slice(), "name") && spells(
                t[3].as_slice(),
                "value",
            ) {
                let name = copy(t[2].as_slice());
                Ok(GuiCommand::SetOption(name, Some(join_from(&t, 4))))
            } else {
                Err(UsiError::IllegalSyntax)
            }
        } else if spells(head, "go") {
            match read_think_params(&t) {
                Some(p) => Ok(GuiCommand::Go(p)),
                None => Err(UsiError::IllegalSyntax),
            }
        } else {
            Err(UsiError::UnknownCommand)
        }
    }
}

// ---------------------------------------------------------------------------
// Laws
// ---------------------------------------------------------------------------
/// `s` has `n` bytes and begins with `first`.
pub open spec fn named(s: &str, n: nat, first: u8) -> bool {
    bytes_of(s).len() == n && bytes_of(s)[0] == first
}

/// `s` is a word of `n` bytes that begins with `first`.
pub open spec fn spelled(s: &str, n: nat, first: u8) -> bool {
    is_word(bytes_of(s)) && named(s, n, first)
}

/// The names of the commands. Any two of them differ in length or in their
/// first byte.
pub proof fn lemma_command_names()
    ensures
        named("usi", 3, 117),
        named("isready", 7, 105),
        named("usinewgame", 10, 117),
        named("ponderhit", 9, 112),
        named("stop", 4, 115),
        named("quit", 4, 113),
        named("gameover", 8, 103),
        named("position", 8, 112),
        named("setoption", 9, 115),
        named("go", 2, 103),
{
    broadcast use vstd::string::is_ascii_spec_bytes;

    reveal_strlit("usi");
    reveal_strlit("isready");
    reveal_strlit("usinewgame");
    reveal_strlit("ponderhit");
    reveal_strlit("stop");
    reveal_strlit("quit");
    reveal_strlit("gameover");
    reveal_strlit("position");
    reveal_strlit("setoption");
    reveal_strlit("go");
    assert(vstd::string::is_ascii("usi"));
    assert(vstd::string::is_ascii("isready"));
    assert(vstd::string::is_ascii("usinewgame"));
    assert(vstd::string::is_ascii("ponderhit"));
    assert(vstd::string::is_ascii("stop"));
    assert(vstd::string::is_ascii("quit"));
    assert(vstd::string::is_ascii("gameover"));
    assert(vstd::string::is_ascii("position"));
    assert(vstd::string::is_ascii("setoption"));
    assert(vstd::string::is_ascii("go"));
}

/// The names of the commands are words.
pub proof fn lemma_command_names_are_words()
    ensures
        is_word(bytes_of("usi")),
        is_word(bytes_of("isready")),
        is_word(bytes_of("usinewgame")),
        is_word(bytes_of("ponderhit")),
        is_word(bytes_of("stop")),
        is_word(bytes_of("quit")),
        is_word(bytes_of("gameover")),
        is_word(bytes_of("position")),
        is_word(bytes_of("setoption")),
        is_word(bytes_of("go")),
{
    broadcast use vstd::string::is_ascii_spec_bytes;

    reveal_strlit("usi");
    reveal_strlit("isready");
    reveal_strlit("usinewgame");
    reveal_strlit("ponderhit");
    reveal_strlit("stop");
    reveal_strlit("quit");
    reveal_strlit("gameover");
    reveal_strlit("position");
    reveal_strlit("setoption");
    reveal_strlit("go");
    assert(vstd::string::is_ascii("usi"));
    assert(vstd::string::is_ascii("isready"));
    assert(vstd::string::is_ascii("usinewgame"));
    assert(vstd::string::is_ascii("ponderhit"));
    assert(vstd::string::is_ascii("stop"));
    assert(vstd::string::is_ascii("quit"));
    assert(vstd::string::is_ascii("gameover"));
    assert(vstd::string::is_ascii("position"));
    assert(vstd::string::is_ascii("setoption"));
    assert(vstd::string::is_ascii("go"));
}

/// The words that follow the name of a command.
pub proof fn lemma_command_vocabulary()
    ensures
        spelled("win", 3, 119),
        spelled("lose", 4, 108),
        spelled("draw", 4, 100),
        spelled("sfen", 4, 115),
        spelled("name", 4, 110),
        spelled("value", 5, 118),
{
    broadcast use vstd::string::is_ascii_spec_bytes;

    reveal_strlit("win");
    reveal_strlit("lose");
    reveal_strlit("draw");
    reveal_strlit("sfen");
    reveal_strlit("name");
    reveal_strlit("value");
    assert(vstd::string::is_ascii("win"));
    assert(vstd::string::is_ascii("lose"));
    assert(vstd::string::is_ascii("draw"));
    assert(vstd::string::is_ascii("sfen"));
    assert(vstd::string::is_ascii("name"));
    assert(vstd::string::is_ascii("value"));
}

/// The words of the parameters of a `go` command.
pub proof fn lemma_go_vocabulary()
    ensures
        spelled("ponder", 6, 112),
        spelled("btime", 5, 98),
        spelled("wtime", 5, 119),
        spelled("byoyomi", 7, 98),
        spelled("binc", 4, 98),
        spelled("winc", 4, 119),
{
    broadcast use vstd::string::is_ascii_spec_bytes;

    reveal_strlit("ponder");
    reveal_strlit("btime");
    reveal_strlit("wtime");
    reveal_strlit("byoyomi");
    reveal_strlit("binc");
    reveal_strlit("winc");
    assert(vstd::string::is_ascii("ponder"));
    assert(vstd::string::is_ascii("btime"));
    assert(vstd::string::is_ascii("wtime"));
    assert(vstd::string::is_ascii("byoyomi"));
    assert(vstd::string::is_ascii("binc"));
    assert(vstd::string::is_ascii("winc"));
}

/// Reading a label and its number from the front of the words.
proof fn lemma_number_step(label: &str, v: Option<u64>, rest: Seq<Seq<u8>>, acc: ThinkParams)
    requires
        label == "btime" || label == "wtime" || label == "byoyomi" || label == "binc" || label
            == "winc",
    ensures
        think_params_of(number_words(label, v) + rest, acc) == think_params_of(
            rest,
            match v {
                None => acc,
                Some(n) => if label == "btime" {
                    ThinkParams { btime: Some(n), ..acc }
                } else if label == "wtime" {
                    ThinkParams { wtime: Some(n), ..acc }
                } else if label == "byoyomi" {
                    ThinkParams { byoyomi: Some(n), ..acc }
                } else if label == "binc" {
                    ThinkParams { binc: Some(n), ..acc }
                } else {
                    ThinkParams { winc: Some(n), ..acc }
                },
            },
        ),
{
    lemma_go_vocabulary();
    let nw = number_words(label, v);
    let t = nw + rest;
    match v {
        None => {
            assert(t =~= rest);
        },
        Some(n) => {
            assert(t[0] == nw[0]);
            assert(t[1] == nw[1]);
            assert(t.skip(2) =~= rest);
            lemma_decimal_round_trip(n as nat);
        },
    }
}

/// A label and its number are words.
proof fn lemma_number_words(label: &str, v: Option<u64>)
    requires
        is_word(bytes_of(label)),
    ensures
        forall|i: int| 0 <= i < number_words(label, v).len() ==> is_word(
            #[trigger] number_words(label, v)[i],
        ),
{
    if let Some(n) = v {
        lemma_decimal_round_trip(n as nat);
    }
}

/// The parameters of a `go` command are written in words.
proof fn lemma_think_words(p: ThinkParams)
    ensures
        forall|i: int| 0 <= i < think_words(p).len() ==> is_word(#[trigger] think_words(p)[i]),
{
    lemma_go_vocabulary();
    lemma_number_words("btime", p.btime);
    lemma_number_words("wtime", p.wtime);
    lemma_number_words("byoyomi", p.byoyomi);
    lemma_number_words("binc", p.binc);
    lemma_number_words("winc", p.winc);
    let flag: Seq<Seq<u8>> = if p.ponder {
        seq![bytes_of("ponder")]
    } else {
        Seq::empty()
    };
    let b = number_words("btime", p.btime);
    let w = number_words("wtime", p.wtime);
    let y = number_words("byoyomi", p.byoyomi);
    let i = number_words("binc", p.binc);
    let n = number_words("winc", p.winc);
    let s1 = flag;
    let s2 = s1 + b;
    let s3 = s2 + w;
    let s4 = s3 + y;
    let s5 = s4 + i;
    assert(think_words(p) == s5 + n);
    assert forall|k: int| 0 <= k < think_words(p).len() implies is_word(
        #[trigger] think_words(p)[k],
    ) by {
        let t = think_words(p);
        if k < s1.len() {
            assert(t[k] == s1[k]);
        } else if k < s2.len() {
            assert(t[k] == b[k - s1.len()]);
        } else if k < s3.len() {
            assert(t[k] == w[k - s2.len()]);
        } else if k < s4.len() {
            assert(t[k] == y[k - s3.len()]);
        } else if k < s5.len() {
            assert(t[k] == i[k - s4.len()]);
        } else {
            assert(t[k] == n[k - s5.len()]);
        }
    }
}

/// The parameters of a `go` command are read back from their words.
proof fn lemma_think_params_round_trip(p: ThinkParams)
    ensures
        think_params_of(think_words(p), ThinkParams::empty()) == Some(p),
{
    lemma_go_vocabulary();
    let flag: Seq<Seq<u8>> = if p.ponder {
        seq![bytes_of("ponder")]
    } else {
        Seq::empty()
    };
    let b = number_words("btime", p.btime);
    let w = number_words("wtime", p.wtime);
    let y = number_words("byoyomi", p.byoyomi);
    let i = number_words("binc", p.binc);
    let n = number_words("winc", p.winc);
    let none = Seq::<Seq<u8>>::empty();
    let r5 = n + none;
    let r4 = i + r5;
    let r3 = y + r4;
    let r2 = w + r3;
    let r1 = b + r2;
    let t = think_words(p);
    assert(t =~= flag + r1);

    let a0 = ThinkParams::empty();
    let a1 = ThinkParams { ponder: p.ponder, ..a0 };
    let a2 = ThinkParams { btime: p.btime, ..a1 };
    let a3 = ThinkParams { wtime: p.wtime, ..a2 };
    let a4 = ThinkParams { byoyomi: p.byoyomi, ..a3 };
    let a5 = ThinkParams { binc: p.binc, ..a4 };
    let a6 = ThinkParams { winc: p.winc, ..a5 };
    assert(a6 == p);

    assert(think_params_of(t, a0) == think_params_of(r1, a1)) by {
        if p.ponder {
            assert(t[0] == bytes_of("ponder"));
            assert(t.skip(1) =~= r1);
        } else {
            assert(a1 == a0);
            assert(t =~= r1);
        }
    }
    lemma_number_step("btime", p.btime, r2, a1);
    lemma_number_step("wtime", p.wtime, r3, a2);
    lemma_number_step("byoyomi", p.byoyomi, r4, a3);
    lemma_number_step("binc", p.binc, r5, a4);
    lemma_number_step("winc", p.winc, none, a5);
}

/// The words of a command that begins with `head` and ends in the phrase
/// `tail`.
proof fn lemma_tokens_with_phrase(head: Seq<Seq<u8>>, tail: Seq<u8>)
    requires
        head.len() > 0,
        forall|i: int| 0 <= i < head.len() ==> is_word(#[trigger] head[i]),
        is_phrase(tail),
    ensures
        tokens(join(head.push(tail))) == head + tokens(tail),
        tokens(join(head.push(tail))).len() > head.len(),
        tokens(join(head.push(tail))).skip(head.len() as int) == tokens(tail),
        join(tokens(join(head.push(tail))).skip(head.len() as int)) == tail,
        forall|i: int| 0 <= i < head.len() ==> tokens(join(head.push(tail)))[i] == head[i],
{
    lemma_tokens_join_tail(head, tail);
    let t = tokens(join(head.push(tail)));
    assert(tokens(tail).len() > 0) by {
        if tokens(tail).len() == 0 {
            assert(join(tokens(tail)) =~= Seq::<u8>::empty());
        }
    }
    assert(t.skip(head.len() as int) =~= tokens(tail));
}

/// What words that begin with `position sfen` spell.
proof fn lemma_spells_position(t: Seq<Seq<u8>>)
    requires
        t.len() >= 3,
        t[0] == bytes_of("position"),
        t[1] == bytes_of("sfen"),
    ensures
        command_of(t) == Ok::<GuiCommandView, UsiError>(GuiCommandView::Position(join(t.skip(2)))),
{
    lemma_command_names();
}

/// What words that begin with `setoption name` and hold `value` spell.
proof fn lemma_spells_set_value(t: Seq<Seq<u8>>)
    requires
        t.len() >= 5,
        t[0] == bytes_of("setoption"),
        t[1] == bytes_of("name"),
        t[3] == bytes_of("value"),
    ensures
        command_of(t) == Ok::<GuiCommandView, UsiError>(
            GuiCommandView::SetOption(t[2], Some(join(t.skip(4)))),
        ),
{
    lemma_command_names();
}

/// What the three words `setoption name` and a name spell.
proof fn lemma_spells_set_name(t: Seq<Seq<u8>>)
    requires
        t.len() == 3,
        t[0] == bytes_of("setoption"),
        t[1] == bytes_of("name"),
    ensures
        command_of(t) == Ok::<GuiCommandView, UsiError>(GuiCommandView::SetOption(t[2], None)),
{
    lemma_command_names();
}

/// What words that begin with `go` spell.
proof fn lemma_spells_go(t: Seq<Seq<u8>>, p: ThinkParams)
    requires
        t.len() >= 1,
        t[0] == bytes_of("go"),
        think_params_of(t.skip(1), ThinkParams::empty()) == Some(p),
    ensures
        command_of(t) == Ok::<GuiCommandView, UsiError>(GuiCommandView::Go(p)),
{
    lemma_command_names();
}

/// What `gameover` and a result spell.
proof fn lemma_spells_game_over(t: Seq<Seq<u8>>, k: GameOverKind)
    requires
        t.len() == 2,
        t[0] == bytes_of("gameover"),
        t[1] == kind_word(k),
    ensures
        command_of(t) == Ok::<GuiCommandView, UsiError>(GuiCommandView::GameOver(k)),
{
    lemma_command_names();
    lemma_command_vocabulary();
}

/// What the name of a command without parameters spells.
proof fn lemma_spells_single(c: GuiCommandView)
    requires
        !(c is Position) && !(c is SetOption) && !(c is Go) && !(c is GameOver),
    ensures
        command_words(c).len() == 1,
        command_of(command_words(c)) == Ok::<GuiCommandView, UsiError>(c),
{
    lemma_command_names();
}

/// A `position` command comes back from its line.
proof fn lemma_round_trip_position(s: Seq<u8>)
    requires
        is_phrase(s),
    ensures
        command_of(tokens(command_text(GuiCommandView::Position(s)))) == Ok::<
            GuiCommandView,
            UsiError,
        >(GuiCommandView::Position(s)),
{
    lemma_command_names_are_words();
    lemma_command_vocabulary();
    let c = GuiCommandView::Position(s);
    let head = seq![bytes_of("position"), bytes_of("sfen")];
    assert(command_words(c) =~= head.push(s));
    lemma_tokens_with_phrase(head, s);
    let t = tokens(command_text(c));
    assert(t[0] == head[0]);
    assert(t[1] == head[1]);
    lemma_spells_position(t);
}

/// The words of a `setoption` command.
proof fn lemma_set_option_words()
    ensures
        is_word(bytes_of("setoption")),
        is_word(bytes_of("name")),
        is_word(bytes_of("value")),
{
    lemma_command_names_are_words();
    lemma_command_vocabulary();
}

/// The words of the line of a `setoption` command with a value.
proof fn lemma_set_value_tokens(n: Seq<u8>, value: Seq<u8>)
    requires
        is_word(n),
        is_phrase(value),
    ensures
        ({
            let t = tokens(
                join(seq![bytes_of("setoption"), bytes_of("name"), n, bytes_of("value"), value]),
            );
            &&& t.len() >= 5
            &&& t[0] == bytes_of("setoption")
            &&& t[1] == bytes_of("name")
            &&& t[2] == n
            &&& t[3] == bytes_of("value")
            &&& join(t.skip(4)) == value
        }),
{
    lemma_set_option_words();
    let head = seq![bytes_of("setoption"), bytes_of("name"), n, bytes_of("value")];
    assert forall|i: int| 0 <= i < head.len() implies is_word(#[trigger] head[i]) by {
        if i == 0 {
        } else if i == 1 {
        } else if i == 2 {
        } else {
        }
    }
    lemma_tokens_with_phrase(head, value);
    assert(head.push(value) =~= seq![
        bytes_of("setoption"),
        bytes_of("name"),
        n,
        bytes_of("value"),
        value,
    ]);
    let t = tokens(join(head.push(value)));
    assert(t[0] == head[0]);
    assert(t[1] == head[1]);
    assert(t[2] == head[2]);
    assert(t[3] == head[3]);
}

/// A `setoption` command with a value comes back from its line.
proof fn lemma_round_trip_set_value(n: Seq<u8>, value: Seq<u8>)
    requires
        is_word(n),
        is_phrase(value),
    ensures
        command_of(tokens(command_text(GuiCommandView::SetOption(n, Some(value))))) == Ok::<
            GuiCommandView,
            UsiError,
        >(GuiCommandView::SetOption(n, Some(value))),
{
    lemma_set_value_tokens(n, value);
    lemma_spells_set_value(tokens(command_text(GuiCommandView::SetOption(n, Some(value)))));
}

/// A `setoption` command without a value comes back from its line.
proof fn lemma_round_trip_set_name(n: Seq<u8>)
    requires
        is_word(n),
    ensures
        command_of(tokens(command_text(GuiCommandView::SetOption(n, None)))) == Ok::<
            GuiCommandView,
            UsiError,
        >(GuiCommandView::SetOption(n, None)),
{
    lemma_command_names_are_words();
    lemma_command_vocabulary();
    let c = GuiCommandView::SetOption(n, None);
    let ws = seq![bytes_of("setoption"), bytes_of("name"), n];
    assert(command_words(c) =~= ws);
    lemma_tokens_join(ws);
    lemma_spells_set_name(ws);
}

/// A `go` command comes back from its line.
proof fn lemma_round_trip_go(p: ThinkParams)
    ensures
        command_of(tokens(command_text(GuiCommandView::Go(p)))) == Ok::<GuiCommandView, UsiError>(
            GuiCommandView::Go(p),
        ),
{
    lemma_command_names_are_words();
    lemma_think_words(p);
    lemma_think_params_round_trip(p);
    let ws = command_words(GuiCommandView::Go(p));
    assert forall|k: int| 0 <= k < ws.len() implies is_word(#[trigger] ws[k]) by {
        if k > 0 {
            assert(ws[k] == think_words(p)[k - 1]);
        }
    }
    lemma_tokens_join(ws);
    assert(ws.skip(1) =~= think_words(p));
    lemma_spells_go(ws, p);
}

/// A `gameover` command comes back from its line.
proof fn lemma_round_trip_game_over(k: GameOverKind)
    ensures
        command_of(tokens(command_text(GuiCommandView::GameOver(k)))) == Ok::<
            GuiCommandView,
            UsiError,
        >(GuiCommandView::GameOver(k)),
{
    lemma_command_names_are_words();
    lemma_command_vocabulary();
    let ws = seq![bytes_of("gameover"), kind_word(k)];
    assert(command_words(GuiCommandView::GameOver(k)) =~= ws);
    lemma_tokens_join(ws);
    lemma_spells_game_over(ws, k);
}

/// A command without parameters comes back from its line.
proof fn lemma_round_trip_plain(c: GuiCommandView)
    requires
        !(c is Position) && !(c is SetOption) && !(c is Go) && !(c is GameOver),
    ensures
        command_of(tokens(command_text(c))) == Ok::<GuiCommandView, UsiError>(c),
{
    lemma_command_names_are_words();
    lemma_spells_single(c);
    lemma_tokens_join(command_words(c));
}

/// The words of a well-formed command, written on a line, come apart into
/// the words that spell the command.
pub proof fn lemma_command_tokens(c: GuiCommandView)
    requires
        c.well_formed(),
    ensures
        command_of(tokens(command_text(c))) == Ok::<GuiCommandView, UsiError>(c),
{
    match c {
        GuiCommandView::Position(s) => lemma_round_trip_position(s),
        GuiCommandView::SetOption(n, Some(v)) => lemma_round_trip_set_value(n, v),
        GuiCommandView::SetOption(n, None) => lemma_round_trip_set_name(n),
        GuiCommandView::Go(p) => lemma_round_trip_go(p),
        GuiCommandView::GameOver(k) => lemma_round_trip_game_over(k),
        _ => lemma_round_trip_plain(c),
    }
}

/// Decoding the encoding of a command gives the command back, with the line
/// feed or without it.
pub proof fn lemma_decode_encode(c: GuiCommandView)
    requires
        c.well_formed(),
    ensures
        decode(command_text(c)) == Ok::<GuiCommandView, UsiError>(c),
        decode(command_line(c)) == Ok::<GuiCommandView, UsiError>(c),
{
    lemma_command_tokens(c);
    let lf = seq![10u8];
    assert(is_blank(lf));
    lemma_tokens_trailing(command_text(c), lf);
}

/// White space in front of a line and behind it does not change the command
/// that the line carries.
pub proof fn lemma_decode_ignores_margins(pre: Seq<u8>, line: Seq<u8>, post: Seq<u8>)
    requires
        is_blank(pre),
        is_blank(post),
    ensures
        decode(pre + line + post) == decode(line),
{
    lemma_tokens_trailing(pre + line, post);
    lemma_tokens_leading(pre, line);
}

} // verus!
