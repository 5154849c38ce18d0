//! Responses from an engine to the match runner.

use vstd::prelude::*;
use crate::number::{int_of, read_int, read_signed, signed_decimal, signed_of, write_signed};
use crate::text::{
    bytes_of, copy, is_blank, join, join_from, lemma_tokens_empty_iff_blank, lemma_tokens_leading,
    lemma_tokens_trailing, spells, split, tokens, views,
};
use crate::usi::{opt_view, UsiError};

verus! {

/// What an engine says of itself.
#[derive(Debug, Clone, PartialEq, Eq)]
pub enum IdParams {
    Name(Vec<u8>),
    Author(Vec<u8>),
}

/// The answer to a `go` command.
#[derive(Debug, Clone, PartialEq, Eq)]
pub enum BestMoveParams {
    /// A move in SFEN notation, and the reply that the engine expects.
    MakeMove(Vec<u8>, Option<Vec<u8>>),
    Resign,
    Win,
}

/// What a score stands for.
#[derive(Debug, Clone, Copy, PartialEq, Eq, Structural)]
pub enum ScoreKind {
    CpExact,
    CpLowerbound,
    CpUpperbound,
    MateExact,
    MateSignOnly,
    MateLowerbound,
    MateUpperbound,
}

/// The numbers that an `info` line can report.
#[derive(Debug, Clone, Copy, PartialEq, Eq, Structural)]
pub enum InfoField {
    Depth,
    SelDepth,
    Time,
    Nodes,
    Nps,
    HashFull,
    MultiPv,
}

/// One item of an `info` line. Texts that an item carries are not kept.
#[derive(Debug, Clone, Copy, PartialEq, Eq, Structural)]
pub enum InfoParams {
    Score(i32, ScoreKind),
    Number(InfoField, i64),
    CurrMove,
    Pv,
    Text,
}

/// The type of an option, with its default and its bounds or choices.
#[derive(Debug, Clone, PartialEq, Eq)]
#[allow(inconsistent_fields)]
pub enum OptionKind {
    Check { default: Option<bool> },
    Spin { default: Option<i64>, min: Option<i64>, max: Option<i64> },
    Combo { default: Option<Vec<u8>>, vars: Vec<Vec<u8>> },
    Button { default: Option<Vec<u8>> },
    String { default: Option<Vec<u8>> },
    Filename { default: Option<Vec<u8>> },
}

/// An option that an engine offers.
#[derive(Debug, Clone, PartialEq, Eq)]
pub struct OptionParams {
    pub name: Vec<u8>,
    pub value: OptionKind,
}

/// A response of an engine.
#[derive(Debug, Clone, PartialEq, Eq)]
pub enum EngineCommand {
    Id(IdParams),
    BestMove(BestMoveParams),
    Info(Vec<InfoParams>),
    Option(OptionParams),
    ReadyOk,
    UsiOk,
}

/// The model of an `IdParams`.
pub enum IdView {
    Name(Seq<u8>),
    Author(Seq<u8>),
}

/// The model of a `BestMoveParams`.
pub enum BestMoveView {
    MakeMove(Seq<u8>, Option<Seq<u8>>),
    Resign,
    Win,
}

/// The model of an `OptionKind`.
#[allow(inconsistent_fields)]
pub enum OptionKindView {
    Check { default: Option<bool> },
    Spin { default: Option<i64>, min: Option<i64>, max: Option<i64> },
    Combo { default: Option<Seq<u8>>, vars: Seq<Seq<u8>> },
    Button { default: Option<Seq<u8>> },
    String { default: Option<Seq<u8>> },
    Filename { default: Option<Seq<u8>> },
}

/// The model of an `OptionParams`.
pub struct OptionView {
    pub name: Seq<u8>,
    pub value: OptionKindView,
}

/// The model of an `EngineCommand`.
pub enum EngineCommandView {
    Id(IdView),
    BestMove(BestMoveView),
    Info(Seq<InfoParams>),
    Option(OptionView),
    ReadyOk,
    UsiOk,
}

impl View for IdParams {
    type V = IdView;

    open spec fn view(&self) -> IdView {
        match *self {
            IdParams::Name(s) => IdView::Name(s@),
            IdParams::Author(s) => IdView::Author(s@),
        }
    }
}

impl View for BestMoveParams {
    type V = BestMoveView;

    open spec fn view(&self) -> BestMoveView {
        match *self {
            BestMoveParams::MakeMove(m, p) => BestMoveView::MakeMove(m@, opt_view(p)),
            BestMoveParams::Resign => BestMoveView::Resign,
            BestMoveParams::Win => BestMoveView::Win,
        }
    }
}

impl View for OptionKind {
    type V = OptionKindView;

    open spec fn view(&self) -> OptionKindView {
        match *self {
            OptionKind::Check { default } => OptionKindView::Check { default },
            OptionKind::Spin { default, min, max } => OptionKindView::Spin { default, min, max },
            OptionKind::Combo { default, vars } => OptionKindView::Combo {
                default: opt_view(default),
                vars: views(vars@),
            },
            OptionKind::Button { default } => OptionKindView::Button { default: opt_view(default) },
            OptionKind::String { default } => OptionKindView::String { default: opt_view(default) },
            OptionKind::Filename { default } => OptionKindView::Filename {
                default: opt_view(default),
            },
        }
    }
}

impl View for OptionParams {
    type V = OptionView;

    open spec fn view(&self) -> OptionView {
        OptionView { name: self.name@, value: self.value@ }
    }
}

impl View for EngineCommand {
    type V = EngineCommandView;

    open spec fn view(&self) -> EngineCommandView {
        match *self {
            EngineCommand::Id(p) => EngineCommandView::Id(p@),
            EngineCommand::BestMove(p) => EngineCommandView::BestMove(p@),
            EngineCommand::Info(items) => EngineCommandView::Info(items@),
            EngineCommand::Option(p) => EngineCommandView::Option(p@),
            EngineCommand::ReadyOk => EngineCommandView::ReadyOk,
            EngineCommand::UsiOk => EngineCommandView::UsiOk,
        }
    }
}

// ---------------------------------------------------------------------------
// The grammar of responses
// ---------------------------------------------------------------------------
/// An item in front of the items that follow it, where those are well
/// formed.
pub open spec fn prepend(item: InfoParams, rest: Option<Seq<InfoParams>>) -> Option<
    Seq<InfoParams>,
> {
    match rest {
        Some(items) => Some(seq![item] + items),
        None => None,
    }
}

/// The items in `done` in front of the items that follow them.
pub open spec fn prepend_all(done: Seq<InfoParams>, rest: Option<Seq<InfoParams>>) -> Option<
    Seq<InfoParams>,
> {
    match rest {
        Some(items) => Some(done + items),
        None => None,
    }
}

/// The number that a key of an `info` line announces.
pub open spec fn info_field(key: Seq<u8>) -> Option<InfoField> {
    if key == bytes_of("depth") {
        Some(InfoField::Depth)
    } else if key == bytes_of("seldepth") {
        Some(InfoField::SelDepth)
    } else if key == bytes_of("time") {
        Some(InfoField::Time)
    } else if key == bytes_of("nodes") {
        Some(InfoField::Nodes)
    } else if key == bytes_of("nps") {
        Some(InfoField::Nps)
    } else if key == bytes_of("hashfull") {
        Some(InfoField::HashFull)
    } else if key == bytes_of("multipv") {
        Some(InfoField::MultiPv)
    } else {
        None
    }
}

/// A score with its bound, read from the words after `cp` or `mate`:
/// the score, and how many words it takes.
pub open spec fn bounded_score(
    t: Seq<Seq<u8>>,
    exact: ScoreKind,
    lower: ScoreKind,
    upper: ScoreKind,
) -> Option<(InfoParams, int)> {
    if t.len() >= 1 {
        match int_of(t[0]) {
            Some(v) => {
                if t.len() >= 2 && t[1] == bytes_of("lowerbound") {
                    Some((InfoParams::Score(v, lower), 2))
                } else if t.len() >= 2 && t[1] == bytes_of("upperbound") {
                    Some((InfoParams::Score(v, upper), 2))
                } else {
                    Some((InfoParams::Score(v, exact), 1))
                }
            },
            None => None,
        }
    } else {
        None
    }
}

/// A score, read from the words after `score`: the score, and how many
/// words it takes. A mate score may give only its sign.
pub open spec fn score_of(t: Seq<Seq<u8>>) -> Option<(InfoParams, int)> {
    if t.len() >= 2 && t[0] == bytes_of("cp") {
        match bounded_score(
            t.skip(1),
            ScoreKind::CpExact,
            ScoreKind::CpLowerbound,
            ScoreKind::CpUpperbound,
        ) {
            Some((item, used)) => Some((item, used + 1)),
            None => None,
        }
    } else if t.len() >= 2 && t[0] == bytes_of("mate") {
        if t[1] == bytes_of("+") {
            Some((InfoParams::Score(1, ScoreKind::MateSignOnly), 2))
        } else if t[1] == bytes_of("-") {
            Some((InfoParams::Score(-1i32, ScoreKind::MateSignOnly), 2))
        } else {
            match bounded_score(
                t.skip(1),
                ScoreKind::MateExact,
                ScoreKind::MateLowerbound,
                ScoreKind::MateUpperbound,
            ) {
                Some((item, used)) => Some((item, used + 1)),
                None => None,
            }
        }
    } else {
        None
    }
}

/// The items of an `info` line, read from the words after `info`. What
/// follows `pv` or `string` belongs to that item.
pub open spec fn info_items(t: Seq<Seq<u8>>) -> Option<Seq<InfoParams>>
    decreases t.len(),
{
    if t.len() == 0 {
        Some(Seq::empty())
    } else if t[0] == bytes_of("pv") {
        Some(seq![InfoParams::Pv])
    } else if t[0] == bytes_of("string") {
        Some(seq![InfoParams::Text])
    } else if t[0] == bytes_of("score") {
        match score_of(t.skip(1)) {
            Some((item, used)) => {
                if 1 <= used && 1 + used <= t.len() {
                    prepend(item, info_items(t.skip(1 + used)))
                } else {
                    None
                }
            },
            None => None,
        }
    } else if t.len() >= 2 {
        if t[0] == bytes_of("currmove") {
            prepend(InfoParams::CurrMove, info_items(t.skip(2)))
        } else {
            match (info_field(t[0]), signed_of(t[1])) {
                (Some(f), Some(v)) => prepend(InfoParams::Number(f, v), info_items(t.skip(2))),
                _ => None,
            }
        }
    } else {
        None
    }
}

/// What the words behind the type of an option say.
pub struct OptionFields {
    pub default: Option<Seq<u8>>,
    pub min: Option<Seq<u8>>,
    pub max: Option<Seq<u8>>,
    pub vars: Seq<Seq<u8>>,
}

/// Reads pairs of a key (`default`, `min`, `max`, `var`) and a word on top
/// of `acc`. A key given twice counts the last time; every `var` counts.
pub open spec fn option_fields(t: Seq<Seq<u8>>, acc: OptionFields) -> Option<OptionFields>
    decreases t.len(),
{
    if t.len() == 0 {
        Some(acc)
    } else if t.len() >= 2 {
        if t[0] == bytes_of("default") {
            option_fields(t.skip(2), OptionFields { default: Some(t[1]), ..acc })
        } else if t[0] == bytes_of("min") {
            option_fields(t.skip(2), OptionFields { min: Some(t[1]), ..acc })
        } else if t[0] == bytes_of("max") {
            option_fields(t.skip(2), OptionFields { max: Some(t[1]), ..acc })
        } else if t[0] == bytes_of("var") {
            option_fields(t.skip(2), OptionFields { vars: acc.vars.push(t[1]), ..acc })
        } else {
            None
        }
    } else {
        None
    }
}

/// An optional word as an optional number; `None` where the word is there
/// and is no number.
pub open spec fn optional_number(w: Option<Seq<u8>>) -> Option<Option<i64>> {
    match w {
        None => Some(None),
        Some(text) => match signed_of(text) {
            Some(v) => Some(Some(v)),
            None => None,
        },
    }
}

/// An optional word as an optional truth value.
pub open spec fn optional_flag(w: Option<Seq<u8>>) -> Option<Option<bool>> {
    match w {
        None => Some(None),
        Some(text) => if text == bytes_of("true") {
            Some(Some(true))
        } else if text == bytes_of("false") {
            Some(Some(false))
        } else {
            None
        },
    }
}

/// The option of type `ty` that `f` describes.
pub open spec fn option_kind(ty: Seq<u8>, f: OptionFields) -> Option<OptionKindView> {
    if ty == bytes_of("check") {
        match optional_flag(f.default) {
            Some(default) => Some(OptionKindView::Check { default }),
            None => None,
        }
    } else if ty == bytes_of("spin") {
        match (optional_number(f.default), optional_number(f.min), optional_number(f.max)) {
            (Some(default), Some(min), Some(max)) => Some(
                OptionKindView::Spin { default, min, max },
            ),
            _ => None,
        }
    } else if ty == bytes_of("combo") {
        Some(OptionKindView::Combo { default: f.default, vars: f.vars })
    } else if ty == bytes_of("button") {
        Some(OptionKindView::Button { default: f.default })
    } else if ty == bytes_of("string") {
        Some(OptionKindView::String { default: f.default })
    } else if ty == bytes_of("filename") {
        Some(OptionKindView::Filename { default: f.default })
    } else {
        None
    }
}

/// What the type of an option says where nothing follows it.
pub open spec fn no_fields() -> OptionFields {
    OptionFields { default: None, min: None, max: None, vars: Seq::empty() }
}

/// The response that a list of words spells.
pub open spec fn response_of(t: Seq<Seq<u8>>) -> Result<EngineCommandView, UsiError> {
    if t.len() == 0 {
        Err(UsiError::Blank)
    } else if t[0] == bytes_of("usiok") {
        if t.len() == 1 {
            Ok(EngineCommandView::UsiOk)
        } else {
            Err(UsiError::IllegalSyntax)
        }
    } else if t[0] == bytes_of("readyok") {
        if t.len() == 1 {
            Ok(EngineCommandView::ReadyOk)
        } else {
            Err(UsiError::IllegalSyntax)
        }
    } else if t[0] == bytes_of("id") {
        if t.len() >= 2 && t[1] == bytes_of("name") {
            Ok(EngineCommandView::Id(IdView::Name(join(t.skip(2)))))
        } else if t.len() >= 2 && t[1] == bytes_of("author") {
            Ok(EngineCommandView::Id(IdView::Author(join(t.skip(2)))))
        } else {
            Err(UsiError::IllegalSyntax)
        }
    } else if t[0] == bytes_of("bestmove") {
        if t.len() == 2 {
            if t[1] == bytes_of("resign") {
                Ok(EngineCommandView::BestMove(BestMoveView::Resign))
            } else if t[1] == bytes_of("win") {
                Ok(EngineCommandView::BestMove(BestMoveView::Win))
            } else {
                Ok(EngineCommandView::BestMove(BestMoveView::MakeMove(t[1], None)))
            }
        } else if t.len() == 4 && t[2] == bytes_of("ponder") {
            Ok(EngineCommandView::BestMove(BestMoveView::MakeMove(t[1], Some(t[3]))))
        } else {
            Err(UsiError::IllegalSyntax)
        }
    } else if t[0] == bytes_of("info") {
        match info_items(t.skip(1)) {
            Some(items) => Ok(EngineCommandView::Info(items)),
            None => Err(UsiError::IllegalSyntax),
        }
    } else if t[0] == bytes_of("option") {
        if t.len() >= 5 && t[1] == bytes_of("name") && t[3] == bytes_of("type") {
            match option_fields(t.skip(5), no_fields()) {
                Some(f) => match option_kind(t[4], f) {
                    Some(value) => Ok(
                        EngineCommandView::Option(OptionView { name: t[2], value }),
                    ),
                    None => Err(UsiError::IllegalSyntax),
                },
                None => Err(UsiError::IllegalSyntax),
            }
        } else {
            Err(UsiError::IllegalSyntax)
        }
    } else {
        Err(UsiError::UnknownCommand)
    }
}

/// The response that a line carries. White space around and between the
/// words does not count.
pub open spec fn decode(line: Seq<u8>) -> Result<EngineCommandView, UsiError> {
    response_of(tokens(line))
}

/// Whether `r` is the result `m` with owned data in place of models.
pub open spec fn same_result(
    r: Result<EngineCommand, UsiError>,
    m: Result<EngineCommandView, UsiError>,
) -> bool {
    match r {
        Ok(c) => m == Ok::<EngineCommandView, UsiError>(c@),
        Err(e) => m == Err::<EngineCommandView, UsiError>(e),
    }
}

/// The default of an option as a text: `true` or `false` for a check box,
/// the number for a spin, the default itself for the others, and the empty
/// text where the option has no default.
pub open spec fn default_text(kind: OptionKindView) -> Seq<u8> {
    match kind {
        OptionKindView::Check { default: Some(flag) } => if flag {
            bytes_of("true")
        } else {
            bytes_of("false")
        },
        OptionKindView::Spin { default: Some(n), .. } => signed_decimal(n as int),
        OptionKindView::Combo { default: Some(s), .. } => s,
        OptionKindView::Button { default: Some(s) } => s,
        OptionKindView::String { default: Some(s) } => s,
        OptionKindView::Filename { default: Some(s) } => s,
        _ => Seq::empty(),
    }
}

// ---------------------------------------------------------------------------
// Reading
// ---------------------------------------------------------------------------
/// Reads the key of a number. See `info_field`.
fn read_info_field(key: &[u8]) -> (r: Option<InfoField>)
    ensures
        r == info_field(key@),
{
    if spells(key, "depth") {
        Some(InfoField::Depth)
    } else if spells(key, "seldepth") {
        Some(InfoField::SelDepth)
    } else if spells(key, "time") {
        Some(InfoField::Time)
    } else if spells(key, "nodes") {
        Some(InfoField::Nodes)
    } else if spells(key, "nps") {
        Some(InfoField::Nps)
    } else if spells(key, "hashfull") {
        Some(InfoField::HashFull)
    } else if spells(key, "multipv") {
        Some(InfoField::MultiPv)
    } else {
        None
    }
}

/// Reads a score with its bound from word `from` on. See `bounded_score`.
fn read_bounded_score(
    t: &Vec<Vec<u8>>,
    from: usize,
    exact: ScoreKind,
    lower: ScoreKind,
    upper: ScoreKind,
) -> (r: Option<(InfoParams, usize)>)
    requires
        from <= t.len(),
    ensures
        match r {
            Some((item, used)) => bounded_score(views(t@).skip(from as int), exact, lower, upper)
                == Some((item, used as int)) && 1 <= used && from + used <= t.len(),
            None => bounded_score(views(t@).skip(from as int), exact, lower, upper).is_none(),
        },
{
    let ghost rest = views(t@).skip(from as int);
    if from < t.len() {
        proof {
            assert(rest[0] == t@[from as int]@);
        }
        match read_int(t[from].as_slice()) {
            Some(v) => {
                if from + 1 < t.len() {
                    proof {
                        assert(rest[1] == t@[from + 1]@);
                    }
                    if spells(t[from + 1].as_slice(), "lowerbound") {
                        return Some((InfoParams::Score(v, lower), 2));
                    } else if spells(t[from + 1].as_slice(), "upperbound") {
                        return Some((InfoParams::Score(v, upper), 2));
                    }
                }
                Some((InfoParams::Score(v, exact), 1))
            },
            None => None,
        }
    } else {
        None
    }
}

/// Reads a score from word `from` on. See `score_of`.
fn read_score(t: &Vec<Vec<u8>>, from: usize) -> (r: Option<(InfoParams, usize)>)
    requires
        from <= t.len(),
    ensures
        match r {
            Some((item, used)) => score_of(views(t@).skip(from as int)) == Some(
                (item, used as int),
            ) && 1 <= used && from + used <= t.len(),
            None => score_of(views(t@).skip(from as int)).is_none(),
        },
{
    let ghost rest = views(t@).skip(from as int);
    if t.len() - from < 2 {
        return None;
    }
    proof {
        assert(rest[0] == t@[from as int]@);
        assert(rest[1] == t@[from + 1]@);
        assert(rest.skip(1) =~= views(t@).skip(from + 1));
    }
    if spells(t[from].as_slice(), "cp") {
        match read_bounded_score(
            t,
            from + 1,
            ScoreKind::CpExact,
            ScoreKind::CpLowerbound,
            ScoreKind::CpUpperbound,
        ) {
            Some((item, used)) => Some((item, used + 1)),
            None => None,
        }
    } else if spells(t[from].as_slice(), "mate") {
        if spells(t[from + 1].as_slice(), "+") {
            Some((InfoParams::Score(1, ScoreKind::MateSignOnly), 2))
        } else if spells(t[from + 1].as_slice(), "-") {
            Some((InfoParams::Score(-1, ScoreKind::MateSignOnly), 2))
        } else {
            match read_bounded_score(
                t,
                from + 1,
                ScoreKind::MateExact,
                ScoreKind::MateLowerbound,
                ScoreKind::MateUpperbound,
            ) {
                Some((item, used)) => Some((item, used + 1)),
                None => None,
            }
        }
    } else {
        None
    }
}

/// Reads the items of an `info` line. See `info_items`.
fn read_info_items(t: &Vec<Vec<u8>>) -> (r: Option<Vec<InfoParams>>)
    requires
        t.len() >= 1,
    ensures
        match r {
            Some(items) => info_items(views(t@).skip(1)) == Some(items@),
            None => info_items(views(t@).skip(1)).is_none(),
        },
{
    let mut out: Vec<InfoParams> = Vec::new();
    let mut i: usize = 1;
    let ghost ws = views(t@);
    proof {
        assert(prepend_all(out@, info_items(ws.skip(1))) =~= info_items(ws.skip(1)));
    }
    while i < t.len()
        invariant
            1 <= i <= t.len(),
            ws == views(t@),
            info_items(ws.skip(1)) == prepend_all(out@, info_items(ws.skip(i as int))),
        decreases t.len() - i,
    {
        let ghost rest = ws.skip(i as int);
        let ghost done = out@;
        proof {
            assert(rest[0] == t@[i as int]@);
            assert(rest.skip(1) =~= ws.skip(i + 1));
        }
        let key = t[i].as_slice();
        if spells(key, "pv") {
            out.push(InfoParams::Pv);
            proof {
                assert(out@ =~= done + seq![InfoParams::Pv]);
            }
            return Some(out);
        } else if spells(key, "string") {
            out.push(InfoParams::Text);
            proof {
                assert(out@ =~= done + seq![InfoParams::Text]);
            }
            return Some(out);
        } else if spells(key, "score") {
            match read_score(t, i + 1) {
                Some((item, used)) => {
                    out.push(item);
                    proof {
                        assert(rest.skip(1 + used) =~= ws.skip(i + 1 + used));
                        let tail = info_items(ws.skip(i + 1 + used));
                        assert(info_items(rest) == prepend(item, tail));
                        if let Some(items) = tail {
                            assert(done + (seq![item] + items) =~= out@ + items);
                        }
                    }
                    i = i + 1 + used;
                },
                None => {
                    return None;
                },
            }
        } else if i + 1 < t.len() {
            proof {
                assert(rest[1] == t@[i + 1]@);
                assert(rest.skip(2) =~= ws.skip(i + 2));
            }
            let item = if spells(key, "currmove") {
                InfoParams::CurrMove
            } else {
                match read_info_field(key) {
                    Some(f) => match read_signed(t[i + 1].as_slice()) {
                        Some(v) => InfoParams::Number(f, v),
                        None => {
                            return None;
                        },
                    },
                    None => {
                        return None;
                    },
                }
            };
            out.push(item);
            proof {
                let tail = info_items(ws.skip(i + 2));
                assert(info_items(rest) == prepend(item, tail));
                if let Some(items) = tail {
                    assert(done + (seq![item] + items) =~= out@ + items);
                }
            }
            i += 2;
        } else {
            return None;
        }
    }
    proof {
        assert(ws.skip(i as int) =~= Seq::<Seq<u8>>::empty());
        assert(out@ + Seq::<InfoParams>::empty() =~= out@);
    }
    Some(out)
}

/// Reads an optional word as a number. See `optional_number`.
fn read_optional_number(w: &Option<Vec<u8>>) -> (r: Option<Option<i64>>)
    ensures
        r == optional_number(opt_view(*w)),
{
    match w {
        None => Some(None),
        Some(text) => match read_signed(text.as_slice()) {
            Some(v) => Some(Some(v)),
            None => None,
        },
    }
}

/// Reads an optional word as a truth value. See `optional_flag`.
fn read_optional_flag(w: &Option<Vec<u8>>) -> (r: Option<Option<bool>>)
    ensures
        r == optional_flag(opt_view(*w)),
{
    match w {
        None => Some(None),
        Some(text) => {
            if spells(text.as_slice(), "true") {
                Some(Some(true))
            } else if spells(text.as_slice(), "false") {
                Some(Some(false))
            } else {
                None
            }
        },
    }
}

/// Reads an option from the words of an `option` line. See `option_fields` and
/// `option_kind`.
fn read_option(t: &Vec<Vec<u8>>) -> (r: Option<OptionParams>)
    requires
        t.len() >= 5,
    ensures
        match option_fields(views(t@).skip(5), no_fields()) {
            Some(f) => match option_kind(views(t@)[4], f) {
                Some(value) => r.is_some() && r.unwrap()@ == (OptionView {
                    name: views(t@)[2],
                    value,
                }),
                None => r.is_none(),
            },
            None => r.is_none(),
        },
{
    let ghost ws = views(t@);
    let mut default: Option<Vec<u8>> = None;
    let mut min: Option<Vec<u8>> = None;
    let mut max: Option<Vec<u8>> = None;
    let mut vars: Vec<Vec<u8>> = Vec::new();
    let mut i: usize = 5;
    proof {
        assert(views(vars@) =~= Seq::<Seq<u8>>::empty());
    }
    while i < t.len()
        invariant
            5 <= i <= t.len(),
            ws == views(t@),
            option_fields(ws.skip(5), no_fields()) == option_fields(
                ws.skip(i as int),
                OptionFields {
                    default: opt_view(default),
                    min: opt_view(min),
                    max: opt_view(max),
                    vars: views(vars@),
                },
            ),
        decreases t.len() - i,
    {
        let ghost rest = ws.skip(i as int);
        proof {
            assert(rest[0] == t@[i as int]@);
        }
        if i + 1 >= t.len() {
            return None;
        }
        proof {
            assert(rest[1] == t@[i + 1]@);
            assert(rest.skip(2) =~= ws.skip(i + 2));
        }
        let key = t[i].as_slice();
        let word = copy(t[i + 1].as_slice());
        if spells(key, "default") {
            default = Some(word);
        } else if spells(key, "min") {
            min = Some(word);
        } else if spells(key, "max") {
            max = Some(word);
        } else if spells(key, "var") {
            let ghost before = views(vars@);
            vars.push(word);
            proof {
                assert(views(vars@) =~= before.push(rest[1]));
            }
        } else {
            return None;
        }
        i += 2;
    }
    proof {
        assert(ws.skip(i as int) =~= Seq::<Seq<u8>>::empty());
        assert(ws[4] == t@[4]@);
        assert(ws[2] == t@[2]@);
    }
    let ty = t[4].as_slice();
    let value = if spells(ty, "check") {
        match read_optional_flag(&default) {
            Some(flag) => OptionKind::Check { default: flag },
            None => {
                return None;
            },
        }
    } else if spells(ty, "spin") {
        match (read_optional_number(&default), read_optional_number(&min), read_optional_number(&max)) {
            (Some(d), Some(lo), Some(hi)) => OptionKind::Spin { default: d, min: lo, max: hi },
            _ => {
                return None;
            },
        }
    } else if spells(ty, "combo") {
        OptionKind::Combo { default, vars }
    } else if spells(ty, "button") {
        OptionKind::Button { default }
    } else if spells(ty, "string") {
        OptionKind::String { default }
    } else if spells(ty, "filename") {
        OptionKind::Filename { default }
    } else {
        return None;
    };
    Some(OptionParams { name: copy(t[2].as_slice()), value })
}

impl OptionKind {
    /// The default of the option as a text.
    pub fn default_text(&self) -> (out: Vec<u8>)
        ensures
            out@ == default_text(self@),
    {
        match self {
            OptionKind::Check { default: Some(flag) } => {
                if *flag {
                    copy("true".as_bytes())
                } else {
                    copy("false".as_bytes())
                }
            },
            OptionKind::Spin { default: Some(n), .. } => write_signed(*n),
            OptionKind::Combo { default: Some(s), .. } => copy(s.as_slice()),
            OptionKind::Button { default: Some(s) } => copy(s.as_slice()),
            OptionKind::String { default: Some(s) } => copy(s.as_slice()),
            OptionKind::Filename { default: Some(s) } => copy(s.as_slice()),
            _ => Vec::new(),
        }
    }
}

impl EngineCommand {
    /// Reads the response that a line carries.
    pub fn parse(line: &[u8]) -> (r: Result<EngineCommand, UsiError>)
        ensures
            same_result(r, decode(line@)),
    {
        let t = split(line);
        let ghost ws = views(t@);
        if t.len() == 0 {
            return Err(UsiError::Blank);
        }
        proof {
            assert(ws[0] == t@[0]@);
            assert(t.len() > 1 ==> ws[1] == t@[1]@);
            assert(t.len() > 2 ==> ws[2] == t@[2]@);
            assert(t.len() > 3 ==> ws[3] == t@[3]@);
            assert(t.len() > 4 ==> ws[4] == t@[4]@);
        }
        let head = t[0].as_slice();
        if spells(head, "usiok") {
            if t.len() == 1 {
                Ok(EngineCommand::UsiOk)
            } else {
                Err(UsiError::IllegalSyntax)
            }
        } else if spells(head, "readyok") {
            if t.len() == 1 {
                Ok(EngineCommand::ReadyOk)
            } else {
                Err(UsiError::IllegalSyntax)
            }
        } else if spells(head, "id") {
            if t.len() >= 2 && spells(t[1].as_slice(), "name") {
                Ok(EngineCommand::Id(IdParams::Name(join_from(&t, 2))))
            } else if t.len() >= 2 && spells(t[1].as_slice(), "author") {
                Ok(EngineCommand::Id(IdParams::Author(join_from(&t, 2))))
            } else {
                Err(UsiError::IllegalSyntax)
            }
        } else if spells(head, "bestmove") {
            if t.len() == 2 {
                if spells(t[1].as_slice(), "resign") {
                    Ok(EngineCommand::BestMove(BestMoveParams::Resign))
                } else if spells(t[1].as_slice(), "win") {
                    Ok(EngineCommand::BestMove(BestMoveParams::Win))
                } else {
                    Ok(
                        EngineCommand::BestMove(
                            BestMoveParams::MakeMove(copy(t[1].as_slice()), None),
                        ),
                    )
                }
            } else if t.len() == 4 && spells(t[2].as_slice(), "ponder") {
                let best = copy(t[1].as_slice());
                let reply = copy(t[3].as_slice());
                Ok(EngineCommand::BestMove(BestMoveParams::MakeMove(best, Some(reply))))
            } else {
                Err(UsiError::IllegalSyntax)
            }
        } else if spells(head, "info") {
            match read_info_items(&t) {
                Some(items) => Ok(EngineCommand::Info(items)),
                None => Err(UsiError::IllegalSyntax),
            }
        } else if spells(head, "option") {
            if t.len() >= 5 && spells(t[1].as_slice(), "name") && spells(t[3].as_slice(), "type") {
                match read_option(&t) {
                    Some(p) => Ok(EngineCommand::Option(p)),
                    None => Err(UsiError::IllegalSyntax),
                }
            } else {
                Err(UsiError::IllegalSyntax)
            }
        } else {
            Err(UsiError::UnknownCommand)
        }
    }
}

/// White space in front of a line and behind it does not change the
/// response that the line carries.
pub proof fn lemma_decode_ignores_margins(pre: Seq<u8>, line: Seq<u8>, post: Seq<u8>)
    requires
        is_blank(pre),
        is_blank(post),
    ensures
        decode(pre + line + post) == decode(line),
{
    lemma_tokens_trailing(pre + line, post);
    lemma_tokens_leading(pre, line);
}

/// A line is refused as blank exactly when it holds nothing but white
/// space.
pub proof fn lemma_blank_lines(line: Seq<u8>)
    ensures
        decode(line) == Err::<EngineCommandView, UsiError>(UsiError::Blank) <==> is_blank(line),
{
    lemma_tokens_empty_iff_blank(line);
}

} // verus!
