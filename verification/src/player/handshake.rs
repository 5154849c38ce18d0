//! The handshake with an engine before the first game: the engine names
//! itself and its options, the match runner answers with the value of every
//! option.

use vstd::prelude::*;
use crate::config::EngineConfig;
use crate::player::reader::{EngineOutput, EngineOutputView};
use crate::text::{bytes_of, copy, same};
use crate::usi::engine::{
    default_text, EngineCommand, EngineCommandView, IdParams, IdView, OptionView,
};
use crate::usi::gui::{GuiCommand, GuiCommandView};

verus! {

/// The option that tells an engine whether it may think on the opponent's
/// time.
pub const PONDER_OPTION: &'static str = "USI_Ponder";

/// Options by name, each with its value.
pub type OptionTable = Seq<(Seq<u8>, Seq<u8>)>;

/// The model of a list of owned options.
pub open spec fn pairs(v: Seq<(Vec<u8>, Vec<u8>)>) -> OptionTable {
    Seq::new(v.len(), |i: int| (v[i].0@, v[i].1@))
}

/// Where `table` holds the option `name`: the last such place, or -1.
pub open spec fn index_of(table: OptionTable, name: Seq<u8>) -> int
    decreases table.len(),
{
    if table.len() == 0 {
        -1
    } else if table.last().0 == name {
        table.len() - 1
    } else {
        index_of(table.drop_last(), name)
    }
}

/// The value of the option `name`.
pub open spec fn lookup(table: OptionTable, name: Seq<u8>) -> Option<Seq<u8>> {
    let i = index_of(table, name);
    if i >= 0 {
        Some(table[i].1)
    } else {
        None
    }
}

/// `table` with the option `name` set to `value`: in its place where the
/// table holds it, else behind the others.
pub open spec fn table_set(table: OptionTable, name: Seq<u8>, value: Seq<u8>) -> OptionTable {
    let i = index_of(table, name);
    if i >= 0 {
        table.update(i, (name, value))
    } else {
        table.push((name, value))
    }
}

/// No option is held twice.
pub open spec fn distinct_names(table: OptionTable) -> bool {
    forall|i: int, j: int| 0 <= i < j < table.len() ==> (#[trigger] table[i]).0 != (
    #[trigger] table[j]).0
}

/// `table` with every option of `settings` set, in their order.
pub open spec fn overlay(table: OptionTable, settings: Seq<(String, String)>) -> OptionTable
    decreases settings.len(),
{
    if settings.len() == 0 {
        table
    } else {
        table_set(
            overlay(table, settings.drop_last()),
            vstd::utf8::encode_utf8(settings.last().0@),
            vstd::utf8::encode_utf8(settings.last().1@),
        )
    }
}

/// The options to set for an engine that offers `offered`, by the
/// configuration `settings` and `ponder`: the configured values over the
/// engine's defaults, and the ponder option switched on where pondering is
/// configured.
pub open spec fn resolved(offered: OptionTable, settings: Seq<(String, String)>, ponder: bool) -> OptionTable {
    let table = overlay(offered, settings);
    if ponder {
        table_set(table, bytes_of(PONDER_OPTION), bytes_of("true"))
    } else {
        table
    }
}

/// One `setoption` for every option of the table, in order.
pub open spec fn option_commands(table: OptionTable) -> Seq<GuiCommandView> {
    Seq::new(table.len(), |i: int| GuiCommandView::SetOption(table[i].0, Some(table[i].1)))
}

/// The place that `index_of` gives holds the option, and no later place does.
pub proof fn lemma_index_of(table: OptionTable, name: Seq<u8>)
    ensures
        -1 <= index_of(table, name) < table.len(),
        index_of(table, name) >= 0 ==> table[index_of(table, name)].0 == name,
        forall|j: int| index_of(table, name) < j < table.len() ==> (#[trigger] table[j]).0 != name,
    decreases table.len(),
{
    if table.len() > 0 && table.last().0 != name {
        let front = table.drop_last();
        lemma_index_of(front, name);
        assert forall|j: int| index_of(table, name) < j < table.len() implies (
        #[trigger] table[j]).0 != name by {
            if j < front.len() {
                assert(table[j] == front[j]);
            }
        }
    }
}

/// Setting an option keeps the table free of doubles, makes the option's
/// value the one that was set, and leaves every other option as it was.
pub proof fn lemma_table_set(table: OptionTable, name: Seq<u8>, value: Seq<u8>, other: Seq<u8>)
    requires
        distinct_names(table),
    ensures
        distinct_names(table_set(table, name, value)),
        lookup(table_set(table, name, value), name) == Some(value),
        other != name ==> lookup(table_set(table, name, value), other) == lookup(table, other),
{
    let after = table_set(table, name, value);
    lemma_index_of(table, name);
    lemma_index_of(table, other);
    lemma_index_of(after, name);
    lemma_index_of(after, other);
    let i = index_of(table, name);
    if i >= 0 {
        assert forall|a: int, b: int| 0 <= a < b < after.len() implies (#[trigger] after[a]).0 != (
        #[trigger] after[b]).0 by {
            assert(after[a].0 == table[a].0);
            assert(after[b].0 == table[b].0);
        }
        assert(after[i].0 == name);
        if index_of(after, name) != i {
            let k = index_of(after, name);
            assert(after[k].0 == name);
            if k < i {
                assert(after[k].0 != after[i].0);
            }
        }
        if other != name {
            let x = index_of(table, other);
            let y = index_of(after, other);
            if x >= 0 {
                assert(after[x].0 == other);
                if y != x {
                    if y >= 0 {
                        assert(table[y].0 == after[y].0);
                        if x < y {
                            assert(table[x].0 != table[y].0);
                        } else {
                            assert(table[y].0 != table[x].0);
                        }
                    } else {
                        assert(after[x].0 != other);
                    }
                }
                assert(after[x] == table[x]);
            } else {
                if y >= 0 {
                    assert(table[y].0 == after[y].0);
                }
            }
        }
    } else {
        assert forall|a: int, b: int| 0 <= a < b < after.len() implies (#[trigger] after[a]).0 != (
        #[trigger] after[b]).0 by {
            if b < table.len() {
                assert(after[a] == table[a]);
                assert(after[b] == table[b]);
            } else {
                assert(after[a] == table[a]);
                assert(table[a].0 != name);
            }
        }
        assert(after.last().0 == name);
        assert(after.drop_last() =~= table);
        if other != name {
            assert(index_of(after, other) == index_of(table, other));
            let x = index_of(table, other);
            if x >= 0 {
                assert(after[x] == table[x]);
            }
        }
    }
}

/// The value that the last setting of the option `name` gives it.
pub open spec fn last_setting(settings: Seq<(String, String)>, name: Seq<u8>) -> Option<Seq<u8>>
    decreases settings.len(),
{
    if settings.len() == 0 {
        None
    } else if vstd::utf8::encode_utf8(settings.last().0@) == name {
        Some(vstd::utf8::encode_utf8(settings.last().1@))
    } else {
        last_setting(settings.drop_last(), name)
    }
}

/// Later settings override earlier ones: over a table free of doubles, an
/// option has the value of its last setting, or the value that the table
/// gave it where it is not set at all; and the table stays free of
/// doubles.
pub proof fn lemma_overlay(table: OptionTable, settings: Seq<(String, String)>, name: Seq<u8>)
    requires
        distinct_names(table),
    ensures
        distinct_names(overlay(table, settings)),
        lookup(overlay(table, settings), name) == (match last_setting(settings, name) {
            Some(value) => Some(value),
            None => lookup(table, name),
        }),
    decreases settings.len(),
{
    if settings.len() > 0 {
        lemma_overlay(table, settings.drop_last(), name);
        lemma_table_set(
            overlay(table, settings.drop_last()),
            vstd::utf8::encode_utf8(settings.last().0@),
            vstd::utf8::encode_utf8(settings.last().1@),
            name,
        );
    }
}

/// The options that are set for an engine are free of doubles, so that
/// every option is set once; where pondering is configured the ponder
/// option is set to `true`; every other option has its configured value,
/// or the engine's default where none is configured.
pub proof fn lemma_resolved(
    offered: OptionTable,
    settings: Seq<(String, String)>,
    ponder: bool,
    name: Seq<u8>,
)
    requires
        distinct_names(offered),
    ensures
        distinct_names(resolved(offered, settings, ponder)),
        lookup(resolved(offered, settings, ponder), name) == (if ponder && name == bytes_of(
            PONDER_OPTION,
        ) {
            Some(bytes_of("true"))
        } else {
            match last_setting(settings, name) {
                Some(value) => Some(value),
                None => lookup(offered, name),
            }
        }),
{
    lemma_overlay(offered, settings, name);
    if ponder {
        lemma_table_set(overlay(offered, settings), bytes_of(PONDER_OPTION), bytes_of("true"), name);
    }
}

/// Sets the option `name` to `value`.
pub fn set_option(table: &mut Vec<(Vec<u8>, Vec<u8>)>, name: Vec<u8>, value: Vec<u8>)
    ensures
        pairs(final(table)@) == table_set(pairs(old(table)@), name@, value@),
{
    let ghost before = pairs(table@);
    let mut i: usize = table.len();
    proof {
        assert(before.take(table.len() as int) =~= before);
    }
    while i > 0
        invariant
            i <= table.len(),
            table@ == old(table)@,
            before == pairs(table@),
            index_of(before, name@) == index_of(before.take(i as int), name@),
        decreases i,
    {
        proof {
            assert(before.take(i as int).last() == before[i - 1]);
            assert(before.take(i as int).drop_last() =~= before.take(i - 1));
        }
        if same(table[i - 1].0.as_slice(), name.as_slice()) {
            table[i - 1] = (name, value);
            proof {
                assert(pairs(table@) =~= before.update(i - 1, (name@, value@)));
            }
            return ;
        }
        i -= 1;
    }
    table.push((name, value));
    proof {
        assert(pairs(table@) =~= before.push((name@, value@)));
    }
}

/// What the match runner has learnt of an engine so far.
#[derive(Debug)]
pub struct Handshake {
    name: Vec<u8>,
    options: Vec<(Vec<u8>, Vec<u8>)>,
    done: bool,
}

/// The model of a `Handshake`.
pub struct HandshakeView {
    /// The name that the engine gives itself.
    pub name: Seq<u8>,
    /// The options of the engine with their defaults.
    pub options: OptionTable,
    /// Whether the engine has named all it has to name.
    pub done: bool,
}

impl View for Handshake {
    type V = HandshakeView;

    closed spec fn view(&self) -> HandshakeView {
        HandshakeView { name: self.name@, options: pairs(self.options@), done: self.done }
    }
}

/// The handshake after an output of the engine: its name, one more option
/// with its default, or the end of the handshake. Whatever else the engine
/// says goes by, and so does all that it says after the end.
pub open spec fn after_output(h: HandshakeView, output: EngineOutputView) -> HandshakeView {
    if h.done {
        h
    } else {
        match output.response {
            Some(EngineCommandView::Id(IdView::Name(name))) => HandshakeView { name, ..h },
            Some(EngineCommandView::Option(OptionView { name, value })) => HandshakeView {
                options: table_set(h.options, name, default_text(value)),
                ..h
            },
            Some(EngineCommandView::UsiOk) => HandshakeView { done: true, ..h },
            _ => h,
        }
    }
}

impl Handshake {
    /// No option is held twice.
    #[verifier::type_invariant]
    closed spec fn well_formed(&self) -> bool {
        distinct_names(pairs(self.options@))
    }

    /// A handshake that has just begun, with the command that begins it.
    pub fn new() -> (r: (Handshake, GuiCommand))
        ensures
            r.0@ == (HandshakeView { name: Seq::empty(), options: Seq::empty(), done: false }),
            r.1@ == GuiCommandView::Usi,
    {
        let h = Handshake { name: Vec::new(), options: Vec::new(), done: false };
        proof {
            assert(pairs(h.options@) =~= Seq::empty());
        }
        (h, GuiCommand::Usi)
    }

    /// Whether the engine has named all it has to name.
    pub fn done(&self) -> (r: bool)
        ensures
            r == self@.done,
    {
        self.done
    }

    /// The name that the engine has given itself.
    pub fn name(&self) -> (r: &[u8])
        ensures
            r@ == self@.name,
    {
        self.name.as_slice()
    }

    /// Takes an output of the engine.
    pub fn on_output(&mut self, output: &EngineOutput)
        ensures
            final(self)@ == after_output(old(self)@, output@),
    {
        proof {
            use_type_invariant(&*self);
        }
        if self.done {
            return ;
        }
        match output.response() {
            Some(EngineCommand::Id(IdParams::Name(name))) => {
                self.name = copy(name.as_slice());
            },
            Some(EngineCommand::Option(p)) => {
                let name = copy(p.name.as_slice());
                let value = p.value.default_text();
                let mut options: Vec<(Vec<u8>, Vec<u8>)> = Vec::new();
                proof {
                    assert(pairs(options@) =~= Seq::empty());
                }
                std::mem::swap(&mut self.options, &mut options);
                proof {
                    lemma_table_set(pairs(options@), name@, value@, name@);
                }
                set_option(&mut options, name, value);
                std::mem::swap(&mut self.options, &mut options);
            },
            Some(EngineCommand::UsiOk) => {
                self.done = true;
            },
            _ => {},
        }
    }

    /// The commands that close the handshake: one `setoption` for every
    /// option of the engine and of the configuration, with the configured
    /// value where there is one and the engine's default where there is
    /// none.
    pub fn finish(&self, config: &EngineConfig) -> (commands: Vec<GuiCommand>)
        ensures
            crate::player::engine::command_views(commands@) == option_commands(
                resolved(self@.options, config.options@, config.ponder),
            ),
            distinct_names(resolved(self@.options, config.options@, config.ponder)),
    {
        proof {
            use_type_invariant(self);
            lemma_resolved(self@.options, config.options@, config.ponder, Seq::empty());
        }
        let mut table: Vec<(Vec<u8>, Vec<u8>)> = Vec::new();
        let mut i: usize = 0;
        while i < self.options.len()
            invariant
                i <= self.options.len(),
                pairs(table@) == pairs(self.options@).take(i as int),
            decreases self.options.len() - i,
        {
            let name = copy(self.options[i].0.as_slice());
            let value = copy(self.options[i].1.as_slice());
            let ghost before = pairs(table@);
            let ghost entry = (name@, value@);
            table.push((name, value));
            proof {
                let whole = pairs(self.options@);
                assert(whole[i as int] == entry);
                assert(pairs(table@) =~= before.push(entry));
                assert(whole.take(i + 1) =~= whole.take(i as int).push(entry));
            }
            i += 1;
        }
        proof {
            assert(pairs(self.options@).take(self.options.len() as int) =~= pairs(self.options@));
            assert(config.options@.take(0) =~= Seq::<(String, String)>::empty());
        }
        let mut k: usize = 0;
        while k < config.options.len()
            invariant
                k <= config.options.len(),
                pairs(table@) == overlay(self@.options, config.options@.take(k as int)),
            decreases config.options.len() - k,
        {
            let name = copy(config.options[k].0.as_str().as_bytes());
            let value = copy(config.options[k].1.as_str().as_bytes());
            proof {
                let upto = config.options@.take(k + 1);
                assert(upto.drop_last() =~= config.options@.take(k as int));
                assert(upto.last() == config.options@[k as int]);
            }
            set_option(&mut table, name, value);
            k += 1;
        }
        proof {
            assert(config.options@.take(config.options.len() as int) =~= config.options@);
        }
        if config.ponder {
            set_option(&mut table, copy(PONDER_OPTION.as_bytes()), copy("true".as_bytes()));
        }
        let ghost goal = resolved(self@.options, config.options@, config.ponder);
        let mut commands: Vec<GuiCommand> = Vec::new();
        let mut j: usize = 0;
        while j < table.len()
            invariant
                j <= table.len(),
                pairs(table@) == goal,
                crate::player::engine::command_views(commands@) == option_commands(goal).take(
                    j as int,
                ),
            decreases table.len() - j,
        {
            let name = copy(table[j].0.as_slice());
            let value = copy(table[j].1.as_slice());
            let ghost before = crate::player::engine::command_views(commands@);
            let command = GuiCommand::SetOption(name, Some(value));
            let ghost sent = command@;
            commands.push(command);
            proof {
                assert(goal[j as int] == (table@[j as int].0@, table@[j as int].1@));
                assert(sent == GuiCommandView::SetOption(goal[j as int].0, Some(goal[j as int].1)));
                assert(option_commands(goal)[j as int] == sent);
                assert(crate::player::engine::command_views(commands@) =~= before.push(sent));
                assert(option_commands(goal).take(j + 1) =~= option_commands(goal).take(
                    j as int,
                ).push(sent));
            }
            j += 1;
        }
        proof {
            assert(option_commands(goal).take(table.len() as int) =~= option_commands(goal));
        }
        commands
    }
}

/// The options that a handshake learns stay free of doubles.
pub proof fn lemma_after_output_keeps_names_distinct(h: HandshakeView, output: EngineOutputView)
    requires
        distinct_names(h.options),
    ensures
        distinct_names(after_output(h, output).options),
{
    if !h.done {
        match output.response {
            Some(EngineCommandView::Option(OptionView { name, value })) => {
                lemma_table_set(h.options, name, default_text(value), name);
            },
            _ => {},
        }
    }
}

} // verus!
