//! What is kept between two runs: which desk to use, and named heights.
use vstd::prelude::*;

use crate::binary64::Binary64;

verus! {

/// The height of the position "sit" of a fresh configuration, 0.75 m.
pub const DEFAULT_SIT: u64 = 0x3fe8_0000_0000_0000;

/// The height of the position "stand" of a fresh configuration, 1.10 m.
pub const DEFAULT_STAND: u64 = 0x3ff1_9999_9999_999a;

/// A named height.
pub struct Position {
    pub name: String,
    pub height: Binary64,
}

/// Named heights. No name occurs twice.
pub struct Positions {
    pub entries: Vec<Position>,
}

/// Whether `entries` hold the name `name` at `i`.
pub open spec fn named_at(entries: Seq<Position>, i: int, name: Seq<char>) -> bool {
    0 <= i < entries.len() && entries[i].name@ == name
}

/// Whether `entries` hold the name `name`.
pub open spec fn has_name(entries: Seq<Position>, name: Seq<char>) -> bool {
    exists|i: int| named_at(entries, i, name)
}

/// Whether no name occurs twice.
pub open spec fn distinct(entries: Seq<Position>) -> bool {
    forall|i: int, j: int|
        0 <= i < entries.len() && 0 <= j < entries.len() && i != j ==> #[trigger] entries[i].name@
            != #[trigger] entries[j].name@
}

/// The heights by name.
pub open spec fn by_name(entries: Seq<Position>) -> Map<Seq<char>, Binary64> {
    Map::new(
        |name: Seq<char>| has_name(entries, name),
        |name: Seq<char>| entries[choose|i: int| named_at(entries, i, name)].height,
    )
}

impl View for Positions {
    type V = Map<Seq<char>, Binary64>;

    open spec fn view(&self) -> Map<Seq<char>, Binary64> {
        by_name(self.entries@)
    }
}

/// A name that occurs leads to its height.
proof fn lemma_by_name(entries: Seq<Position>, i: int)
    requires
        distinct(entries),
        0 <= i < entries.len(),
    ensures
        by_name(entries).contains_key(entries[i].name@),
        by_name(entries)[entries[i].name@] == entries[i].height,
{
    let name = entries[i].name@;
    assert(named_at(entries, i, name));
    let j = choose|j: int| named_at(entries, j, name);
    assert(named_at(entries, j, name));
    assert(i == j);
}

impl Positions {
    /// No name occurs twice.
    pub open spec fn well_formed(self) -> bool {
        distinct(self.entries@)
    }

    /// No positions.
    pub fn new() -> (r: Positions)
        ensures
            r.well_formed(),
            r@ == Map::<Seq<char>, Binary64>::empty(),
    {
        let r = Positions { entries: Vec::new() };
        assert(r@ =~= Map::<Seq<char>, Binary64>::empty());
        r
    }

    /// Where the name `name` occurs.
    fn find(&self, name: &str) -> (r: Option<usize>)
        ensures
            match r {
                Some(at) => named_at(self.entries@, at as int, name@),
                None => !has_name(self.entries@, name@),
            },
    {
        let wanted: String = name.to_owned();
        let mut at: usize = 0;
        while at < self.entries.len()
            invariant
                at <= self.entries@.len(),
                wanted@ == name@,
                forall|i: int| 0 <= i < at ==> !#[trigger] named_at(self.entries@, i, name@),
            decreases self.entries@.len() - at,
        {
            if self.entries[at].name == wanted {
                return Some(at);
            }
            at = at + 1;
        }
        None
    }

    /// The height with the name `name`.
    pub fn get(&self, name: &str) -> (r: Option<Binary64>)
        requires
            self.well_formed(),
        ensures
            r == if self@.contains_key(name@) {
                Some(self@[name@])
            } else {
                None
            },
    {
        match self.find(name) {
            Some(at) => {
                proof {
                    lemma_by_name(self.entries@, at as int);
                }
                Some(self.entries[at].height)
            },
            None => None,
        }
    }

    /// Gives `height` the name `name`, which is then the name of nothing else.
    pub fn insert(&mut self, name: String, height: Binary64)
        requires
            old(self).well_formed(),
        ensures
            final(self).well_formed(),
            final(self)@ == old(self)@.insert(name@, height),
    {
        let ghost before = self.entries@;
        match self.find(name.as_str()) {
            Some(at) => {
                self.entries.set(at, Position { name, height });
                proof {
                    lemma_insert_over(before, self.entries@, at as int);
                }
            },
            None => {
                self.entries.push(Position { name, height });
                proof {
                    assert(self.entries@.drop_last() =~= before);
                    lemma_insert_new(before, self.entries@);
                }
            },
        }
    }

    /// Drops the name `name`. Returns whether there was something to drop.
    pub fn remove(&mut self, name: &str) -> (r: bool)
        requires
            old(self).well_formed(),
        ensures
            final(self).well_formed(),
            r == old(self)@.contains_key(name@),
            final(self)@ == old(self)@.remove(name@),
    {
        let ghost before = self.entries@;
        match self.find(name) {
            Some(at) => {
                let _ = self.entries.remove(at);
                proof {
                    lemma_remove_at(before, self.entries@, at as int);
                }
                true
            },
            None => {
                assert(self@ =~= old(self)@.remove(name@));
                false
            },
        }
    }
}

/// Replacing the entry at `at` by one with the same name.
proof fn lemma_insert_over(before: Seq<Position>, entries: Seq<Position>, at: int)
    requires
        distinct(before),
        0 <= at < before.len(),
        entries.len() == before.len(),
        entries == before.update(at, entries[at]),
        entries[at].name@ == before[at].name@,
    ensures
        distinct(entries),
        by_name(entries) == by_name(before).insert(entries[at].name@, entries[at].height),
{
    assert forall|i: int| 0 <= i < entries.len() implies #[trigger] entries[i].name@
        == before[i].name@ by {}
    let name = entries[at].name@;
    let wanted = by_name(before).insert(name, entries[at].height);
    assert forall|n: Seq<char>| by_name(entries).contains_key(n) <==> wanted.contains_key(n) by {
        if has_name(entries, n) {
            let i = choose|i: int| named_at(entries, i, n);
            assert(named_at(before, i, n));
        }
        if has_name(before, n) {
            let i = choose|i: int| named_at(before, i, n);
            assert(named_at(entries, i, n));
        }
        assert(named_at(entries, at, name));
    }
    assert forall|n: Seq<char>| by_name(entries).contains_key(n) implies by_name(entries)[n]
        == wanted[n] by {
        let i = choose|i: int| named_at(entries, i, n);
        assert(named_at(entries, i, n));
        lemma_by_name(entries, i);
        lemma_by_name(before, i);
    }
    assert(by_name(entries) =~= wanted);
}

/// Adding an entry with a new name.
proof fn lemma_insert_new(before: Seq<Position>, entries: Seq<Position>)
    requires
        distinct(before),
        entries.len() == before.len() + 1,
        entries.drop_last() == before,
        !has_name(before, entries.last().name@),
    ensures
        distinct(entries),
        by_name(entries) == by_name(before).insert(entries.last().name@, entries.last().height),
{
    let last = before.len() as int;
    let name = entries.last().name@;
    assert forall|i: int| 0 <= i < last implies #[trigger] entries[i] == before[i] by {
        assert(entries.drop_last()[i] == entries[i]);
    }
    assert forall|i: int| 0 <= i < last implies #[trigger] entries[i].name@ != name by {
        assert(!named_at(before, i, name));
    }
    let wanted = by_name(before).insert(name, entries.last().height);
    assert forall|n: Seq<char>| by_name(entries).contains_key(n) <==> wanted.contains_key(n) by {
        if has_name(entries, n) {
            let i = choose|i: int| named_at(entries, i, n);
            if i < last {
                assert(named_at(before, i, n));
            }
        }
        if has_name(before, n) {
            let i = choose|i: int| named_at(before, i, n);
            assert(named_at(entries, i, n));
        }
        assert(named_at(entries, last, name));
    }
    assert forall|n: Seq<char>| by_name(entries).contains_key(n) implies by_name(entries)[n]
        == wanted[n] by {
        let i = choose|i: int| named_at(entries, i, n);
        assert(named_at(entries, i, n));
        lemma_by_name(entries, i);
        if i < last {
            lemma_by_name(before, i);
        }
    }
    assert(by_name(entries) =~= wanted);
}

/// Dropping the entry at `at`.
proof fn lemma_remove_at(before: Seq<Position>, entries: Seq<Position>, at: int)
    requires
        distinct(before),
        0 <= at < before.len(),
        entries == before.remove(at),
    ensures
        distinct(entries),
        by_name(entries) == by_name(before).remove(before[at].name@),
        by_name(before).contains_key(before[at].name@),
{
    let name = before[at].name@;
    lemma_by_name(before, at);
    assert forall|i: int| 0 <= i < entries.len() implies #[trigger] entries[i] == before[if i < at {
        i
    } else {
        i + 1
    }] by {}
    let wanted = by_name(before).remove(name);
    assert forall|n: Seq<char>| by_name(entries).contains_key(n) <==> wanted.contains_key(n) by {
        if has_name(entries, n) {
            let i = choose|i: int| named_at(entries, i, n);
            let k = if i < at {
                i
            } else {
                i + 1
            };
            assert(named_at(before, k, n));
            assert(before[k].name@ != before[at].name@);
        }
        if has_name(before, n) && n != name {
            let i = choose|i: int| named_at(before, i, n);
            let k = if i < at {
                i
            } else {
                i - 1
            };
            assert(named_at(entries, k, n));
        }
    }
    assert forall|n: Seq<char>| by_name(entries).contains_key(n) implies by_name(entries)[n]
        == wanted[n] by {
        let i = choose|i: int| named_at(entries, i, n);
        assert(named_at(entries, i, n));
        lemma_by_name(entries, i);
        lemma_by_name(
            before,
            if i < at {
                i
            } else {
                i + 1
            },
        );
    }
    assert(by_name(entries) =~= wanted);
}

/// What is kept between two runs.
pub struct Config {
    /// The desk to use: a UUID on macOS, a MAC address elsewhere.
    pub device_id: Option<String>,
    /// Where older configurations kept the desk to use.
    pub mac_address: Option<String>,
    /// Named heights.
    pub positions: Positions,
}

/// What is kept between two runs, in mathematical terms.
pub ghost struct ConfigView {
    pub device_id: Option<Seq<char>>,
    pub mac_address: Option<Seq<char>>,
    pub positions: Map<Seq<char>, Binary64>,
}

/// The characters of an optional text.
pub open spec fn characters(text: Option<String>) -> Option<Seq<char>> {
    match text {
        Some(s) => Some(s@),
        None => None,
    }
}

impl View for Config {
    type V = ConfigView;

    open spec fn view(&self) -> ConfigView {
        ConfigView {
            device_id: characters(self.device_id),
            mac_address: characters(self.mac_address),
            positions: self.positions@,
        }
    }
}

impl ConfigView {
    /// The desk to use: the one kept now, or else the one kept by older configurations.
    pub open spec fn effective_device(self) -> Option<Seq<char>> {
        if self.device_id is Some {
            self.device_id
        } else {
            self.mac_address
        }
    }

    /// A fresh configuration: no desk, and two positions.
    pub open spec fn fresh() -> ConfigView {
        ConfigView {
            device_id: None,
            mac_address: None,
            positions: Map::<Seq<char>, Binary64>::empty().insert(
                "sit"@,
                Binary64 { bits: DEFAULT_SIT },
            ).insert("stand"@, Binary64 { bits: DEFAULT_STAND }),
        }
    }

    /// The height that `argument` asks for: that of the position with this name, or
    /// else `parsed`, the number that the argument spells, if it spells one.
    pub open spec fn target_for(
        self,
        argument: Seq<char>,
        parsed: Option<Binary64>,
    ) -> Option<Binary64> {
        if self.positions.contains_key(argument) {
            Some(self.positions[argument])
        } else {
            parsed
        }
    }
}

impl Default for Config {
    fn default() -> (r: Config)
        ensures
            r.well_formed(),
            r@ == ConfigView::fresh(),
    {
        let mut positions: Positions = Positions::new();
        positions.insert("sit".to_owned(), Binary64 { bits: DEFAULT_SIT });
        positions.insert("stand".to_owned(), Binary64 { bits: DEFAULT_STAND });
        Config { device_id: None, mac_address: None, positions }
    }
}

impl Config {
    /// No position has two heights.
    pub open spec fn well_formed(self) -> bool {
        self.positions.well_formed()
    }

    /// The configuration that was kept, or a fresh one if there was none.
    pub fn or_default(kept: Option<Config>) -> (r: Config)
        requires
            kept matches Some(config) ==> config.well_formed(),
        ensures
            r.well_formed(),
            match kept {
                Some(config) => r == config,
                None => r@ == ConfigView::fresh(),
            },
    {
        match kept {
            Some(config) => config,
            None => Config::default(),
        }
    }

    /// The desk to use: the one kept now, or else the one kept by older configurations.
    pub fn get_device_id(&self) -> (r: Option<&String>)
        ensures
            match r {
                Some(id) => self@.effective_device() == Some(id@),
                None => self@.effective_device() is None,
            },
    {
        match &self.device_id {
            Some(id) => Some(id),
            None => match &self.mac_address {
                Some(id) => Some(id),
                None => None,
            },
        }
    }

    /// The desk to use, where `asked` says which one was asked for on the command line.
    pub fn resolve_device(&self, asked: Option<String>) -> (r: Option<String>)
        ensures
            characters(r) == if asked is Some {
                characters(asked)
            } else {
                self@.effective_device()
            },
    {
        match asked {
            Some(id) => Some(id),
            None => match self.get_device_id() {
                Some(id) => Some(id.clone()),
                None => None,
            },
        }
    }

    /// The height that `argument` asks for, where `parsed` is the number that it
    /// spells, if it spells one.
    pub fn find_target(&self, argument: &str, parsed: Option<Binary64>) -> (r: Option<Binary64>)
        requires
            self.well_formed(),
        ensures
            r == self@.target_for(argument@, parsed),
    {
        match self.positions.get(argument) {
            Some(height) => Some(height),
            None => parsed,
        }
    }

    /// Keeps the desk `device_id` from now on, and only there.
    pub fn adopt(&mut self, device_id: String)
        ensures
            final(self)@ == (ConfigView {
                device_id: Some(device_id@),
                mac_address: None,
                positions: old(self)@.positions,
            }),
            final(self).positions == old(self).positions,
    {
        self.device_id = Some(device_id);
        self.mac_address = None;
    }
}

/// Whether `name` is one of the seven reserved names, which no position may have.
pub open spec fn reserved(name: Seq<char>) -> bool {
    ||| name == "init"@
    ||| name == "pair"@
    ||| name == "monitor"@
    ||| name == "height"@
    ||| name == "speed"@
    ||| name == "save"@
    ||| name == "delete"@
}

/// Whether two texts are the same.
fn same(a: &str, b: &str) -> (r: bool)
    ensures
        r == (a@ == b@),
{
    a.to_owned() == b.to_owned()
}

/// Whether `name` is one of the seven reserved names, which no position may have.
pub fn is_reserved(name: &str) -> (r: bool)
    ensures
        r == reserved(name@),
{
    same(name, "init") || same(name, "pair") || same(name, "monitor") || same(name, "height")
        || same(name, "speed") || same(name, "save") || same(name, "delete")
}

/// How much is logged.
#[derive(Clone, Copy, Debug, PartialEq, Eq, Structural)]
pub enum LogLevel {
    Error,
    Warn,
    Info,
    Debug,
}

/// How much is logged after asking `verbose` times for more.
pub fn log_level(verbose: u8) -> (r: LogLevel)
    ensures
        r == if verbose == 0 {
            LogLevel::Error
        } else if verbose == 1 {
            LogLevel::Warn
        } else if verbose == 2 {
            LogLevel::Info
        } else {
            LogLevel::Debug
        },
{
    match verbose {
        0 => LogLevel::Error,
        1 => LogLevel::Warn,
        2 => LogLevel::Info,
        _ => LogLevel::Debug,
    }
}

/// What a configuration holds, in mathematical terms, is what its fields hold.
pub proof fn law_config_is_its_fields(config: Config)
    ensures
        match config.device_id {
            Some(id) => config@.device_id == Some(id@),
            None => config@.device_id is None,
        },
        match config.mac_address {
            Some(id) => config@.mac_address == Some(id@),
            None => config@.mac_address is None,
        },
        config@.positions == config.positions@,
{
}

/// Positions map the names that they list, and no others, to the heights that they
/// list with them.
pub proof fn law_positions_are_their_entries(positions: Positions)
    requires
        positions.well_formed(),
    ensures
        forall|i: int|
            0 <= i < positions.entries@.len() ==> {
                &&& positions@.contains_key((#[trigger] positions.entries@[i]).name@)
                &&& positions@[positions.entries@[i].name@] == positions.entries@[i].height
            },
        forall|name: Seq<char>| #[trigger]
            positions@.contains_key(name) ==> exists|i: int|
                0 <= i < positions.entries@.len() && (#[trigger] positions.entries@[i]).name@
                    == name,
{
    let entries = positions.entries@;
    assert forall|i: int| 0 <= i < entries.len() implies {
        &&& positions@.contains_key((#[trigger] entries[i]).name@)
        &&& positions@[entries[i].name@] == entries[i].height
    } by {
        lemma_by_name(entries, i);
    }
    assert forall|name: Seq<char>| #[trigger] positions@.contains_key(name) implies exists|i: int|
        0 <= i < entries.len() && (#[trigger] entries[i]).name@ == name by {
        let i = choose|i: int| named_at(entries, i, name);
        assert(entries[i].name@ == name);
    }
}

/// The desk to use is the one kept now; one kept by an older configuration counts only
/// where there is none.
pub proof fn law_newer_entry_goes_first(config: ConfigView)
    ensures
        config.device_id matches Some(id) ==> config.effective_device() == Some(id),
        config.device_id is None ==> config.effective_device() == config.mac_address,
{
}

/// A name goes before a number: an argument means the position with this name, and
/// only where there is none the number that it spells.
pub proof fn law_name_goes_before_number(
    config: ConfigView,
    argument: Seq<char>,
    parsed: Option<Binary64>,
)
    ensures
        config.positions.contains_key(argument) ==> config.target_for(argument, parsed) == Some(
            config.positions[argument],
        ),
        !config.positions.contains_key(argument) ==> config.target_for(argument, parsed) == parsed,
{
}

/// The reserved names are these seven.
pub proof fn law_seven_names_are_reserved(name: Seq<char>)
    ensures
        reserved(name) <==> seq![
            "init"@,
            "pair"@,
            "monitor"@,
            "height"@,
            "speed"@,
            "save"@,
            "delete"@,
        ].contains(name),
{
    let names = seq![
        "init"@,
        "pair"@,
        "monitor"@,
        "height"@,
        "speed"@,
        "save"@,
        "delete"@,
    ];
    assert(names[0] == "init"@ && names[1] == "pair"@ && names[2] == "monitor"@ && names[3]
        == "height"@ && names[4] == "speed"@ && names[5] == "save"@ && names[6] == "delete"@);
}

/// A fresh configuration knows no desk and two positions: "sit" at 0.75 m and "stand" at
/// 1.10 m.
pub proof fn law_fresh_config_has_two_positions(name: Seq<char>)
    ensures
        ConfigView::fresh().effective_device() is None,
        ConfigView::fresh().device_id is None,
        ConfigView::fresh().mac_address is None,
        ConfigView::fresh().positions.contains_key(name) <==> name == "sit"@ || name == "stand"@,
        ConfigView::fresh().positions["sit"@] == (Binary64 { bits: 0x3fe8_0000_0000_0000 }),
        ConfigView::fresh().positions["stand"@] == (Binary64 { bits: 0x3ff1_9999_9999_999a }),
{
    reveal_strlit("sit");
    reveal_strlit("stand");
    assert("sit"@.len() != "stand"@.len());
}

} // verus!
