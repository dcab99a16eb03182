//! What the config file says, and what Footman makes of it.
//!
//! The file is the single source of truth, and it is meant to be hand-edited
//! as much as written by the settings window, so loading distinguishes two
//! kinds of failure: a file whose *structure* cannot be trusted, which is
//! fatal, and a single unusable Binding, which is skipped and reported.
//!
//! Reading TOML is the `toml` crate's work and happens where the file is read;
//! what it hands over is a [`Document`], the file's shape as plain values. Everything
//! Footman decides about that shape happens here.

use vstd::prelude::*;
use vstd::string::*;
use vstd::utf8::is_char_boundary;

use crate::action::{action_usable, desktop_zero_reason, tap_name, tap_named, Action, TapAction};
use crate::chord::{chord_named, chord_text, valid_bits, Chord};
use crate::keys::{key_name, key_named, Key};
use crate::table::{chord_pair, rank, BindingTable};

verus! {

/// Everything the running Footman needs, as read from the file.
#[derive(Debug, PartialEq, Eq)]
pub struct Config {
    pub hyper: Key,
    pub tap: TapAction,
    pub autostart: bool,
    pub bindings: BindingTable,
}

/// A Config as values: the Bindings as the map they are.
pub struct ConfigView {
    pub hyper: Key,
    pub tap: TapAction,
    pub autostart: bool,
    pub bindings: Map<(u8, Key), Action>,
}

impl View for Config {
    type V = ConfigView;

    open spec fn view(&self) -> ConfigView {
        ConfigView {
            hyper: self.hyper,
            tap: self.tap,
            autostart: self.autostart,
            bindings: self.bindings@,
        }
    }
}

/// What a first run gets: Hyper on Caps Lock, nothing bound, nothing else on.
pub open spec fn default_config() -> ConfigView {
    ConfigView {
        hyper: Key::CapsLock,
        tap: TapAction::Nothing,
        autostart: false,
        bindings: Map::empty(),
    }
}

impl Clone for Config {
    fn clone(&self) -> (c: Self)
        ensures
            c@ == self@,
    {
        Config {
            hyper: self.hyper,
            tap: self.tap,
            autostart: self.autostart,
            bindings: self.bindings.clone(),
        }
    }
}

impl Default for Config {
    fn default() -> (c: Self)
        ensures
            c@ == default_config(),
    {
        Config {
            hyper: Key::CapsLock,
            tap: TapAction::Nothing,
            autostart: false,
            bindings: BindingTable::empty(),
        }
    }
}

/// A Binding that could not be used, and why.
#[derive(Debug, PartialEq, Eq)]
pub enum Warning {
    /// The Chord could not be read, so the Binding was dropped.
    UnreadableChord { chord: String },
    /// The Chord was fine but its Action was not, so the Binding was dropped.
    UnusableAction { chord: String, reason: String },
    /// The Chord was already bound, so the later Binding was dropped.
    DuplicateChord { chord: String },
    /// The Tap Action could not be read, so nothing happens on tap.
    UnreadableTapAction { tap: String },
}

/// A Warning as text.
pub enum WarningView {
    UnreadableChord(Seq<char>),
    UnusableAction(Seq<char>, Seq<char>),
    DuplicateChord(Seq<char>),
    UnreadableTapAction(Seq<char>),
}

impl View for Warning {
    type V = WarningView;

    open spec fn view(&self) -> WarningView {
        match self {
            Warning::UnreadableChord { chord } => WarningView::UnreadableChord(chord@),
            Warning::UnusableAction { chord, reason } => WarningView::UnusableAction(
                chord@,
                reason@,
            ),
            Warning::DuplicateChord { chord } => WarningView::DuplicateChord(chord@),
            Warning::UnreadableTapAction { tap } => WarningView::UnreadableTapAction(tap@),
        }
    }
}

/// Warnings as text, in order.
pub open spec fn warnings_view(ws: Seq<Warning>) -> Seq<WarningView> {
    ws.map_values(|w: Warning| w@)
}

/// A config that loaded, together with anything about it worth reporting.
///
/// Warnings are not errors: the configuration is usable. They exist so the
/// settings window can flag the offending rows rather than silently dropping
/// them.
#[derive(Debug)]
pub struct Loaded {
    pub config: Config,
    pub warnings: Vec<Warning>,
}

/// The file's structure could not be trusted, so nothing was loaded.
///
/// This is deliberately fatal rather than best-effort: "half my Bindings work
/// and I don't know why" is undiagnosable, whereas "nothing works and the tray
/// says why" is a five-second fix.
#[derive(Debug, PartialEq, Eq)]
pub struct ConfigError {
    pub message: String,
    /// 1-based line the problem was found on, for the settings window to show.
    /// Absent when the file could not be read at all.
    pub line: Option<usize>,
}

/// What the user is told when the file itself could not be read or written.
pub open spec fn io_message(action: Seq<char>, path: Seq<char>, error: Seq<char>) -> Seq<char> {
    "could not "@ + action + " "@ + path + ": "@ + error
}

impl ConfigError {
    /// The file could not be read or written: there is no line to point at.
    pub fn io(action: &str, path: &str, error: &str) -> (e: ConfigError)
        ensures
            e.message@ == io_message(action@, path@, error@),
            e.line is None,
    {
        let mut message = String::from_str("could not ");
        message.append(action);
        message.append(" ");
        message.append(path);
        message.append(": ");
        message.append(error);
        ConfigError { message, line: None }
    }
}

/// A text as the file had it, with the byte offset where it started.
#[derive(Debug, PartialEq, Eq)]
pub struct Spanned {
    pub text: String,
    pub start: usize,
}

/// One `[[binding]]` entry: the Chord as written, and the Action its table
/// describes, or why it describes none.
///
/// The Action is resolved per entry rather than with the whole file, so that
/// one bad Binding is skipped and reported rather than failing everything.
#[derive(Debug, PartialEq, Eq)]
pub struct RawBinding {
    pub chord: String,
    pub action: Result<Action, String>,
}

/// The config file's structure, as the TOML reader found it.
#[derive(Debug, PartialEq, Eq)]
pub struct Document {
    /// `[hyper] key`, spanned so an unreadable Hyper Key can be reported on
    /// its own line.
    pub hyper_key: Option<Spanned>,
    /// `[hyper] tap`.
    pub hyper_tap: Option<String>,
    /// `[general] autostart`, false when absent.
    pub autostart: bool,
    /// Every `[[binding]]`, in file order.
    pub bindings: Vec<RawBinding>,
}

/// How many newline bytes there are.
pub open spec fn newlines(b: Seq<u8>) -> nat
    decreases b.len(),
{
    if b.len() == 0 {
        0
    } else {
        newlines(b.drop_last()) + if b.last() == 10u8 {
            1nat
        } else {
            0nat
        }
    }
}

/// The 1-based line holding the byte at `offset`: one more than the newlines
/// before it (an offset past the end is taken as the end).
pub open spec fn line_number(b: Seq<u8>, offset: int) -> nat {
    let upto = if offset < b.len() {
        offset
    } else {
        b.len() as int
    };
    newlines(b.take(upto)) + 1
}

/// Whether a byte offset into a text can be cut at without splitting a
/// character (an offset past the end is taken as the end). No text is
/// `usize::MAX` bytes long: no allocation can be.
pub open spec fn cuttable(text: &str, offset: usize) -> bool {
    &&& text.spec_bytes().len() < usize::MAX
    &&& offset >= text.spec_bytes().len() || is_char_boundary(text.spec_bytes(), offset as int)
}

/// The 1-based line containing the byte at `offset`.
pub fn line_of(text: &str, offset: usize) -> (line: usize)
    requires
        cuttable(text, offset),
    ensures
        line == line_number(text.spec_bytes(), offset as int),
{
    let bytes = text.as_bytes();
    let upto = if offset < bytes.len() {
        offset
    } else {
        bytes.len()
    };
    let mut count: usize = 0;
    let mut i: usize = 0;
    while i < upto
        invariant
            upto <= bytes@.len(),
            i <= upto,
            count == newlines(bytes@.take(i as int)),
            count <= i,
        decreases upto - i,
    {
        assert(bytes@.take(i + 1).drop_last() =~= bytes@.take(i as int));
        if bytes[i] == 10u8 {
            count = count + 1;
        }
        i = i + 1;
    }
    assert(bytes@.take(upto as int) =~= bytes@.take(i as int));
    count + 1
}

/// What one `[[binding]]` entry does to the table and the warnings so far.
pub open spec fn absorb_one(
    table: Map<(u8, Key), Action>,
    warnings: Seq<WarningView>,
    row: RawBinding,
) -> (Map<(u8, Key), Action>, Seq<WarningView>) {
    match chord_named(row.chord@) {
        None => (table, warnings.push(WarningView::UnreadableChord(row.chord@))),
        Some(pair) => match row.action {
            Err(reason) => (table, warnings.push(WarningView::UnusableAction(row.chord@, reason@))),
            Ok(action) => if !action_usable(action) {
                (
                    table,
                    warnings.push(WarningView::UnusableAction(row.chord@, desktop_zero_reason())),
                )
            } else if table.contains_key(pair) {
                (table, warnings.push(WarningView::DuplicateChord(row.chord@)))
            } else {
                (table.insert(pair, action), warnings)
            },
        },
    }
}

/// Every entry, in file order: the first Binding on a Chord wins.
pub open spec fn absorb(
    table: Map<(u8, Key), Action>,
    warnings: Seq<WarningView>,
    rows: Seq<RawBinding>,
) -> (Map<(u8, Key), Action>, Seq<WarningView>)
    decreases rows.len(),
{
    if rows.len() == 0 {
        (table, warnings)
    } else {
        let (t, w) = absorb(table, warnings, rows.drop_last());
        absorb_one(t, w, rows.last())
    }
}

/// The message for a Hyper Key nobody has a name for.
pub open spec fn unknown_key_message(name: Seq<char>) -> Seq<char> {
    "unknown key `"@ + name + "`"@
}

/// What a document loads as: a Config and its warnings, or the fatal error.
pub open spec fn load(text: Seq<u8>, doc: Document) -> Result<
    (ConfigView, Seq<WarningView>),
    (Seq<char>, Option<usize>),
> {
    let hyper = match doc.hyper_key {
        None => Some(Key::CapsLock),
        Some(k) => key_named(k.text@),
    };
    match hyper {
        None => Err(
            (
                unknown_key_message(doc.hyper_key.unwrap().text@),
                Some(line_number(text, doc.hyper_key.unwrap().start as int) as usize),
            ),
        ),
        Some(hyper) => {
            let (tap, warnings) = match doc.hyper_tap {
                None => (TapAction::Nothing, Seq::empty()),
                Some(name) => match tap_named(name@) {
                    Some(tap) => (tap, Seq::empty()),
                    None => (
                        TapAction::Nothing,
                        seq![WarningView::UnreadableTapAction(name@)],
                    ),
                },
            };
            let (bindings, warnings) = absorb(Map::empty(), warnings, doc.bindings@);
            Ok(
                (
                    ConfigView { hyper, tap, autostart: doc.autostart, bindings },
                    warnings,
                ),
            )
        },
    }
}

/// The message for a Hyper Key nobody has a name for.
fn unknown_key(name: &String) -> (message: String)
    ensures
        message@ == unknown_key_message(name@),
{
    let mut message = String::from_str("unknown key `");
    message.append(name.as_str());
    message.append("`");
    message
}

proof fn lemma_warnings_push(ws: Seq<Warning>, w: Warning)
    ensures
        warnings_view(ws.push(w)) == warnings_view(ws).push(w@),
{
    assert(warnings_view(ws.push(w)) =~= warnings_view(ws).push(w@));
}

impl Config {
    /// What a config file's structure means: the Config it describes, with
    /// anything about it worth reporting, or why nothing at all can be
    /// trusted.
    ///
    /// An unreadable Hyper Key is fatal, because falling back to Caps Lock
    /// would seize a key the user did not ask for. An unreadable Tap Action
    /// falls back to doing nothing on tap, with a warning. A Binding whose
    /// Chord or Action is unusable is skipped with a warning, and of two
    /// Bindings on one Chord the first wins and the second is reported.
    pub fn from_document(text: &str, doc: Document) -> (r: Result<Loaded, ConfigError>)
        requires
            doc.hyper_key matches Some(k) ==> cuttable(text, k.start),
        ensures
            r.is_ok() == load(text.spec_bytes(), doc).is_ok(),
            r matches Ok(l) ==> load(text.spec_bytes(), doc) is Ok && load(
                text.spec_bytes(),
                doc,
            )->Ok_0 == (l.config@, warnings_view(l.warnings@)),
            r matches Err(e) ==> load(text.spec_bytes(), doc) is Err && load(
                text.spec_bytes(),
                doc,
            )->Err_0 == (e.message@, e.line),
    {
        let ghost whole = doc;
        let Document { hyper_key, hyper_tap, autostart, bindings } = doc;
        let hyper = match hyper_key {
            None => Key::CapsLock,
            Some(k) => match Key::parse(k.text.as_str()) {
                Some(key) => key,
                None => {
                    return Err(
                        ConfigError {
                            message: unknown_key(&k.text),
                            line: Some(line_of(text, k.start)),
                        },
                    );
                },
            },
        };
        let mut warnings: Vec<Warning> = Vec::new();
        let tap = match hyper_tap {
            None => TapAction::Nothing,
            Some(name) => match TapAction::parse(name.as_str()) {
                Some(tap) => tap,
                None => {
                    warnings.push(Warning::UnreadableTapAction { tap: name });
                    TapAction::Nothing
                },
            },
        };
        let ghost initial = warnings_view(warnings@);
        assert(initial =~= (match whole.hyper_tap {
            None => Seq::<WarningView>::empty(),
            Some(name) => match tap_named(name@) {
                Some(_) => Seq::empty(),
                None => seq![WarningView::UnreadableTapAction(name@)],
            },
        }));
        let ghost all = bindings@;
        let mut rest = bindings;
        let mut table = BindingTable::empty();
        while rest.len() > 0
            invariant
                all == all.take(all.len() - rest@.len()) + rest@,
                rest@.len() <= all.len(),
                (table@, warnings_view(warnings@)) == absorb(
                    Map::empty(),
                    initial,
                    all.take(all.len() - rest@.len()),
                ),
            decreases rest@.len(),
        {
            let ghost done = all.take(all.len() - rest@.len());
            let ghost before = (table@, warnings_view(warnings@));
            let row = rest.remove(0);
            let ghost now = all.take(all.len() - rest@.len());
            proof {
                assert(now =~= done.push(row));
                assert(now.drop_last() =~= done);
                assert(all =~= now + rest@);
            }
            let ghost raw = row;
            let RawBinding { chord: written, action } = row;
            match Chord::parse(written.as_str()) {
                None => {
                    let w = Warning::UnreadableChord { chord: written };
                    proof {
                        lemma_warnings_push(warnings@, w);
                    }
                    warnings.push(w);
                },
                Some(chord) => match action {
                    Err(reason) => {
                        let w = Warning::UnusableAction { chord: written, reason };
                        proof {
                            lemma_warnings_push(warnings@, w);
                        }
                        warnings.push(w);
                    },
                    Ok(action) => match action.check() {
                        Err(reason) => {
                            let w = Warning::UnusableAction { chord: written, reason };
                            proof {
                                lemma_warnings_push(warnings@, w);
                            }
                            warnings.push(w);
                        },
                        Ok(()) => {
                            if !table.add(chord, action) {
                                let w = Warning::DuplicateChord { chord: written };
                                proof {
                                    lemma_warnings_push(warnings@, w);
                                }
                                warnings.push(w);
                            }
                        },
                    },
                },
            }
            assert((table@, warnings_view(warnings@)) == absorb_one(before.0, before.1, raw));
        }
        assert(all.take(all.len() as int) =~= all);
        Ok(Loaded { config: Config { hyper, tap, autostart, bindings: table }, warnings })
    }
}

/// Every Binding of a config is one a file could hold: its modifiers are
/// only Shift, Ctrl and Alt, and its Action is usable.
pub open spec fn config_sound(bindings: Map<(u8, Key), Action>) -> bool {
    forall|p: (u8, Key)|
        #[trigger] bindings.contains_key(p) ==> valid_bits(p.0) && action_usable(bindings[p])
}

proof fn lemma_absorb_sound(
    table: Map<(u8, Key), Action>,
    warnings: Seq<WarningView>,
    rows: Seq<RawBinding>,
)
    requires
        config_sound(table),
    ensures
        config_sound(absorb(table, warnings, rows).0),
    decreases rows.len(),
{
    if rows.len() > 0 {
        lemma_absorb_sound(table, warnings, rows.drop_last());
        crate::chord::lemma_named_chord_valid(rows.last().chord@);
    }
}

/// Whatever a file says, the Config it loads as holds only Bindings a file
/// could hold: nothing unusable gets past loading.
pub proof fn lemma_loaded_config_is_sound(text: Seq<u8>, doc: Document)
    ensures
        load(text, doc) matches Ok(v) ==> config_sound(v.0.bindings),
{
    let warnings = match doc.hyper_tap {
        None => Seq::<WarningView>::empty(),
        Some(name) => match tap_named(name@) {
            Some(_) => Seq::empty(),
            None => seq![WarningView::UnreadableTapAction(name@)],
        },
    };
    lemma_absorb_sound(Map::empty(), warnings, doc.bindings@);
}

/// A Tap Action's name reads back as that Tap Action.
pub proof fn lemma_tap_name_round_trip(t: TapAction)
    ensures
        tap_named(tap_name(t)) == Some(t),
{
    let none = tap_name(TapAction::Nothing);
    let escape = tap_name(TapAction::Escape);
    assert(crate::text::fold_seq(none) =~= none);
    assert(crate::text::fold_seq(escape) =~= escape);
    assert(crate::text::fold_seq(escape).len() != crate::text::fold_seq(none).len());
}

/// Entries written from distinct, sound Bindings read back as exactly those
/// Bindings, with nothing to report.
proof fn lemma_absorb_written(
    bindings: Map<(u8, Key), Action>,
    pairs: Seq<(u8, Key)>,
    rows: Seq<RawBinding>,
    n: int,
)
    requires
        config_sound(bindings),
        pairs.no_duplicates(),
        rows.len() == pairs.len(),
        0 <= n <= rows.len(),
        forall|i: int| 0 <= i < pairs.len() ==> bindings.contains_key(#[trigger] pairs[i]),
        forall|i: int|
            0 <= i < rows.len() ==> (#[trigger] rows[i]).chord@ == chord_text(
                pairs[i].0,
                pairs[i].1,
            ) && rows[i].action == Ok::<Action, String>(bindings[pairs[i]]),
    ensures
        absorb(Map::empty(), Seq::empty(), rows.take(n)).1 == Seq::<WarningView>::empty(),
        absorb(Map::empty(), Seq::empty(), rows.take(n)).0 == Map::new(
            |p: (u8, Key)| pairs.take(n).contains(p),
            |p: (u8, Key)| bindings[p],
        ),
    decreases n,
{
    if n == 0 {
        assert(rows.take(0) =~= Seq::<RawBinding>::empty());
        assert(Map::new(|p: (u8, Key)| pairs.take(0).contains(p), |p: (u8, Key)| bindings[p])
            =~= Map::<(u8, Key), Action>::empty());
    } else {
        lemma_absorb_written(bindings, pairs, rows, n - 1);
        assert(rows.take(n).drop_last() =~= rows.take(n - 1));
        let row = rows[n - 1];
        assert(rows.take(n).last() == row);
        let p = pairs[n - 1];
        assert(bindings.contains_key(p));
        crate::chord::lemma_chord_text_round_trip(p.0, p.1);
        let before = Map::new(
            |q: (u8, Key)| pairs.take(n - 1).contains(q),
            |q: (u8, Key)| bindings[q],
        );
        assert(!before.contains_key(p)) by {
            if pairs.take(n - 1).contains(p) {
                let j = choose|j: int| 0 <= j < n - 1 && #[trigger] pairs.take(n - 1)[j] == p;
                assert(pairs[j] == pairs[n - 1]);
            }
        }
        assert(before.insert(p, bindings[p]) =~= Map::new(
            |q: (u8, Key)| pairs.take(n).contains(q),
            |q: (u8, Key)| bindings[q],
        )) by {
            assert forall|q: (u8, Key)| #[trigger] pairs.take(n).contains(q) == (pairs.take(
                n - 1,
            ).contains(q) || q == p) by {
                if pairs.take(n).contains(q) {
                    let j = choose|j: int| 0 <= j < n && #[trigger] pairs.take(n)[j] == q;
                    if j < n - 1 {
                        assert(pairs.take(n - 1)[j] == q);
                    }
                }
                if pairs.take(n - 1).contains(q) {
                    let j = choose|j: int| 0 <= j < n - 1 && #[trigger] pairs.take(n - 1)[j] == q;
                    assert(pairs.take(n)[j] == q);
                }
                if q == p {
                    assert(pairs.take(n)[n - 1] == q);
                }
            }
        }
    }
}

/// What is written, is read: a file holding a sound Config's Hyper Key, Tap
/// Action, autostart and every Binding, each Chord spelled canonically, loads
/// back as that same Config with nothing to report, in whatever order the
/// Bindings come.
pub proof fn lemma_written_config_reads_back(
    text: Seq<u8>,
    config: ConfigView,
    pairs: Seq<(u8, Key)>,
    doc: Document,
)
    requires
        config_sound(config.bindings),
        pairs.no_duplicates(),
        pairs.to_set() == config.bindings.dom(),
        doc.hyper_key matches Some(k) && k.text@ == key_name(config.hyper),
        doc.hyper_tap matches Some(t) && t@ == tap_name(config.tap),
        doc.autostart == config.autostart,
        doc.bindings@.len() == pairs.len(),
        forall|i: int|
            0 <= i < pairs.len() ==> (#[trigger] doc.bindings@[i]).chord@ == chord_text(
                pairs[i].0,
                pairs[i].1,
            ) && doc.bindings@[i].action == Ok::<Action, String>(config.bindings[pairs[i]]),
    ensures
        load(text, doc) is Ok,
        load(text, doc)->Ok_0.0 == config,
        load(text, doc)->Ok_0.1 == Seq::<WarningView>::empty(),
{
    let rows = doc.bindings@;
    crate::keys::lemma_key_name_round_trip(config.hyper);
    lemma_tap_name_round_trip(config.tap);
    assert forall|i: int| 0 <= i < pairs.len() implies config.bindings.contains_key(
        #[trigger] pairs[i],
    ) by {
        assert(pairs.to_set().contains(pairs[i]));
    }
    lemma_absorb_written(config.bindings, pairs, rows, rows.len() as int);
    assert(rows.take(rows.len() as int) =~= rows);
    assert(pairs.take(pairs.len() as int) =~= pairs);
    let loaded = absorb(Map::empty(), Seq::empty(), rows).0;
    assert(loaded =~= config.bindings) by {
        assert forall|q: (u8, Key)| #[trigger] loaded.contains_key(q) == config.bindings.contains_key(
            q,
        ) by {
            assert(pairs.to_set().contains(q) == pairs.contains(q));
        }
    }
}

/// A Binding as it is written to the file: the Chord's canonical spelling and
/// its Action.
#[derive(Debug, PartialEq, Eq)]
pub struct WrittenBinding {
    pub chord: String,
    pub action: Action,
}

/// The file a Config would be saved as, as plain values: what the TOML writer
/// is handed.
#[derive(Debug, PartialEq, Eq)]
pub struct Written {
    pub hyper_key: String,
    pub tap: String,
    pub autostart: bool,
    pub bindings: Vec<WrittenBinding>,
}

/// The Chord a written Binding is spelled as.
pub open spec fn written_pair(b: WrittenBinding) -> (u8, Key) {
    chord_named(b.chord@).unwrap()
}

/// Whether `w` is the file Config `c` is written as: its Hyper Key, Tap Action
/// and autostart by name and value, and every Binding once, in key-table
/// order, each Chord spelled the one canonical way.
pub open spec fn writes(c: ConfigView, w: Written) -> bool {
    &&& w.hyper_key@ == key_name(c.hyper)
    &&& w.tap@ == tap_name(c.tap)
    &&& w.autostart == c.autostart
    &&& w.bindings@.len() == c.bindings.dom().len()
    &&& forall|i: int|
        0 <= i < w.bindings@.len() ==> {
            let b = #[trigger] w.bindings@[i];
            &&& chord_named(b.chord@) is Some
            &&& b.chord@ == chord_text(written_pair(b).0, written_pair(b).1)
            &&& c.bindings.contains_key(written_pair(b))
            &&& b.action == c.bindings[written_pair(b)]
        }
    &&& forall|i: int, j: int|
        0 <= i < j < w.bindings@.len() ==> rank(written_pair(#[trigger] w.bindings@[i])) < rank(
            written_pair(#[trigger] w.bindings@[j]),
        )
    &&& forall|p: (u8, Key)|
        #[trigger] c.bindings.contains_key(p) ==> exists|i: int|
            0 <= i < w.bindings@.len() && written_pair(w.bindings@[i]) == p
}

/// Two listings of one set of Chords, each in strictly ascending rank, are
/// the same listing.
proof fn lemma_one_listing(s1: Seq<(u8, Key)>, s2: Seq<(u8, Key)>, d: Set<(u8, Key)>)
    requires
        forall|i: int, j: int| 0 <= i < j < s1.len() ==> rank(#[trigger] s1[i]) < rank(#[trigger] s1[j]),
        forall|i: int, j: int| 0 <= i < j < s2.len() ==> rank(#[trigger] s2[i]) < rank(#[trigger] s2[j]),
        forall|i: int| 0 <= i < s1.len() ==> d.contains(#[trigger] s1[i]),
        forall|i: int| 0 <= i < s2.len() ==> d.contains(#[trigger] s2[i]),
        forall|p: (u8, Key)| #[trigger] d.contains(p) ==> exists|i: int| 0 <= i < s1.len() && s1[i] == p,
        forall|p: (u8, Key)| #[trigger] d.contains(p) ==> exists|i: int| 0 <= i < s2.len() && s2[i] == p,
    ensures
        s1 == s2,
    decreases s1.len(),
{
    if s1.len() == 0 {
        if s2.len() > 0 {
            assert(d.contains(s2[0]));
        }
        assert(s1 =~= s2);
    } else {
        assert(d.contains(s1[0]));
        if s2.len() == 0 {
            assert(false);
        }
        assert(d.contains(s2[0]));
        let k = choose|i: int| 0 <= i < s1.len() && s1[i] == s2[0];
        let j = choose|i: int| 0 <= i < s2.len() && s2[i] == s1[0];
        if s1[0] != s2[0] {
            assert(rank(s1[0]) < rank(s1[k]));
            assert(rank(s2[0]) < rank(s2[j]));
            assert(false);
        }
        let x = s1[0];
        let (t1, t2) = (s1.drop_first(), s2.drop_first());
        let e = d.remove(x);
        assert forall|i: int| 0 <= i < t1.len() implies e.contains(#[trigger] t1[i]) by {
            assert(t1[i] == s1[i + 1]);
            assert(rank(s1[0]) < rank(s1[i + 1]));
        }
        assert forall|i: int| 0 <= i < t2.len() implies e.contains(#[trigger] t2[i]) by {
            assert(t2[i] == s2[i + 1]);
            assert(rank(s2[0]) < rank(s2[i + 1]));
        }
        assert forall|p: (u8, Key)| #[trigger] e.contains(p) implies exists|i: int|
            0 <= i < t1.len() && t1[i] == p by {
            let i = choose|i: int| 0 <= i < s1.len() && s1[i] == p;
            assert(i != 0);
            assert(t1[i - 1] == p);
        }
        assert forall|p: (u8, Key)| #[trigger] e.contains(p) implies exists|i: int|
            0 <= i < t2.len() && t2[i] == p by {
            let i = choose|i: int| 0 <= i < s2.len() && s2[i] == p;
            assert(i != 0);
            assert(t2[i - 1] == p);
        }
        assert forall|a: int, b: int| 0 <= a < b < t1.len() implies rank(#[trigger] t1[a]) < rank(
            #[trigger] t1[b],
        ) by {
            assert(t1[a] == s1[a + 1] && t1[b] == s1[b + 1]);
        }
        assert forall|a: int, b: int| 0 <= a < b < t2.len() implies rank(#[trigger] t2[a]) < rank(
            #[trigger] t2[b],
        ) by {
            assert(t2[a] == s2[a + 1] && t2[b] == s2[b + 1]);
        }
        lemma_one_listing(t1, t2, e);
        assert(s1 =~= s2);
    }
}

/// Equal Configs are written alike: whatever order their Bindings were added
/// in, the file's Hyper Key, Tap Action, autostart and Bindings come out the
/// same, Binding for Binding, so saving twice gives the same file.
pub proof fn lemma_equal_configs_write_alike(c: ConfigView, w1: Written, w2: Written)
    requires
        writes(c, w1),
        writes(c, w2),
    ensures
        w1.hyper_key@ == w2.hyper_key@,
        w1.tap@ == w2.tap@,
        w1.autostart == w2.autostart,
        w1.bindings@.len() == w2.bindings@.len(),
        forall|i: int|
            0 <= i < w1.bindings@.len() ==> (#[trigger] w1.bindings@[i]).chord@ == w2.bindings@[i].chord@
                && w1.bindings@[i].action == w2.bindings@[i].action,
{
    let s1 = w1.bindings@.map_values(|b: WrittenBinding| written_pair(b));
    let s2 = w2.bindings@.map_values(|b: WrittenBinding| written_pair(b));
    let d = c.bindings.dom();
    assert forall|i: int, j: int| 0 <= i < j < s1.len() implies rank(#[trigger] s1[i]) < rank(
        #[trigger] s1[j],
    ) by {
        assert(s1[i] == written_pair(w1.bindings@[i]) && s1[j] == written_pair(w1.bindings@[j]));
    }
    assert forall|i: int, j: int| 0 <= i < j < s2.len() implies rank(#[trigger] s2[i]) < rank(
        #[trigger] s2[j],
    ) by {
        assert(s2[i] == written_pair(w2.bindings@[i]) && s2[j] == written_pair(w2.bindings@[j]));
    }
    assert forall|i: int| 0 <= i < s1.len() implies d.contains(#[trigger] s1[i]) by {
        assert(s1[i] == written_pair(w1.bindings@[i]));
    }
    assert forall|i: int| 0 <= i < s2.len() implies d.contains(#[trigger] s2[i]) by {
        assert(s2[i] == written_pair(w2.bindings@[i]));
    }
    assert forall|p: (u8, Key)| #[trigger] d.contains(p) implies exists|i: int|
        0 <= i < s1.len() && s1[i] == p by {
        assert(c.bindings.contains_key(p));
        let i = choose|i: int| 0 <= i < w1.bindings@.len() && written_pair(w1.bindings@[i]) == p;
        assert(s1[i] == p);
    }
    assert forall|p: (u8, Key)| #[trigger] d.contains(p) implies exists|i: int|
        0 <= i < s2.len() && s2[i] == p by {
        assert(c.bindings.contains_key(p));
        let i = choose|i: int| 0 <= i < w2.bindings@.len() && written_pair(w2.bindings@[i]) == p;
        assert(s2[i] == p);
    }
    lemma_one_listing(s1, s2, d);
    assert forall|i: int| 0 <= i < w1.bindings@.len() implies (#[trigger] w1.bindings@[i]).chord@
        == w2.bindings@[i].chord@ && w1.bindings@[i].action == w2.bindings@[i].action by {
        assert(s1[i] == written_pair(w1.bindings@[i]));
        assert(s2[i] == written_pair(w2.bindings@[i]));
        assert(w2.bindings@[i] == w2.bindings@[i]);
    }
}

impl Config {
    /// The file this Config would be saved as.
    ///
    /// The settings window rewrites the file on every change, so the output
    /// has to be byte-stable: Bindings come in key-table order rather than map
    /// order, each Chord spelled the one canonical way.
    pub fn written(&self) -> (w: Written)
        ensures
            writes(self@, w),
    {
        let all = self.bindings.sorted();
        let mut bindings: Vec<WrittenBinding> = Vec::new();
        let mut i: usize = 0;
        while i < all.len()
            invariant
                i <= all@.len(),
                bindings@.len() == i,
                forall|j: int|
                    0 <= j < i ==> {
                        let b = #[trigger] bindings@[j];
                        &&& chord_named(b.chord@) == Some(chord_pair(all@[j].0))
                        &&& b.chord@ == chord_text(all@[j].0.mods@, all@[j].0.key)
                        &&& b.action == *all@[j].1
                    },
            decreases all.len() - i,
        {
            let (chord, action) = all[i];
            let bits = chord.mods.bits();
            proof {
                crate::chord::lemma_chord_text_round_trip(bits, chord.key);
            }
            bindings.push(WrittenBinding { chord: chord.to_string(), action: action.clone() });
            i = i + 1;
        }
        proof {
            assert forall|p: (u8, Key)| #[trigger] self.bindings@.contains_key(p) implies exists|
                i: int,
            | 0 <= i < bindings@.len() && written_pair(bindings@[i]) == p by {
                let i = choose|i: int| 0 <= i < all@.len() && chord_pair(all@[i].0) == p;
                assert(written_pair(bindings@[i]) == p);
            }
            assert forall|i: int, j: int|
                0 <= i < j < bindings@.len() implies rank(written_pair(#[trigger] bindings@[i]))
                < rank(written_pair(#[trigger] bindings@[j])) by {
                assert(written_pair(bindings@[i]) == chord_pair(all@[i].0));
                assert(written_pair(bindings@[j]) == chord_pair(all@[j].0));
            }
        }
        Written {
            hyper_key: self.hyper.to_string(),
            tap: self.tap.to_string(),
            autostart: self.autostart,
            bindings,
        }
    }
}

/// A file the TOML reader could not make sense of: the reader's own message,
/// and the line of the byte it pointed at, if it pointed at one.
pub fn syntax_error(text: &str, message: String, offset: Option<usize>) -> (e: ConfigError)
    requires
        offset matches Some(o) ==> cuttable(text, o),
    ensures
        e.message == message,
        e.line == (match offset {
            Some(o) => Some(line_number(text.spec_bytes(), o as int) as usize),
            None => None,
        }),
{
    ConfigError {
        message,
        line: match offset {
            Some(o) => Some(line_of(text, o)),
            None => None,
        },
    }
}

/// Whether a row is a usable Binding on the Chord `pair`.
pub open spec fn binds(row: RawBinding, pair: (u8, Key)) -> bool {
    chord_named(row.chord@) == Some(pair) && row.action is Ok && action_usable(row.action->Ok_0)
}

proof fn lemma_absorb_concat(
    table: Map<(u8, Key), Action>,
    warnings: Seq<WarningView>,
    a: Seq<RawBinding>,
    b: Seq<RawBinding>,
)
    ensures
        absorb(table, warnings, a + b) == ({
            let (t, w) = absorb(table, warnings, a);
            absorb(t, w, b)
        }),
    decreases b.len(),
{
    if b.len() == 0 {
        assert(a + b =~= a);
    } else {
        lemma_absorb_concat(table, warnings, a, b.drop_last());
        assert((a + b).drop_last() =~= a + b.drop_last());
    }
}

proof fn lemma_absorb_keeps(
    table: Map<(u8, Key), Action>,
    warnings: Seq<WarningView>,
    rows: Seq<RawBinding>,
    pair: (u8, Key),
)
    requires
        table.contains_key(pair),
    ensures
        absorb(table, warnings, rows).0.contains_key(pair),
        absorb(table, warnings, rows).0[pair] == table[pair],
        warnings.is_prefix_of(absorb(table, warnings, rows).1),
    decreases rows.len(),
{
    if rows.len() > 0 {
        lemma_absorb_keeps(table, warnings, rows.drop_last(), pair);
    }
}

proof fn lemma_absorb_grows_warnings(
    table: Map<(u8, Key), Action>,
    warnings: Seq<WarningView>,
    rows: Seq<RawBinding>,
)
    ensures
        warnings.is_prefix_of(absorb(table, warnings, rows).1),
    decreases rows.len(),
{
    if rows.len() > 0 {
        lemma_absorb_grows_warnings(table, warnings, rows.drop_last());
    }
}

proof fn lemma_absorb_leaves_unbound(
    table: Map<(u8, Key), Action>,
    warnings: Seq<WarningView>,
    rows: Seq<RawBinding>,
    pair: (u8, Key),
)
    requires
        !table.contains_key(pair),
        forall|j: int| 0 <= j < rows.len() ==> !binds(#[trigger] rows[j], pair),
    ensures
        !absorb(table, warnings, rows).0.contains_key(pair),
    decreases rows.len(),
{
    if rows.len() > 0 {
        lemma_absorb_leaves_unbound(table, warnings, rows.drop_last(), pair);
        assert(!binds(rows[rows.len() - 1], pair));
    }
}

/// The first Binding on a Chord wins and later ones are reported, never
/// silently applied: of the rows that bind a Chord usably, the first is the
/// one loaded, and every later one leaves a duplicate warning naming it.
pub proof fn lemma_first_binding_wins(rows: Seq<RawBinding>, i: int, pair: (u8, Key))
    requires
        0 <= i < rows.len(),
        binds(rows[i], pair),
        forall|j: int| 0 <= j < i ==> !binds(#[trigger] rows[j], pair),
    ensures
        absorb(Map::empty(), Seq::empty(), rows).0.contains_key(pair),
        absorb(Map::empty(), Seq::empty(), rows).0[pair] == rows[i].action->Ok_0,
        forall|j: int|
            i < j < rows.len() && #[trigger] binds(rows[j], pair) ==> absorb(
                Map::empty(),
                Seq::empty(),
                rows,
            ).1.contains(WarningView::DuplicateChord(rows[j].chord@)),
{
    let empty_t = Map::<(u8, Key), Action>::empty();
    let empty_w = Seq::<WarningView>::empty();
    let before = rows.take(i);
    let upto = rows.take(i + 1);
    let after = rows.subrange(i + 1, rows.len() as int);
    lemma_absorb_leaves_unbound(empty_t, empty_w, before, pair);
    assert(upto.drop_last() =~= before);
    let (t1, w1) = absorb(empty_t, empty_w, upto);
    assert(t1.contains_key(pair) && t1[pair] == rows[i].action->Ok_0);
    assert(rows =~= upto + after);
    lemma_absorb_concat(empty_t, empty_w, upto, after);
    lemma_absorb_keeps(t1, w1, after, pair);
    assert forall|j: int|
        i < j < rows.len() && #[trigger] binds(rows[j], pair) implies absorb(
            empty_t,
            empty_w,
            rows,
        ).1.contains(WarningView::DuplicateChord(rows[j].chord@)) by {
        let head = rows.take(j);
        let through = rows.take(j + 1);
        let tail = rows.subrange(j + 1, rows.len() as int);
        assert(head =~= upto + rows.subrange(i + 1, j));
        lemma_absorb_concat(empty_t, empty_w, upto, rows.subrange(i + 1, j));
        lemma_absorb_keeps(t1, w1, rows.subrange(i + 1, j), pair);
        let (th, wh) = absorb(empty_t, empty_w, head);
        assert(through.drop_last() =~= head);
        let (tt, wt) = absorb(empty_t, empty_w, through);
        assert(wt == wh.push(WarningView::DuplicateChord(rows[j].chord@)));
        assert(rows =~= through + tail);
        lemma_absorb_concat(empty_t, empty_w, through, tail);
        lemma_absorb_grows_warnings(tt, wt, tail);
        let fin = absorb(empty_t, empty_w, rows).1;
        assert(fin[wt.len() - 1] == wt[wt.len() - 1]);
    }
}

} // verus!
