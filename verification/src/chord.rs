//! Chords: Hyper, plus zero or more ordinary modifiers, plus exactly one key.
//!
//! Chords are read case- and order-insensitively (`ctrl+shift+c`,
//! ` Shift + Ctrl + C `) but only ever written one way: modifiers in a fixed
//! order, then the key.

use vstd::prelude::*;

use crate::keys::{key_name, key_named, Key};
use crate::text::{
    chars_of, eq_ignore_case, first_solid, is_space_char, last_solid, lemma_first_solid_bounds,
    lemma_last_solid_bounds, same_ignoring_case, trim, is_space, fold_seq, lemma_trim_solid,
};
use vstd::string::*;

verus! {

/// Ordinary modifiers that may accompany Hyper in a Chord, one bit each.
///
/// Win is deliberately absent: unsuppressed it opens the Start menu, and
/// suppressing it would mean synthesising input.
#[derive(Debug, Clone, Copy, PartialEq, Eq, Structural, Hash, PartialOrd, Ord)]
pub struct Modifiers(u8);

impl View for Modifiers {
    type V = u8;

    closed spec fn view(&self) -> u8 {
        self.0
    }
}

/// The bit of Shift.
pub open spec fn shift_bit() -> u8 {
    1
}

/// The bit of Ctrl.
pub open spec fn ctrl_bit() -> u8 {
    2
}

/// The bit of Alt.
pub open spec fn alt_bit() -> u8 {
    4
}

/// A modifier set made only of the three bits above.
pub open spec fn valid_bits(bits: u8) -> bool {
    bits < 8
}

/// The bit a modifier name stands for, ignoring ASCII case.
pub open spec fn modifier_named(s: Seq<char>) -> Option<u8> {
    if same_ignoring_case(s, seq!['s', 'h', 'i', 'f', 't']) {
        Some(shift_bit())
    } else if same_ignoring_case(s, seq!['c', 't', 'r', 'l']) {
        Some(ctrl_bit())
    } else if same_ignoring_case(s, seq!['a', 'l', 't']) {
        Some(alt_bit())
    } else {
        None
    }
}

/// The modifier bit a key contributes to a Chord, if it is a modifier.
pub open spec fn key_modifier(k: Key) -> Option<u8> {
    match k {
        Key::Shift => Some(shift_bit()),
        Key::Ctrl => Some(ctrl_bit()),
        Key::Alt => Some(alt_bit()),
        _ => None,
    }
}

impl Modifiers {
    /// Only the three bits of Shift, Ctrl and Alt are ever set.
    #[verifier::type_invariant]
    closed spec fn only_known_bits(self) -> bool {
        valid_bits(self.0)
    }

    /// No modifier at all.
    pub fn none() -> (m: Self)
        ensures
            m@ == 0,
    {
        Self(0)
    }

    pub fn shift() -> (m: Self)
        ensures
            m@ == shift_bit(),
    {
        Self(1)
    }

    pub fn ctrl() -> (m: Self)
        ensures
            m@ == ctrl_bit(),
    {
        Self(2)
    }

    pub fn alt() -> (m: Self)
        ensures
            m@ == alt_bit(),
    {
        Self(4)
    }

    /// The bits of the set.
    pub fn bits(self) -> (b: u8)
        ensures
            b == self@,
            valid_bits(b),
    {
        proof {
            use_type_invariant(self);
        }
        self.0
    }

    /// Both sets at once.
    pub fn union(self, other: Self) -> (r: Self)
        ensures
            r@ == self@ | other@,
    {
        proof {
            use_type_invariant(self);
            use_type_invariant(other);
            lemma_bits_union(self.0, other.0);
        }
        Self(self.0 | other.0)
    }

    pub fn insert(&mut self, other: Self)
        ensures
            final(self)@ == old(self)@ | other@,
    {
        *self = self.union(other);
    }

    pub fn remove(&mut self, other: Self)
        ensures
            final(self)@ == old(self)@ & !other@,
    {
        proof {
            use_type_invariant(&*self);
            lemma_bits_remove(self.0, other.0);
        }
        *self = Self(self.0 & !other.0);
    }


    pub fn contains(self, other: Self) -> (r: bool)
        ensures
            r == (self@ & other@ == other@),
    {
        self.0 & other.0 == other.0
    }

    /// Reads one modifier name, ignoring ASCII case.
    pub fn parse(name: &str) -> (m: Option<Modifiers>)
        ensures
            m.is_some() == modifier_named(name@).is_some(),
            m matches Some(m) ==> m@ == modifier_named(name@).unwrap(),
    {
        let chars = chars_of(name);
        Self::parse_chars(chars.as_slice())
    }

    fn parse_chars(name: &[char]) -> (m: Option<Modifiers>)
        ensures
            m.is_some() == modifier_named(name@).is_some(),
            m matches Some(m) ==> m@ == modifier_named(name@).unwrap(),
    {
        let shift = ['s', 'h', 'i', 'f', 't'];
        let ctrl = ['c', 't', 'r', 'l'];
        let alt = ['a', 'l', 't'];
        assert(shift@ =~= seq!['s', 'h', 'i', 'f', 't']);
        assert(ctrl@ =~= seq!['c', 't', 'r', 'l']);
        assert(alt@ =~= seq!['a', 'l', 't']);
        if eq_ignore_case(name, &shift) {
            Some(Modifiers::shift())
        } else if eq_ignore_case(name, &ctrl) {
            Some(Modifiers::ctrl())
        } else if eq_ignore_case(name, &alt) {
            Some(Modifiers::alt())
        } else {
            None
        }
    }
}

proof fn lemma_bits_union(a: u8, b: u8)
    requires
        valid_bits(a),
        valid_bits(b),
    ensures
        valid_bits(a | b),
{
    assert(a < 8u8 && b < 8u8 ==> (a | b) < 8u8) by (bit_vector);
}

proof fn lemma_bits_remove(a: u8, b: u8)
    requires
        valid_bits(a),
    ensures
        valid_bits(a & !b),
{
    assert(a < 8u8 ==> (a & !b) < 8u8) by (bit_vector);
}

/// Two modifier sets are the same set exactly when their bits are.
pub proof fn lemma_modifiers_eq(a: Modifiers, b: Modifiers)
    ensures
        (a@ == b@) == (a == b),
{
}

impl Key {
    /// The Modifiers bit this key contributes to a Chord, if it is a modifier.
    ///
    /// Left and right variants are not distinguished: a Chord is written
    /// `Shift+C`, never `LeftShift+C`, so the Shell normalises both sides to
    /// the same key.
    pub fn as_modifier(self) -> (m: Option<Modifiers>)
        ensures
            m.is_some() == key_modifier(self).is_some(),
            m matches Some(m) ==> m@ == key_modifier(self).unwrap(),
    {
        match self {
            Key::Shift => Some(Modifiers::shift()),
            Key::Ctrl => Some(Modifiers::ctrl()),
            Key::Alt => Some(Modifiers::alt()),
            _ => None,
        }
    }
}

/// Hyper, plus zero or more ordinary modifiers, plus exactly one key.
///
/// Hyper is implicit: every Chord begins with it.
#[derive(Debug, Clone, Copy, PartialEq, Eq, Structural, Hash, PartialOrd, Ord)]
pub struct Chord {
    pub mods: Modifiers,
    pub key: Key,
}

impl Chord {
    /// The key alone, with no modifiers.
    pub fn key(key: Key) -> (c: Self)
        ensures
            c.key == key,
            c.mods@ == 0,
    {
        Self { mods: Modifiers::none(), key }
    }

    /// The same key under these modifiers instead.
    pub fn with(self, mods: Modifiers) -> (c: Self)
        ensures
            c == (Chord { mods, key: self.key }),
    {
        Self { mods, ..self }
    }
}

/// Where the last `+` below `end` is, or -1 if there is none.
pub open spec fn last_plus_from(s: Seq<char>, end: int) -> int
    decreases end,
{
    if end <= 0 {
        -1
    } else if s[end - 1] == '+' {
        end - 1
    } else {
        last_plus_from(s, end - 1)
    }
}

/// Where the last `+` of a text is, or -1 if it has none.
pub open spec fn last_plus(s: Seq<char>) -> int {
    last_plus_from(s, s.len() as int)
}

/// The pieces of a text between `+` signs, in order, as `str::split('+')`
/// yields them.
pub open spec fn pieces(s: Seq<char>) -> Seq<Seq<char>>
    decreases s.len(),
{
    let p = last_plus(s);
    if 0 <= p < s.len() {
        pieces(s.take(p)).push(s.skip(p + 1))
    } else {
        seq![s]
    }
}

/// The modifier bits named by every piece, or `None` if one of them names
/// none.
pub open spec fn modifiers_named(parts: Seq<Seq<char>>) -> Option<u8>
    decreases parts.len(),
{
    if parts.len() == 0 {
        Some(0u8)
    } else {
        match (modifiers_named(parts.drop_last()), modifier_named(trim(parts.last()))) {
            (Some(rest), Some(bit)) => Some(rest | bit),
            _ => None,
        }
    }
}

/// What a Chord written as `s` means: the last piece is the key, every
/// earlier piece a modifier, each trimmed and read ignoring ASCII case.
pub open spec fn chord_named(s: Seq<char>) -> Option<(u8, Key)> {
    let parts = pieces(s);
    match (key_named(trim(parts.last())), modifiers_named(parts.drop_last())) {
        (Some(key), Some(mods)) => Some((mods, key)),
        _ => None,
    }
}

/// The canonical spelling of a Chord: modifiers in a fixed order, then the
/// key.
pub open spec fn chord_text(mods: u8, key: Key) -> Seq<char> {
    (if mods & ctrl_bit() == ctrl_bit() {
        seq!['C', 't', 'r', 'l', '+']
    } else {
        Seq::empty()
    }) + (if mods & alt_bit() == alt_bit() {
        seq!['A', 'l', 't', '+']
    } else {
        Seq::empty()
    }) + (if mods & shift_bit() == shift_bit() {
        seq!['S', 'h', 'i', 'f', 't', '+']
    } else {
        Seq::empty()
    }) + key_name(key)
}

proof fn lemma_last_plus_from(s: Seq<char>, end: int)
    requires
        0 <= end <= s.len(),
    ensures
        -1 <= last_plus_from(s, end) < end,
        last_plus_from(s, end) >= 0 ==> s[last_plus_from(s, end)] == '+',
        forall|j: int| last_plus_from(s, end) < j < end ==> s[j] != '+',
    decreases end,
{
    if end > 0 && s[end - 1] != '+' {
        lemma_last_plus_from(s, end - 1);
    }
}

/// Looking for the last `+` only looks below where it starts.
proof fn lemma_last_plus_prefix(s: Seq<char>, end: int, k: int)
    requires
        0 <= k <= end <= s.len(),
    ensures
        last_plus_from(s.take(end), k) == last_plus_from(s, k),
    decreases k,
{
    if k > 0 {
        lemma_last_plus_prefix(s, end, k - 1);
    }
}

/// Finds the last `+` below `end`, as `last_plus_from` says.
fn find_last_plus(s: &[char], end: usize) -> (r: Option<usize>)
    requires
        end <= s@.len(),
    ensures
        r is None ==> last_plus_from(s@, end as int) == -1,
        r matches Some(p) ==> last_plus_from(s@, end as int) == p && p < end,
{
    let mut i = end;
    while i > 0
        invariant
            i <= end <= s@.len(),
            last_plus_from(s@, end as int) == last_plus_from(s@, i as int),
        decreases i,
    {
        if s[i - 1] == '+' {
            return Some(i - 1);
        }
        i = i - 1;
    }
    None
}

/// The characters of `s` from `from` up to `to`.
pub fn slice_chars(s: &[char], from: usize, to: usize) -> (r: Vec<char>)
    requires
        from <= to <= s@.len(),
    ensures
        r@ == s@.subrange(from as int, to as int),
{
    let mut r: Vec<char> = Vec::new();
    let mut i = from;
    while i < to
        invariant
            from <= i <= to <= s@.len(),
            r@ == s@.subrange(from as int, i as int),
        decreases to - i,
    {
        r.push(s[i]);
        i = i + 1;
    }
    r
}

/// The characters with leading and trailing whitespace removed.
pub fn trim_chars(s: &[char]) -> (r: Vec<char>)
    ensures
        r@ == trim(s@),
{
    proof {
        lemma_first_solid_bounds(s@, 0);
        lemma_last_solid_bounds(s@, s@.len() as int);
    }
    let mut start: usize = 0;
    while start < s.len() && is_space_char(s[start])
        invariant
            start <= s@.len(),
            first_solid(s@, 0) == first_solid(s@, start as int),
        decreases s.len() - start,
    {
        start = start + 1;
    }
    if start >= s.len() {
        return Vec::new();
    }
    let mut end: usize = s.len();
    while end > 0 && is_space_char(s[end - 1])
        invariant
            end <= s@.len(),
            last_solid(s@, s@.len() as int) == last_solid(s@, end as int),
        decreases end,
    {
        end = end - 1;
    }
    proof {
        lemma_first_solid_bounds(s@, start as int);
        lemma_last_solid_bounds(s@, end as int);
    }
    slice_chars(s, start, end)
}

/// The modifiers named by the pieces of `s` below `end`.
fn modifiers_in(s: &[char], end: usize) -> (r: Option<Modifiers>)
    requires
        end <= s@.len(),
    ensures
        r.is_some() == modifiers_named(pieces(s@.take(end as int))).is_some(),
        r matches Some(m) ==> m@ == modifiers_named(pieces(s@.take(end as int))).unwrap(),
    decreases end,
{
    let ghost t = s@.take(end as int);
    proof {
        lemma_last_plus_prefix(s@, end as int, end as int);
        lemma_last_plus_from(s@, end as int);
        assert(last_plus(t) == last_plus_from(s@, end as int));
    }
    match find_last_plus(s, end) {
        None => {
            let piece = trim_chars(slice_chars(s, 0, end).as_slice());
            assert(pieces(t) == seq![t]);
            assert(seq![t].drop_last() =~= Seq::<Seq<char>>::empty());
            assert(t =~= s@.subrange(0, end as int));
            assert(modifiers_named(seq![t].drop_last()) == Some(0u8));
            match Modifiers::parse_chars(piece.as_slice()) {
                Some(m) => {
                    assert(0u8 | m@ == m@) by (bit_vector);
                    Some(m)
                },
                None => None,
            }
        },
        Some(p) => {
            assert(t.take(p as int) =~= s@.take(p as int));
            assert(t.skip(p + 1) =~= s@.subrange(p + 1, end as int));
            assert(pieces(t) == pieces(s@.take(p as int)).push(s@.subrange(p + 1, end as int)));
            assert(pieces(t).drop_last() =~= pieces(s@.take(p as int)));
            let rest = modifiers_in(s, p);
            let piece = trim_chars(slice_chars(s, p + 1, end).as_slice());
            match (rest, Modifiers::parse_chars(piece.as_slice())) {
                (Some(rest), Some(bit)) => Some(rest.union(bit)),
                _ => None,
            }
        },
    }
}

impl Chord {
    /// Reads a Chord: `Shift+Ctrl+C`, `ctrl+shift+c` and ` Ctrl + Shift + C `
    /// are the same Chord.
    pub fn parse(text: &str) -> (c: Option<Chord>)
        ensures
            c.is_some() == chord_named(text@).is_some(),
            c matches Some(c) ==> chord_named(text@) == Some((c.mods@, c.key)),
    {
        let chars = chars_of(text);
        Self::parse_chars(chars.as_slice())
    }

    /// Reads a Chord given as characters.
    pub fn parse_chars(s: &[char]) -> (c: Option<Chord>)
        ensures
            c.is_some() == chord_named(s@).is_some(),
            c matches Some(c) ==> chord_named(s@) == Some((c.mods@, c.key)),
    {
        proof {
            lemma_last_plus_from(s@, s@.len() as int);
            assert(s@.take(s@.len() as int) =~= s@);
        }
        let (key_part, mods) = match find_last_plus(s, s.len()) {
            None => {
                assert(pieces(s@) == seq![s@]);
                assert(seq![s@].drop_last() =~= Seq::<Seq<char>>::empty());
                (trim_chars(s), Some(Modifiers::none()))
            },
            Some(p) => {
                assert(s@.skip(p + 1) =~= s@.subrange(p + 1, s@.len() as int));
                assert(pieces(s@).drop_last() =~= pieces(s@.take(p as int)));
                (trim_chars(slice_chars(s, p + 1, s.len()).as_slice()), modifiers_in(s, p))
            },
        };
        match (Key::parse_chars(key_part.as_slice()), mods) {
            (Some(key), Some(mods)) => Some(Chord { mods, key }),
            _ => None,
        }
    }

    /// The canonical spelling: `Ctrl+Alt+Shift+` as held, then the key.
    pub fn to_string(self) -> (s: String)
        ensures
            s@ == chord_text(self.mods@, self.key),
    {
        let mut s = String::new();
        if self.mods.contains(Modifiers::ctrl()) {
            s.append("Ctrl+");
            proof {
                reveal_strlit("Ctrl+");
            }
        }
        let ghost after_ctrl = s@;
        if self.mods.contains(Modifiers::alt()) {
            s.append("Alt+");
            proof {
                reveal_strlit("Alt+");
            }
        }
        let ghost after_alt = s@;
        if self.mods.contains(Modifiers::shift()) {
            s.append("Shift+");
            proof {
                reveal_strlit("Shift+");
            }
        }
        s.append(self.key.name());
        assert(s@ =~= chord_text(self.mods@, self.key));
        s
    }
}

/// Whether a text holds no `+`.
pub open spec fn no_plus(s: Seq<char>) -> bool {
    forall|i: int| 0 <= i < s.len() ==> s[i] != '+'
}

/// Names, each followed by a `+`, one after the other.
pub open spec fn joined(names: Seq<Seq<char>>) -> Seq<char>
    decreases names.len(),
{
    if names.len() == 0 {
        Seq::empty()
    } else {
        joined(names.drop_last()) + names.last() + seq!['+']
    }
}

/// The names of the modifiers in a set, in the order they are written.
pub open spec fn modifier_names(mods: u8) -> Seq<Seq<char>> {
    (if mods & ctrl_bit() == ctrl_bit() {
        seq![seq!['C', 't', 'r', 'l']]
    } else {
        Seq::empty()
    }) + (if mods & alt_bit() == alt_bit() {
        seq![seq!['A', 'l', 't']]
    } else {
        Seq::empty()
    }) + (if mods & shift_bit() == shift_bit() {
        seq![seq!['S', 'h', 'i', 'f', 't']]
    } else {
        Seq::empty()
    })
}

proof fn lemma_last_plus_after(a: Seq<char>, n: Seq<char>, j: int)
    requires
        no_plus(n),
        0 <= j <= n.len(),
    ensures
        last_plus_from(a + n, a.len() + j) == last_plus_from(a + n, a.len() as int),
    decreases j,
{
    if j > 0 {
        assert((a + n)[a.len() + j - 1] == n[j - 1]);
        lemma_last_plus_after(a, n, j - 1);
    }
}

proof fn lemma_pieces_single(n: Seq<char>)
    requires
        no_plus(n),
    ensures
        pieces(n) == seq![n],
{
    lemma_last_plus_after(Seq::empty(), n, n.len() as int);
    assert(Seq::<char>::empty() + n =~= n);
}

proof fn lemma_pieces_append(b: Seq<char>, n: Seq<char>)
    requires
        no_plus(n),
    ensures
        pieces(b + seq!['+'] + n) == pieces(b).push(n),
{
    let a = b + seq!['+'];
    let t = a + n;
    lemma_last_plus_after(a, n, n.len() as int);
    assert(t[a.len() - 1] == '+');
    assert(last_plus(t) == b.len());
    assert(t.take(b.len() as int) =~= b);
    assert(t.skip(b.len() + 1int) =~= n);
}

proof fn lemma_pieces_joined(names: Seq<Seq<char>>, n: Seq<char>)
    requires
        forall|i: int| 0 <= i < names.len() ==> no_plus(#[trigger] names[i]),
        no_plus(n),
    ensures
        pieces(joined(names) + n) == names.push(n),
    decreases names.len(),
{
    if names.len() == 0 {
        assert(joined(names) + n =~= n);
        lemma_pieces_single(n);
        assert(names.push(n) =~= seq![n]);
    } else {
        let rest = names.drop_last();
        let last = names.last();
        assert(no_plus(names[names.len() - 1]));
        lemma_pieces_joined(rest, last);
        assert(joined(names) + n =~= (joined(rest) + last) + seq!['+'] + n);
        lemma_pieces_append(joined(rest) + last, n);
        assert(rest.push(last) =~= names);
    }
}

proof fn lemma_key_name_solid(k: Key)
    ensures
        no_plus(key_name(k)),
        key_name(k).len() > 0,
        !is_space(key_name(k)[0]),
        !is_space(key_name(k)[key_name(k).len() - 1]),
{
}

proof fn lemma_modifiers_named_push(parts: Seq<Seq<char>>, x: Seq<char>)
    ensures
        modifiers_named(parts.push(x)) == (match (
            modifiers_named(parts),
            modifier_named(trim(x)),
        ) {
            (Some(rest), Some(bit)) => Some(rest | bit),
            _ => None,
        }),
{
    assert(parts.push(x).drop_last() =~= parts);
}

proof fn lemma_modifier_words()
    ensures
        modifier_named(trim(seq!['C', 't', 'r', 'l'])) == Some(ctrl_bit()),
        modifier_named(trim(seq!['A', 'l', 't'])) == Some(alt_bit()),
        modifier_named(trim(seq!['S', 'h', 'i', 'f', 't'])) == Some(shift_bit()),
{
    let ctrl = seq!['C', 't', 'r', 'l'];
    let alt = seq!['A', 'l', 't'];
    let shift = seq!['S', 'h', 'i', 'f', 't'];
    lemma_trim_solid(ctrl);
    lemma_trim_solid(alt);
    lemma_trim_solid(shift);
    assert(fold_seq(ctrl) =~= fold_seq(seq!['c', 't', 'r', 'l']));
    assert(fold_seq(alt) =~= fold_seq(seq!['a', 'l', 't']));
    assert(fold_seq(shift) =~= fold_seq(seq!['s', 'h', 'i', 'f', 't']));
    assert(fold_seq(ctrl).len() != fold_seq(seq!['s', 'h', 'i', 'f', 't']).len());
    assert(fold_seq(alt).len() != fold_seq(seq!['s', 'h', 'i', 'f', 't']).len());
    assert(fold_seq(alt).len() != fold_seq(seq!['c', 't', 'r', 'l']).len());
}

/// The names a valid modifier set is written with read back as that set.
proof fn lemma_modifier_names_read_back(mods: u8)
    requires
        valid_bits(mods),
    ensures
        modifiers_named(modifier_names(mods)) == Some(mods),
{
    let ctrl = seq!['C', 't', 'r', 'l'];
    let alt = seq!['A', 'l', 't'];
    let shift = seq!['S', 'h', 'i', 'f', 't'];
    let e = Seq::<Seq<char>>::empty();
    lemma_modifier_words();
    let c = mods & ctrl_bit() == ctrl_bit();
    let a = mods & alt_bit() == alt_bit();
    let s = mods & shift_bit() == shift_bit();
    let names = modifier_names(mods);
    let after_c = if c { e.push(ctrl) } else { e };
    let after_a = if a { after_c.push(alt) } else { after_c };
    let after_s = if s { after_a.push(shift) } else { after_a };
    assert(names =~= after_s);
    let vc: u8 = if c { 2u8 } else { 0u8 };
    let va: u8 = if a { vc | 4u8 } else { vc };
    let vs: u8 = if s { va | 1u8 } else { va };
    assert(modifiers_named(e) == Some(0u8));
    lemma_modifiers_named_push(e, ctrl);
    assert(0u8 | 2u8 == 2u8) by (bit_vector);
    assert(modifiers_named(after_c) == Some(vc));
    lemma_modifiers_named_push(after_c, alt);
    assert(modifiers_named(after_a) == Some(va));
    lemma_modifiers_named_push(after_a, shift);
    assert(modifiers_named(after_s) == Some(vs));
    assert(vs == mods) by (bit_vector)
        requires
            mods < 8u8,
            c == (mods & 2u8 == 2u8),
            a == (mods & 4u8 == 4u8),
            s == (mods & 1u8 == 1u8),
            vc == (if c { 2u8 } else { 0u8 }),
            va == (if a { vc | 4u8 } else { vc }),
            vs == (if s { va | 1u8 } else { va }),
    ;
}

/// The canonical spelling is the modifier names, each with its `+`, then the
/// key's name.
proof fn lemma_chord_text_joined(mods: u8, key: Key)
    ensures
        chord_text(mods, key) == joined(modifier_names(mods)) + key_name(key),
{
    let ctrl = seq!['C', 't', 'r', 'l'];
    let alt = seq!['A', 'l', 't'];
    let shift = seq!['S', 'h', 'i', 'f', 't'];
    let e = Seq::<Seq<char>>::empty();
    let c = mods & ctrl_bit() == ctrl_bit();
    let a = mods & alt_bit() == alt_bit();
    let s = mods & shift_bit() == shift_bit();
    let after_c = if c { e.push(ctrl) } else { e };
    let after_a = if a { after_c.push(alt) } else { after_c };
    let after_s = if s { after_a.push(shift) } else { after_a };
    assert(modifier_names(mods) =~= after_s);
    assert(joined(e) =~= Seq::<char>::empty());
    assert(after_c.push(alt).drop_last() =~= after_c);
    assert(after_a.push(shift).drop_last() =~= after_a);
    assert(e.push(ctrl).drop_last() =~= e);
    let tc = if c { seq!['C', 't', 'r', 'l', '+'] } else { Seq::<char>::empty() };
    let ta = if a { seq!['A', 'l', 't', '+'] } else { Seq::<char>::empty() };
    let ts = if s { seq!['S', 'h', 'i', 'f', 't', '+'] } else { Seq::<char>::empty() };
    assert(joined(after_c) =~= tc);
    assert(joined(after_a) =~= tc + ta);
    assert(joined(after_s) =~= tc + ta + ts);
    assert(chord_text(mods, key) =~= tc + ta + ts + key_name(key));
}

/// The canonical spelling of a valid Chord reads back as that same Chord.
pub proof fn lemma_chord_text_round_trip(mods: u8, key: Key)
    requires
        valid_bits(mods),
    ensures
        chord_named(chord_text(mods, key)) == Some((mods, key)),
{
    let names = modifier_names(mods);
    let n = key_name(key);
    lemma_key_name_solid(key);
    lemma_chord_text_joined(mods, key);
    assert forall|i: int| 0 <= i < names.len() implies no_plus(#[trigger] names[i]) by {
        assert(names[i] == seq!['C', 't', 'r', 'l'] || names[i] == seq!['A', 'l', 't']
            || names[i] == seq!['S', 'h', 'i', 'f', 't']);
    }
    lemma_pieces_joined(names, n);
    let parts = names.push(n);
    assert(parts.drop_last() =~= names);
    lemma_trim_solid(n);
    crate::keys::lemma_key_name_round_trip(key);
    lemma_modifier_names_read_back(mods);
}

/// Whatever a Chord's text names, its modifiers are only Shift, Ctrl and Alt.
pub proof fn lemma_named_chord_valid(s: Seq<char>)
    ensures
        chord_named(s) matches Some(c) ==> valid_bits(c.0),
{
    lemma_modifiers_named_valid(pieces(s).drop_last());
}

proof fn lemma_modifiers_named_valid(parts: Seq<Seq<char>>)
    ensures
        modifiers_named(parts) matches Some(m) ==> valid_bits(m),
    decreases parts.len(),
{
    if parts.len() > 0 {
        lemma_modifiers_named_valid(parts.drop_last());
        if let (Some(rest), Some(bit)) = (
            modifiers_named(parts.drop_last()),
            modifier_named(trim(parts.last())),
        ) {
            assert(rest < 8u8 && (bit == 1u8 || bit == 2u8 || bit == 4u8) ==> (rest | bit) < 8u8)
                by (bit_vector);
        }
    }
}

impl std::str::FromStr for Modifiers {
    type Err = ();

    /// Reads a modifier's name, ignoring ASCII case.
    fn from_str(name: &str) -> (r: Result<Modifiers, ()>)
        ensures
            match modifier_named(name@) {
                Some(bits) => r matches Ok(mods) && mods@ == bits,
                None => r == Err::<Modifiers, ()>(()),
            },
    {
        match Modifiers::parse(name) {
            Some(mods) => Ok(mods),
            None => Err(()),
        }
    }
}

impl std::str::FromStr for Chord {
    type Err = ();

    /// Reads a Chord as a config file writes it.
    fn from_str(text: &str) -> (r: Result<Chord, ()>)
        ensures
            match chord_named(text@) {
                Some((bits, key)) => r matches Ok(chord) && chord.mods@ == bits && chord.key
                    == key,
                None => r == Err::<Chord, ()>(()),
            },
    {
        match Chord::parse(text) {
            Some(chord) => Ok(chord),
            None => Err(()),
        }
    }
}

} // verus!
