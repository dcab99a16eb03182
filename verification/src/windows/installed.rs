//! The list of installed applications the settings window offers.
//!
//! The list comes from `AppsFolder`, the shell's own virtual folder of every
//! installed application, which is deliberately the same place an App Action
//! launches from: an identity picked here is one Footman can certainly start.

use vstd::prelude::*;

use crate::chord::slice_chars;
use crate::text::{
    chars_of, concat, contains_text, lowercased, string_from, text_contains, to_lowercase,
};

verus! {

/// How the shell names an entry in its list of installed applications.
///
/// The two shapes want opposite treatment. A packaged application's parsing
/// name is its AUMID and can be bound as it stands. A classic application's is
/// a path relative to one of Windows' known folders, which the shell can
/// launch but which matches no window: a running copy resolves to its
/// executable path, not to that.
#[derive(Debug, Clone, PartialEq, Eq)]
pub enum Entry {
    Aumid(String),
    UnderFolder { folder: String, relative: String },
}

/// An Entry as values.
pub enum EntryView {
    Aumid(Seq<char>),
    UnderFolder(Seq<char>, Seq<char>),
}

impl View for Entry {
    type V = EntryView;

    open spec fn view(&self) -> EntryView {
        match self {
            Entry::Aumid(aumid) => EntryView::Aumid(aumid@),
            Entry::UnderFolder { folder, relative } => EntryView::UnderFolder(folder@, relative@),
        }
    }
}

/// Where, from `i` on, `s` first holds `}` followed by `\`.
pub open spec fn close_from(s: Seq<char>, i: int) -> Option<int>
    decreases s.len() - i,
{
    if i < 0 || i + 1 >= s.len() {
        None
    } else if s[i] == '}' && s[i + 1] == '\\' {
        Some(i)
    } else {
        close_from(s, i + 1)
    }
}

/// The shape of a parsing name: `{folder}\relative` with something after the
/// backslash is a path under a known folder, and anything else, including
/// what only looks like one, is an AUMID: the reading that still launches.
pub open spec fn entry_read(name: Seq<char>) -> EntryView {
    if name.len() > 0 && name[0] == '{' {
        match close_from(name, 1) {
            Some(j) => if j + 2 < name.len() {
                EntryView::UnderFolder(name.subrange(0, j + 1), name.subrange(j + 2, name.len() as int))
            } else {
                EntryView::Aumid(name)
            },
            None => EntryView::Aumid(name),
        }
    } else {
        EntryView::Aumid(name)
    }
}

/// Reads the shape of a parsing name.
pub fn entry_of(parsing_name: &str) -> (entry: Entry)
    ensures
        entry@ == entry_read(parsing_name@),
{
    let name = chars_of(parsing_name);
    let n = name.len();
    if n == 0 || name[0] != '{' {
        return Entry::Aumid(string_from(&name));
    }
    let mut j: usize = 1;
    while j < n - 1
        invariant
            n == name@.len(),
            name@ == parsing_name@,
            n > 0,
            name@[0] == '{',
            1 <= j <= n,
            close_from(name@, 1) == close_from(name@, j as int),
        decreases n - j,
    {
        if name[j] == '}' && name[j + 1] == '\\' {
            assert(close_from(name@, j as int) == Some(j as int));
            if j + 2 < n {
                return Entry::UnderFolder {
                    folder: string_from(&slice_chars(&name, 0, j + 1)),
                    relative: string_from(&slice_chars(&name, j + 2, n)),
                };
            }
            return Entry::Aumid(string_from(&name));
        }
        j = j + 1;
    }
    Entry::Aumid(string_from(&name))
}

/// One entry: what the user sees, and what gets written into the config.
#[derive(Debug, Clone, PartialEq, Eq)]
pub struct Installed {
    pub name: String,
    /// An App Identity, already scheme-prefixed.
    pub identity: String,
}

/// The identity written into a config for an entry the shell named
/// `parsing_name`, given where its known folder turned out to be.
pub open spec fn identity_written(parsing_name: Seq<char>, folder_path: Option<Seq<char>>) -> Seq<
    char,
> {
    match entry_read(parsing_name) {
        EntryView::Aumid(aumid) => "aumid:"@ + aumid,
        EntryView::UnderFolder(_, relative) => match folder_path {
            Some(base) => "path:"@ + base + "\\"@ + relative,
            None => "aumid:"@ + parsing_name,
        },
    }
}

/// The identity to write into a config for an entry the shell named this way,
/// where `folder_path` is the path its known folder resolved to, if it did.
///
/// A classic application becomes a `path:` identity rather than the shell's
/// own spelling, because that is what a window of it will answer to. If the
/// known folder cannot be resolved, the shell's spelling is kept: it will
/// still launch, which is better than nothing to bind at all.
pub fn identity_of(parsing_name: &str, folder_path: Option<&str>) -> (identity: String)
    ensures
        identity@ == identity_written(
            parsing_name@,
            match folder_path {
                Some(p) => Some(p@),
                None => None,
            },
        ),
{
    match entry_of(parsing_name) {
        Entry::Aumid(aumid) => concat("aumid:", aumid.as_str()),
        Entry::UnderFolder { folder: _, relative } => match folder_path {
            Some(base) => {
                let mut identity = concat("path:", base);
                identity.append("\\");
                identity.append(relative.as_str());
                identity
            },
            None => concat("aumid:", parsing_name),
        },
    }
}

/// Whether `a` comes before `b` in the order of `str`, which compares UTF-8
/// bytes and so orders texts by code point, character by character, a text
/// coming before every longer text it begins.
pub open spec fn lex_less(a: Seq<char>, b: Seq<char>) -> bool
    decreases a.len(),
{
    if a.len() == 0 {
        b.len() > 0
    } else if b.len() == 0 {
        false
    } else if a[0] != b[0] {
        (a[0] as u32) < (b[0] as u32)
    } else {
        lex_less(a.drop_first(), b.drop_first())
    }
}

/// Whether `a` comes before `b` in the order of `str`.
fn comes_before(a: &[char], b: &[char]) -> (before: bool)
    ensures
        before == lex_less(a@, b@),
{
    let mut i: usize = 0;
    assert(a@.subrange(0, a@.len() as int) =~= a@);
    assert(b@.subrange(0, b@.len() as int) =~= b@);
    while i < a.len() && i < b.len()
        invariant
            i <= a@.len(),
            i <= b@.len(),
            a@.subrange(0, i as int) == b@.subrange(0, i as int),
            lex_less(a@, b@) == lex_less(a@.subrange(i as int, a@.len() as int), b@.subrange(i as int, b@.len() as int)),
        decreases a.len() - i,
    {
        let ghost (ra, rb) = (a@.subrange(i as int, a@.len() as int), b@.subrange(i as int, b@.len() as int));
        if a[i] != b[i] {
            assert(ra[0] == a@[i as int] && rb[0] == b@[i as int]);
            return (a[i] as u32) < (b[i] as u32);
        }
        assert(ra.drop_first() =~= a@.subrange(i + 1, a@.len() as int));
        assert(rb.drop_first() =~= b@.subrange(i + 1, b@.len() as int));
        assert(a@.subrange(0, i + 1) =~= a@.subrange(0, i as int).push(a@[i as int]));
        assert(b@.subrange(0, i + 1) =~= b@.subrange(0, i as int).push(b@[i as int]));
        i = i + 1;
    }
    i < b.len()
}

/// Where, from `i` on, the first keyed entry of `sorted` whose key comes after
/// `key` stands, or the end.
pub open spec fn first_after(sorted: Seq<(Seq<char>, Installed)>, key: Seq<char>, i: int) -> int
    decreases sorted.len() - i,
{
    if i < 0 || i >= sorted.len() {
        sorted.len() as int
    } else if lex_less(key, sorted[i].0) {
        i
    } else {
        first_after(sorted, key, i + 1)
    }
}

/// Keyed entries sorted by key, entries with equal keys in the order given:
/// each in turn placed after every entry before it whose key does not come
/// after its own.
pub open spec fn sorted_by_key(keyed: Seq<(Seq<char>, Installed)>) -> Seq<(Seq<char>, Installed)>
    decreases keyed.len(),
{
    if keyed.len() == 0 {
        keyed
    } else {
        let sorted = sorted_by_key(keyed.drop_last());
        sorted.insert(first_after(sorted, keyed.last().0, 0), keyed.last())
    }
}

/// A list with each entry dropped that has the identity of the entry kept just
/// before it.
pub open spec fn without_repeats(list: Seq<Installed>) -> Seq<Installed>
    decreases list.len(),
{
    if list.len() == 0 {
        list
    } else {
        let kept = without_repeats(list.drop_last());
        if kept.len() > 0 && kept.last().identity@ == list.last().identity@ {
            kept
        } else {
            kept.push(list.last())
        }
    }
}

/// The entries of keyed entries, keys dropped.
pub open spec fn entries(keyed: Seq<(Seq<char>, Installed)>) -> Seq<Installed> {
    keyed.map_values(|e: (Seq<char>, Installed)| e.1)
}

/// Keyed entries as values.
pub open spec fn keyed_view(keyed: Seq<(String, Installed)>) -> Seq<(Seq<char>, Installed)> {
    keyed.map_values(|e: (String, Installed)| (e.0@, e.1))
}

/// Applications keyed by their names' lowercase.
pub open spec fn keyed_by_name(found: Seq<Installed>) -> Seq<(Seq<char>, Installed)> {
    found.map_values(|app: Installed| (lowercased(app.name@), app))
}

/// Applications, each with the key it is sorted by, put in the order the
/// settings window lists them: by key, ties in the order given, and with each
/// one dropped that repeats the identity of the one kept before it.
pub fn listed(keyed: Vec<(String, Installed)>) -> (list: Vec<Installed>)
    ensures
        list@ == without_repeats(entries(sorted_by_key(keyed_view(keyed@)))),
{
    let ghost all = keyed_view(keyed@);
    let mut rest = keyed;
    let mut sorted: Vec<(String, Installed)> = Vec::new();
    while rest.len() > 0
        invariant
            all == all.take(all.len() - rest@.len()) + keyed_view(rest@),
            rest@.len() <= all.len(),
            keyed_view(sorted@) == sorted_by_key(all.take(all.len() - rest@.len())),
        decreases rest@.len(),
    {
        let ghost done = all.take(all.len() - rest@.len());
        let ghost before = keyed_view(rest@);
        let entry = rest.remove(0);
        let ghost now = all.take(all.len() - rest@.len());
        proof {
            assert(before =~= seq![(entry.0@, entry.1)] + keyed_view(rest@));
            assert(now =~= done.push((entry.0@, entry.1)));
            assert(now.drop_last() =~= done);
            assert(all =~= now + keyed_view(rest@));
        }
        let key = chars_of(entry.0.as_str());
        let mut at: usize = 0;
        while at < sorted.len()
            invariant
                at <= sorted@.len(),
                key@ == entry.0@,
                first_after(keyed_view(sorted@), key@, 0) == first_after(
                    keyed_view(sorted@),
                    key@,
                    at as int,
                ),
            ensures
                first_after(keyed_view(sorted@), key@, 0) == at,
            decreases sorted.len() - at,
        {
            assert(keyed_view(sorted@)[at as int].0 == sorted@[at as int].0@);
            if comes_before(&key, &chars_of(sorted[at].0.as_str())) {
                break;
            }
            at = at + 1;
        }
        let ghost old_sorted = keyed_view(sorted@);
        sorted.insert(at, entry);
        proof {
            assert(keyed_view(sorted@) =~= old_sorted.insert(at as int, (entry.0@, entry.1)));
        }
    }
    assert(all.take(all.len() as int) =~= all);
    let ghost order = keyed_view(sorted@);
    let mut list: Vec<Installed> = Vec::new();
    let mut rest = sorted;
    while rest.len() > 0
        invariant
            order == order.take(order.len() - rest@.len()) + keyed_view(rest@),
            rest@.len() <= order.len(),
            list@ == without_repeats(entries(order.take(order.len() - rest@.len()))),
        decreases rest@.len(),
    {
        let ghost done = order.take(order.len() - rest@.len());
        let ghost before = keyed_view(rest@);
        let (key, app) = rest.remove(0);
        let ghost now = order.take(order.len() - rest@.len());
        proof {
            assert(before =~= seq![(key@, app)] + keyed_view(rest@));
            assert(now =~= done.push((key@, app)));
            assert(entries(now).drop_last() =~= entries(done));
            assert(entries(now).last() == app);
            assert(order =~= now + keyed_view(rest@));
        }
        let repeat = if list.len() > 0 {
            let last = list.len() - 1;
            crate::text::same_text(
                &chars_of(list[last].identity.as_str()),
                &chars_of(app.identity.as_str()),
            )
        } else {
            false
        };
        if !repeat {
            list.push(app);
        }
    }
    assert(order.take(order.len() as int) =~= order);
    list
}

/// Every installed application the shell listed, in the order the settings
/// window offers them: sorted by name ignoring case, and with each dropped
/// that repeats the identity of the one before it.
pub fn catalogue(found: Vec<Installed>) -> (list: Vec<Installed>)
    ensures
        list@ == without_repeats(entries(sorted_by_key(keyed_by_name(found@)))),
{
    let ghost all = found@;
    let mut rest = found;
    let mut keyed: Vec<(String, Installed)> = Vec::new();
    while rest.len() > 0
        invariant
            all == all.take(all.len() - rest@.len()) + rest@,
            rest@.len() <= all.len(),
            keyed_view(keyed@) == keyed_by_name(all.take(all.len() - rest@.len())),
        decreases rest@.len(),
    {
        let ghost done = all.take(all.len() - rest@.len());
        let app = rest.remove(0);
        let ghost now = all.take(all.len() - rest@.len());
        proof {
            assert(now =~= done.push(app));
            assert(all =~= now + rest@);
        }
        let key = to_lowercase(app.name.as_str());
        let ghost earlier = keyed@;
        let ghost entry = (key@, app);
        keyed.push((key, app));
        proof {
            assert(keyed_view(keyed@) =~= keyed_view(earlier).push(entry));
            assert(keyed_by_name(now) =~= keyed_by_name(done).push(entry));
        }
    }
    assert(all.take(all.len() as int) =~= all);
    listed(keyed)
}

/// Whether keyed entries stand in key order: no entry's key comes before the
/// key of an entry ahead of it.
pub open spec fn in_key_order(s: Seq<(Seq<char>, Installed)>) -> bool {
    forall|i: int, j: int| 0 <= i < j < s.len() ==> !lex_less(#[trigger] s[j].0, #[trigger] s[i].0)
}

/// The order of `str` is transitive.
pub proof fn lemma_lex_less_transitive(a: Seq<char>, b: Seq<char>, c: Seq<char>)
    requires
        lex_less(a, b),
        lex_less(b, c),
    ensures
        lex_less(a, c),
    decreases a.len(),
{
    if a.len() > 0 && a[0] == b[0] && b[0] == c[0] {
        lemma_lex_less_transitive(a.drop_first(), b.drop_first(), c.drop_first());
    }
}

proof fn lemma_first_after(s: Seq<(Seq<char>, Installed)>, key: Seq<char>, i: int)
    requires
        0 <= i <= s.len(),
        forall|j: int| 0 <= j < i ==> !lex_less(key, #[trigger] s[j].0),
    ensures
        i <= first_after(s, key, i) <= s.len(),
        forall|j: int| 0 <= j < first_after(s, key, i) ==> !lex_less(key, #[trigger] s[j].0),
        first_after(s, key, i) < s.len() ==> lex_less(key, s[first_after(s, key, i)].0),
    decreases s.len() - i,
{
    if i < s.len() && !lex_less(key, s[i].0) {
        lemma_first_after(s, key, i + 1);
    }
}

/// The applications are listed in name order: sorting leaves no entry ahead of
/// one whose key comes before its own.
pub proof fn lemma_sorted_in_key_order(keyed: Seq<(Seq<char>, Installed)>)
    ensures
        in_key_order(sorted_by_key(keyed)),
        sorted_by_key(keyed).len() == keyed.len(),
    decreases keyed.len(),
{
    if keyed.len() > 0 {
        let sorted = sorted_by_key(keyed.drop_last());
        lemma_sorted_in_key_order(keyed.drop_last());
        let entry = keyed.last();
        let p = first_after(sorted, entry.0, 0);
        lemma_first_after(sorted, entry.0, 0);
        let out = sorted.insert(p, entry);
        assert forall|i: int, j: int| 0 <= i < j < out.len() implies !lex_less(
            #[trigger] out[j].0,
            #[trigger] out[i].0,
        ) by {
            if i == p {
                if j > p && lex_less(out[j].0, entry.0) {
                    assert(out[j] == sorted[j - 1]);
                    if p < sorted.len() {
                        lemma_lex_less_transitive(out[j].0, entry.0, sorted[p].0);
                        assert(!lex_less(sorted[j - 1].0, sorted[p].0) || j - 1 == p);
                        if j - 1 == p {
                            lemma_lex_less_irreflexive(sorted[p].0);
                        }
                    }
                }
            } else if j == p {
                assert(out[i] == sorted[i]);
            } else {
                let si = if i < p {
                    i
                } else {
                    i - 1
                };
                let sj = if j < p {
                    j
                } else {
                    j - 1
                };
                assert(out[i] == sorted[si]);
                assert(out[j] == sorted[sj]);
            }
        }
    }
}

/// No text comes before itself.
pub proof fn lemma_lex_less_irreflexive(a: Seq<char>)
    ensures
        !lex_less(a, a),
    decreases a.len(),
{
    if a.len() > 0 {
        lemma_lex_less_irreflexive(a.drop_first());
    }
}

/// No application in the list has the identity of the one just before it.
pub proof fn lemma_no_repeats(list: Seq<Installed>)
    ensures
        forall|i: int|
            0 <= i < without_repeats(list).len() - 1 ==> (#[trigger] without_repeats(list)[i]).identity@
                != without_repeats(list)[i + 1].identity@,
    decreases list.len(),
{
    if list.len() > 0 {
        lemma_no_repeats(list.drop_last());
        let kept = without_repeats(list.drop_last());
        let out = without_repeats(list);
        assert forall|i: int| 0 <= i < out.len() - 1 implies (#[trigger] out[i]).identity@
            != out[i + 1].identity@ by {
            if out != kept {
                assert(out == kept.push(list.last()));
                if i < kept.len() - 1 {
                    assert(out[i] == kept[i] && out[i + 1] == kept[i + 1]);
                } else {
                    assert(out[i] == kept.last() && out[i + 1] == list.last());
                }
            }
        }
    }
}

/// Sorting only rearranges: the sorted applications are exactly the ones
/// given, each as often as it was given.
pub proof fn lemma_sorting_only_rearranges(keyed: Seq<(Seq<char>, Installed)>)
    ensures
        sorted_by_key(keyed).to_multiset() == keyed.to_multiset(),
    decreases keyed.len(),
{
    if keyed.len() > 0 {
        let rest = keyed.drop_last();
        lemma_sorting_only_rearranges(rest);
        let sorted = sorted_by_key(rest);
        lemma_sorted_in_key_order(rest);
        lemma_first_after(sorted, keyed.last().0, 0);
        vstd::seq_lib::to_multiset_insert(sorted, first_after(sorted, keyed.last().0, 0), keyed.last());
        vstd::seq_lib::to_multiset_build(rest, keyed.last());
        assert(rest.push(keyed.last()) =~= keyed);
    }
}

/// Whether the settings window's picker shows an application under a filter:
/// its name holds the filter, case ignored.
pub open spec fn shown(app: Installed, filter: Seq<char>) -> bool {
    contains_text(lowercased(app.name@), lowercased(filter))
}

/// The rows, below `n`, of the applications shown under a filter.
pub open spec fn rows_shown(apps: Seq<Installed>, filter: Seq<char>, n: int) -> Seq<usize>
    decreases n,
{
    if n <= 0 {
        Seq::empty()
    } else if shown(apps[n - 1], filter) {
        rows_shown(apps, filter, n - 1).push((n - 1) as usize)
    } else {
        rows_shown(apps, filter, n - 1)
    }
}

/// The rows of the applications the picker shows under `filter`, in order:
/// those whose name holds the filter, case ignored.
pub fn matching(apps: &[Installed], filter: &str) -> (rows: Vec<usize>)
    ensures
        rows@ == rows_shown(apps@, filter@, apps@.len() as int),
{
    let needle = chars_of(to_lowercase(filter).as_str());
    let mut rows: Vec<usize> = Vec::new();
    let mut i: usize = 0;
    while i < apps.len()
        invariant
            i <= apps@.len(),
            needle@ == lowercased(filter@),
            rows@ == rows_shown(apps@, filter@, i as int),
        decreases apps.len() - i,
    {
        let name = chars_of(to_lowercase(apps[i].name.as_str()).as_str());
        if text_contains(&name, &needle) {
            rows.push(i);
        }
        i = i + 1;
    }
    rows
}

/// Whether a list of applications stands in name order, case ignored.
pub open spec fn in_name_order(list: Seq<Installed>) -> bool {
    forall|i: int, j: int|
        0 <= i < j < list.len() ==> !lex_less(
            lowercased((#[trigger] list[j]).name@),
            lowercased((#[trigger] list[i]).name@),
        )
}

proof fn lemma_kept_were_given(list: Seq<Installed>)
    ensures
        forall|i: int|
            0 <= i < without_repeats(list).len() ==> list.contains(
                #[trigger] without_repeats(list)[i],
            ),
    decreases list.len(),
{
    if list.len() > 0 {
        let rest = list.drop_last();
        lemma_kept_were_given(rest);
        let kept = without_repeats(rest);
        assert forall|i: int| 0 <= i < without_repeats(list).len() implies list.contains(
            #[trigger] without_repeats(list)[i],
        ) by {
            if i < kept.len() {
                assert(without_repeats(list)[i] == kept[i]);
                let k = choose|k: int| 0 <= k < rest.len() && rest[k] == kept[i];
                assert(list[k] == rest[k]);
            } else {
                assert(without_repeats(list)[i] == list.last());
                assert(list[list.len() - 1] == list.last());
            }
        }
    }
}

proof fn lemma_dropping_repeats_keeps_order(list: Seq<Installed>)
    requires
        in_name_order(list),
    ensures
        in_name_order(without_repeats(list)),
    decreases list.len(),
{
    if list.len() > 0 {
        let rest = list.drop_last();
        assert(in_name_order(rest)) by {
            assert forall|i: int, j: int| 0 <= i < j < rest.len() implies !lex_less(
                lowercased((#[trigger] rest[j]).name@),
                lowercased((#[trigger] rest[i]).name@),
            ) by {
                assert(rest[i] == list[i] && rest[j] == list[j]);
            }
        }
        lemma_dropping_repeats_keeps_order(rest);
        lemma_kept_were_given(rest);
        let kept = without_repeats(rest);
        let out = without_repeats(list);
        assert forall|i: int, j: int| 0 <= i < j < out.len() implies !lex_less(
            lowercased((#[trigger] out[j]).name@),
            lowercased((#[trigger] out[i]).name@),
        ) by {
            if j < kept.len() {
                assert(out[i] == kept[i] && out[j] == kept[j]);
            } else {
                assert(out[j] == list.last());
                assert(out[i] == kept[i]);
                assert(rest.contains(kept[i]));
                let k = choose|k: int| 0 <= k < rest.len() && rest[k] == kept[i];
                assert(list[k] == kept[i]);
                assert(list[list.len() - 1] == list.last());
            }
        }
    }
}

/// The applications the settings window offers stand in name order, case
/// ignored: no application is listed after one whose name comes after its own.
pub proof fn lemma_catalogue_in_name_order(found: Seq<Installed>)
    ensures
        in_name_order(without_repeats(entries(sorted_by_key(keyed_by_name(found))))),
{
    let keyed = keyed_by_name(found);
    let sorted = sorted_by_key(keyed);
    lemma_sorted_in_key_order(keyed);
    lemma_sorting_only_rearranges(keyed);
    let list = entries(sorted);
    assert forall|m: int| 0 <= m < sorted.len() implies (#[trigger] sorted[m]).0 == lowercased(
        sorted[m].1.name@,
    ) by {
        vstd::seq_lib::to_multiset_contains(sorted, sorted[m]);
        vstd::seq_lib::to_multiset_contains(keyed, sorted[m]);
        assert(sorted.contains(sorted[m]));
        let n = choose|n: int| 0 <= n < keyed.len() && keyed[n] == sorted[m];
        assert(keyed[n] == (lowercased(found[n].name@), found[n]));
    }
    assert(in_name_order(list)) by {
        assert forall|i: int, j: int| 0 <= i < j < list.len() implies !lex_less(
            lowercased((#[trigger] list[j]).name@),
            lowercased((#[trigger] list[i]).name@),
        ) by {
            assert(list[i] == sorted[i].1 && list[j] == sorted[j].1);
            assert(sorted[i].0 == lowercased(sorted[i].1.name@));
            assert(sorted[j].0 == lowercased(sorted[j].1.name@));
        }
    }
    lemma_dropping_repeats_keeps_order(list);
}

} // verus!
