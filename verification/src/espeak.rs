//! The front end's use of espeak-ng's loaded phoneme data: selecting the
//! phoneme table of a language and reading the active phoneme set it makes.

use crate::frontend::PhonemeEntry;
use espeak_ng::{Error, PhonemeData};
use vstd::prelude::*;

verus! {

/// espeak-ng's loaded phoneme data, opaque to the proofs.
#[verifier::external_type_specification]
#[verifier::external_body]
pub struct ExPhonemeData(PhonemeData);

/// espeak-ng's error type, opaque to the proofs.
#[verifier::external_type_specification]
#[verifier::external_body]
pub struct ExEspeakError(Error);

/// The names of the phoneme tables of loaded phoneme data, in order.
pub uninterp spec fn table_names(data: PhonemeData) -> Seq<Seq<char>>;

/// For each phoneme table, in order, the table it includes: 0 for none,
/// otherwise one more than the included table's position.
pub uninterp spec fn table_includes(data: PhonemeData) -> Seq<u8>;

/// For each phoneme table, in order, its entries: code, packed mnemonic,
/// phoneme type and standard length.
pub uninterp spec fn table_entries(data: PhonemeData) -> Seq<Seq<(u8, u32, u8, u8)>>;

/// The name of the selected phoneme table, if a table is selected.
pub uninterp spec fn selected_table(data: PhonemeData) -> Option<Seq<char>>;

/// The active phoneme set: for each active code, the entry's packed
/// mnemonic, phoneme type and standard length.
pub uninterp spec fn active_phonemes(data: PhonemeData) -> Map<u8, (u32, u8, u8)>;

/// `i` is the position of the first of `names` that equals `name`.
pub open spec fn first_table_named(names: Seq<Seq<char>>, name: Seq<char>, i: int) -> bool {
    &&& 0 <= i < names.len()
    &&& names[i] == name
    &&& forall|j: int| 0 <= j < i ==> names[j] != name
}

/// Following the includes from table `idx` stays among the tables and ends
/// within `steps` steps.
pub open spec fn include_chain_ends(includes: Seq<u8>, idx: int, steps: nat) -> bool
    decreases steps,
{
    &&& 0 <= idx < includes.len()
    &&& (includes[idx] == 0 || (steps > 0 && include_chain_ends(
        includes,
        includes[idx] - 1,
        (steps - 1) as nat,
    )))
}

/// `path` follows the includes from table `path[0]`: every table on it
/// exists, each includes the next, and the last includes none.
pub open spec fn is_include_path(includes: Seq<u8>, path: Seq<int>) -> bool {
    &&& path.len() >= 1
    &&& forall|k: int| 0 <= k < path.len() ==> 0 <= #[trigger] path[k] < includes.len()
    &&& forall|k: int|
        0 <= k < path.len() - 1 ==> includes[#[trigger] path[k]] > 0 && path[k + 1] == includes[path[k]]
            - 1
    &&& includes[path.last()] == 0
}

/// The include chain from table `idx` ends within `steps` steps exactly
/// when following the includes from `idx` reaches a table that includes
/// none, through at most `steps` includes, without leaving the tables.
pub proof fn lemma_include_chain_ends_iff_path(includes: Seq<u8>, idx: int, steps: nat)
    ensures
        include_chain_ends(includes, idx, steps) <==> exists|path: Seq<int>|
            is_include_path(includes, path) && path[0] == idx && path.len() <= steps + 1,
    decreases steps,
{
    if include_chain_ends(includes, idx, steps) {
        if includes[idx] == 0 {
            let path = seq![idx];
            assert(is_include_path(includes, path));
        } else {
            let next = includes[idx] - 1;
            lemma_include_chain_ends_iff_path(includes, next, (steps - 1) as nat);
            let rest = choose|path: Seq<int>|
                is_include_path(includes, path) && path[0] == next && path.len() <= steps;
            let path = seq![idx] + rest;
            assert forall|k: int| 0 <= k < path.len() implies 0 <= #[trigger] path[k] < includes.len() by {
                if k > 0 {
                    assert(path[k] == rest[k - 1]);
                }
            }
            assert forall|k: int| 0 <= k < path.len() - 1 implies includes[#[trigger] path[k]] > 0
                && path[k + 1] == includes[path[k]] - 1 by {
                if k > 0 {
                    assert(path[k] == rest[k - 1]);
                    assert(path[k + 1] == rest[k]);
                }
            }
            assert(path.last() == rest.last());
            assert(is_include_path(includes, path));
        }
    }
    if exists|path: Seq<int>|
        is_include_path(includes, path) && path[0] == idx && path.len() <= steps + 1 {
        let path = choose|path: Seq<int>|
            is_include_path(includes, path) && path[0] == idx && path.len() <= steps + 1;
        assert(0 <= path[0] < includes.len());
        if path.len() > 1 {
            assert(includes[path[0]] > 0);
            let rest = path.drop_first();
            assert forall|k: int| 0 <= k < rest.len() implies 0 <= #[trigger] rest[k] < includes.len() by {
                assert(rest[k] == path[k + 1]);
            }
            assert forall|k: int| 0 <= k < rest.len() - 1 implies includes[#[trigger] rest[k]] > 0
                && rest[k + 1] == includes[rest[k]] - 1 by {
                assert(rest[k] == path[k + 1]);
                assert(rest[k + 1] == path[k + 2]);
            }
            assert(rest.last() == path.last());
            assert(is_include_path(includes, rest));
            assert(rest[0] == includes[idx] - 1);
            lemma_include_chain_ends_iff_path(includes, includes[idx] - 1, (steps - 1) as nat);
        }
    }
}

/// The active set after installing `entries` in order over `base`: a later
/// entry of a code replaces an earlier one.
pub open spec fn install_entries(base: Map<u8, (u32, u8, u8)>, entries: Seq<(u8, u32, u8, u8)>) -> Map<
    u8,
    (u32, u8, u8),
>
    decreases entries.len(),
{
    if entries.len() == 0 {
        base
    } else {
        let e = entries.last();
        install_entries(base, entries.drop_last()).insert(e.0, (e.1, e.2, e.3))
    }
}

/// The active set that selecting table `idx` makes: the entries of the
/// table it includes (recursively), overlaid by its own.
pub open spec fn table_active_set(
    entries: Seq<Seq<(u8, u32, u8, u8)>>,
    includes: Seq<u8>,
    idx: int,
    steps: nat,
) -> Map<u8, (u32, u8, u8)>
    decreases steps,
{
    let base = if includes[idx] > 0 && steps > 0 {
        table_active_set(entries, includes, includes[idx] - 1, (steps - 1) as nat)
    } else {
        Map::empty()
    };
    install_entries(base, entries[idx])
}

/// `PhonemeData::n_tables`: the number of phoneme tables.
#[verifier::external_body]
fn table_count(data: &PhonemeData) -> (n: usize)
    ensures
        n == table_names(*data).len(),
        n == table_includes(*data).len(),
        n == table_entries(*data).len(),
{
    data.n_tables()
}

/// Reads the `includes` field of phoneme table `i`.
#[verifier::external_body]
fn table_include(data: &PhonemeData, i: usize) -> (r: u8)
    requires
        i < table_includes(*data).len(),
    ensures
        r == table_includes(*data)[i as int],
{
    data.tables[i].includes
}

/// `PhonemeData::find_table`: the position of the first table named `name`.
#[verifier::external_body]
fn find_table(data: &PhonemeData, name: &str) -> (r: Result<usize, Error>)
    ensures
        match r {
            Ok(i) => first_table_named(table_names(*data), name@, i as int),
            Err(_) => !table_names(*data).contains(name@),
        },
{
    data.find_table(name)
}

/// `PhonemeData::active_table_name`: the name of the selected table.
#[verifier::external_body]
fn active_table_name(data: &PhonemeData) -> (r: Option<String>)
    ensures
        match r {
            Some(s) => selected_table(*data) == Some(s@),
            None => selected_table(*data) is None,
        },
{
    match data.active_table_name() {
        Some(s) => Some(s.to_string()),
        None => None,
    }
}

/// `PhonemeData::select_table_by_name`: selects the first table named
/// `name` and returns its position, or fails when no table has that name.
/// The tables are left as they were. Where no table was selected before,
/// the active set is rebuilt: the included table's (recursively), overlaid
/// by the selected table's own entries. The `requires` leaves out data on
/// which following the includes from that table would index past the tables
/// or never end.
#[verifier::external_body]
fn select_table_by_name(data: &mut PhonemeData, name: &str) -> (r: Result<usize, Error>)
    requires
        forall|i: int|
            first_table_named(table_names(*old(data)), name@, i) ==> include_chain_ends(
                table_includes(*old(data)),
                i,
                table_includes(*old(data)).len(),
            ),
    ensures
        match r {
            Ok(i) => first_table_named(table_names(*old(data)), name@, i as int),
            Err(_) => !table_names(*old(data)).contains(name@),
        },
        table_names(*final(data)) == table_names(*old(data)),
        table_includes(*final(data)) == table_includes(*old(data)),
        table_entries(*final(data)) == table_entries(*old(data)),
        r matches Ok(i) ==> selected_table(*final(data)) == Some(table_names(*old(data))[i as int]),
        r matches Ok(i) ==> (selected_table(*old(data)) is None ==> active_phonemes(*final(data))
            == table_active_set(
            table_entries(*old(data)),
            table_includes(*old(data)),
            i as int,
            table_includes(*old(data)).len(),
        )),
{
    data.select_table_by_name(name)
}

/// The entry that an active phoneme set holds for `code`, if any.
pub open spec fn entry_for(active: Map<u8, (u32, u8, u8)>, code: u8) -> Option<PhonemeEntry> {
    if active.contains_key(code) {
        Some(
            PhonemeEntry {
                mnemonic: active[code].0,
                typ: active[code].1,
                std_length: active[code].2,
            },
        )
    } else {
        None
    }
}

/// Why phoneme data could not be set up for a language.
#[derive(Clone, Copy, Debug, PartialEq, Eq, Structural)]
pub enum FrontendError {
    /// A phoneme table was already selected in the data.
    TableAlreadySelected,
    /// No phoneme table has the language's name.
    UnknownPhonemeTable,
    /// Following the includes from the language's table leaves the tables
    /// or runs in a circle.
    BrokenIncludes,
}

/// Phoneme data with the phoneme table of one language selected in it.
pub struct LanguagePhonemes {
    data: PhonemeData,
}

impl LanguagePhonemes {
    /// The phoneme data held.
    pub closed spec fn phoneme_data(self) -> PhonemeData {
        self.data
    }

    #[verifier::type_invariant]
    spec fn selected(self) -> bool {
        selected_table(self.data) is Some
    }

    /// Takes loaded phoneme data in which no table is selected yet, and
    /// selects the phoneme table of language `lang` in it.
    pub fn select(data: PhonemeData, lang: &str) -> (r: Result<Self, FrontendError>)
        ensures
            match r {
                Ok(lp) => {
                    let names = table_names(data);
                    let includes = table_includes(data);
                    &&& selected_table(data) is None
                    &&& names.contains(lang@)
                    &&& selected_table(lp.phoneme_data()) == Some(lang@)
                    &&& table_names(lp.phoneme_data()) == names
                    &&& exists|i: int|
                        first_table_named(names, lang@, i) && include_chain_ends(
                            includes,
                            i,
                            includes.len(),
                        ) && active_phonemes(lp.phoneme_data()) == table_active_set(
                            table_entries(data),
                            includes,
                            i,
                            includes.len(),
                        )
                },
                Err(FrontendError::TableAlreadySelected) => selected_table(data) is Some,
                Err(FrontendError::UnknownPhonemeTable) => selected_table(data) is None
                    && !table_names(data).contains(lang@),
                Err(FrontendError::BrokenIncludes) => selected_table(data) is None && exists|
                    i: int,
                |
                    first_table_named(table_names(data), lang@, i) && !include_chain_ends(
                        table_includes(data),
                        i,
                        table_includes(data).len(),
                    ),
            },
    {
        let mut data = data;
        if active_table_name(&data).is_some() {
            return Err(FrontendError::TableAlreadySelected);
        }
        let idx = match find_table(&data, lang) {
            Ok(i) => i,
            Err(_) => return Err(FrontendError::UnknownPhonemeTable),
        };
        let n = table_count(&data);
        if !chain_ends(&data, idx, n) {
            return Err(FrontendError::BrokenIncludes);
        }
        match select_table_by_name(&mut data, lang) {
            Ok(i) => {
                assert(i == idx);
                Ok(LanguagePhonemes { data })
            },
            Err(_) => Err(FrontendError::UnknownPhonemeTable),
        }
    }

    /// The active phoneme set as a table indexed by code.
    pub fn phoneme_table(&self) -> (t: Vec<Option<PhonemeEntry>>)
        ensures
            t.len() == 256,
            forall|c: u8| #[trigger] t@[c as int] == entry_for(active_phonemes(self.phoneme_data()), c),
    {
        let mut t: Vec<Option<PhonemeEntry>> = Vec::new();
        let mut c: u32 = 0;
        while c < 256
            invariant
                c <= 256,
                t.len() == c,
                forall|k: u8|
                    (k as u32) < c ==> #[trigger] t@[k as int] == entry_for(
                        active_phonemes(self.phoneme_data()),
                        k,
                    ),
            decreases 256 - c,
        {
            let e = active_phoneme(self, c as u8);
            t.push(e);
            c = c + 1;
        }
        t
    }
}

/// Whether following the includes from table `idx` of `n` tables stays among
/// them and ends.
fn chain_ends(data: &PhonemeData, idx: usize, n: usize) -> (r: bool)
    requires
        n == table_includes(*data).len(),
        idx < n,
    ensures
        r == include_chain_ends(table_includes(*data), idx as int, n as nat),
{
    let ghost includes = table_includes(*data);
    // Walk the chain; `steps` counts the steps still allowed.
    let mut cur: usize = idx;
    let mut steps: usize = n;
    while steps > 0
        invariant
            n == includes.len(),
            includes == table_includes(*data),
            cur < n,
            steps <= n,
            include_chain_ends(includes, idx as int, n as nat) == include_chain_ends(
                includes,
                cur as int,
                steps as nat,
            ),
        decreases steps,
    {
        let inc = table_include(data, cur);
        if inc == 0 {
            return true;
        }
        if (inc as usize) - 1 >= n {
            assert(!include_chain_ends(includes, inc - 1, (steps - 1) as nat));
            return false;
        }
        cur = (inc as usize) - 1;
        steps = steps - 1;
    }
    let inc = table_include(data, cur);
    inc == 0
}

/// `PhonemeData::get` on the data a `LanguagePhonemes` holds: the entry of
/// the active set for `code`, of which the mnemonic, type and standard
/// length are kept. Such data had no table selected before `select`, so the
/// selection rebuilt the active set from the tables, and nothing has
/// changed the data since; every active entry lies within the tables.
#[verifier::external_body]
fn active_phoneme(lp: &LanguagePhonemes, code: u8) -> (r: Option<PhonemeEntry>)
    ensures
        match r {
            Some(e) => active_phonemes(lp.phoneme_data()).contains_key(code)
                && active_phonemes(lp.phoneme_data())[code] == (e.mnemonic, e.typ, e.std_length),
            None => !active_phonemes(lp.phoneme_data()).contains_key(code),
        },
{
    match lp.data.get(code) {
        Some(ph) => Some(PhonemeEntry { mnemonic: ph.mnemonic, typ: ph.typ, std_length: ph.std_length }),
        None => None,
    }
}

} // verus!
