//! Text search configurations and dictionaries.

use crate::objects::{TextSearchConfig, TextSearchDict};
use crate::text::{list_items, same_text, split_list, texts};
use vstd::prelude::*;

verus! {

broadcast use vstd::string::group_string_axioms;

/// A token type that a configuration maps to dictionaries.
#[derive(Debug, Clone, PartialEq, Eq)]
pub struct MappingRow {
    pub config_oid: u32,
    pub token_type: String,
    pub dictionaries: String,
}

/// The number of a configuration.
#[derive(Debug, Clone, PartialEq, Eq)]
pub struct ConfigOidRow {
    pub oid: u32,
    pub schema: String,
    pub name: String,
}

/// A dictionary as the catalog describes it.
#[derive(Debug, Clone, PartialEq, Eq)]
pub struct DictionaryRow {
    pub schema: String,
    pub name: String,
    pub owner: String,
    pub template: String,
    /// The options, separated by commas.
    pub options: String,
    pub comment: Option<String>,
}

/// The entry of a mapping: the token type, a colon, and the dictionaries.
pub open spec fn mapping_entry(row: MappingRow) -> Seq<char> {
    row.token_type@ + ":"@ + row.dictionaries@
}

/// The entries of the configuration with a number, in order.
pub open spec fn mapping_entries(rows: Seq<MappingRow>, oid: u32) -> Seq<Seq<char>>
    decreases rows.len(),
{
    if rows.len() == 0 {
        Seq::empty()
    } else if rows.last().config_oid == oid {
        mapping_entries(rows.drop_last(), oid).push(mapping_entry(rows.last()))
    } else {
        mapping_entries(rows.drop_last(), oid)
    }
}

/// `row` is about `config`.
pub open spec fn is_about(row: ConfigOidRow, config: TextSearchConfig) -> bool {
    row.schema@ == config.schema@ && row.name@ == config.name@
}

/// The configuration at `j` is the first that `row` is about.
pub open spec fn is_first_about(configs: Seq<TextSearchConfig>, j: int, row: ConfigOidRow) -> bool {
    &&& 0 <= j < configs.len()
    &&& is_about(row, configs[j])
    &&& forall|k: int| 0 <= k < j ==> !is_about(row, #[trigger] configs[k])
}

/// The entries that the configuration at `j` gets: those of the last number that
/// is its own and has entries. Nothing where there is no such number.
pub open spec fn entries_for(
    configs: Seq<TextSearchConfig>,
    j: int,
    oids: Seq<ConfigOidRow>,
    mappings: Seq<MappingRow>,
) -> Option<Seq<Seq<char>>>
    decreases oids.len(),
{
    if oids.len() == 0 {
        None
    } else if is_first_about(configs, j, oids.last()) && mapping_entries(
        mappings,
        oids.last().oid,
    ).len() > 0 {
        Some(mapping_entries(mappings, oids.last().oid))
    } else {
        entries_for(configs, j, oids.drop_last(), mappings)
    }
}

/// `after` is the configuration at `j` once the mappings were attached: only
/// its mappings may have changed.
pub open spec fn is_mapped(
    after: TextSearchConfig,
    configs: Seq<TextSearchConfig>,
    j: int,
    oids: Seq<ConfigOidRow>,
    mappings: Seq<MappingRow>,
) -> bool {
    &&& after == (TextSearchConfig { mappings: after.mappings, ..configs[j] })
    &&& match entries_for(configs, j, oids, mappings) {
        Some(entries) => texts(after.mappings@) == entries,
        None => after.mappings == configs[j].mappings,
    }
}

/// The entries of the configuration with a number, in order.
fn entries_of(rows: &Vec<MappingRow>, oid: u32) -> (r: Vec<String>)
    ensures
        texts(r@) == mapping_entries(rows@, oid),
{
    let mut entries: Vec<String> = Vec::new();
    let mut i: usize = 0;
    assert(texts(entries@) =~= Seq::empty());
    while i < rows.len()
        invariant
            i <= rows@.len(),
            texts(entries@) == mapping_entries(rows@.take(i as int), oid),
        decreases rows@.len() - i,
    {
        let ghost before = entries@;
        let row = &rows[i];
        if row.config_oid == oid {
            let mut entry = String::new();
            entry.append(row.token_type.as_str());
            entry.append(":");
            entry.append(row.dictionaries.as_str());
            assert(entry@ =~= mapping_entry(*row));
            entries.push(entry);
            assert(texts(entries@) =~= texts(before).push(entry@));
        }
        i += 1;
        assert(rows@.take(i as int).drop_last() =~= rows@.take(i - 1));
    }
    assert(rows@.take(i as int) =~= rows@);
    entries
}

/// The place of the first configuration that a row is about.
fn find_config(configs: &Vec<TextSearchConfig>, row: &ConfigOidRow) -> (r: Option<usize>)
    ensures
        match r {
            Some(j) => is_first_about(configs@, j as int, *row),
            None => forall|k: int| 0 <= k < configs@.len() ==> !is_about(*row, #[trigger] configs@[k]),
        },
{
    let mut j: usize = 0;
    while j < configs.len()
        invariant
            j <= configs@.len(),
            forall|k: int| 0 <= k < j ==> !is_about(*row, #[trigger] configs@[k]),
        decreases configs@.len() - j,
    {
        if same_text(row.schema.as_str(), configs[j].schema.as_str()) && same_text(
            row.name.as_str(),
            configs[j].name.as_str(),
        ) {
            return Some(j);
        }
        j += 1;
    }
    None
}

/// Gives each configuration the token types that it maps. The number of a
/// configuration is found by its schema and name.
pub fn attach_mappings(
    configs: &mut Vec<TextSearchConfig>,
    oids: &Vec<ConfigOidRow>,
    mappings: &Vec<MappingRow>,
)
    ensures
        final(configs)@.len() == old(configs)@.len(),
        forall|j: int|
            0 <= j < old(configs)@.len() ==> is_mapped(
                #[trigger] final(configs)@[j],
                old(configs)@,
                j,
                oids@,
                mappings@,
            ),
{
    let ghost all = configs@;
    let mut i: usize = 0;
    while i < oids.len()
        invariant
            i <= oids@.len(),
            configs@.len() == all.len(),
            forall|j: int|
                0 <= j < all.len() ==> is_mapped(
                    #[trigger] configs@[j],
                    all,
                    j,
                    oids@.take(i as int),
                    mappings@,
                ),
        decreases oids@.len() - i,
    {
        let ghost before = configs@;
        let row = &oids[i];
        let entries = entries_of(mappings, row.oid);
        let place = find_config(configs, row);
        proof {
            let some = oids@.take(i + 1);
            assert(some.drop_last() =~= oids@.take(i as int));
            assert(some.last() == *row);
            assert(texts(entries@).len() == entries@.len());
            assert forall|j: int| 0 <= j < all.len() implies is_about(*row, #[trigger] before[j])
                == is_about(*row, all[j]) by {
                assert(is_mapped(before[j], all, j, oids@.take(i as int), mappings@));
            }
            if let Some(p) = place {
                assert(before[p as int] == before[p as int]);
                assert forall|k: int| 0 <= k < p implies !is_about(*row, #[trigger] all[k]) by {
                    assert(!is_about(*row, before[k]));
                }
                assert(is_first_about(all, p as int, *row));
                assert forall|j: int| 0 <= j < all.len() && j != p implies !#[trigger] is_first_about(
                    all,
                    j,
                    *row,
                ) by {
                    if j < p {
                        assert(!is_about(*row, all[j]));
                    }
                }
            } else {
                assert forall|j: int| 0 <= j < all.len() implies !#[trigger] is_first_about(
                    all,
                    j,
                    *row,
                ) by {
                    assert(!is_about(*row, before[j]));
                }
            }
        }
        if let Some(j) = place {
            if !entries.is_empty() {
                configs[j].mappings = entries;
            }
        }
        proof {
            assert forall|j: int| 0 <= j < all.len() implies is_mapped(
                #[trigger] configs@[j],
                all,
                j,
                oids@.take(i + 1),
                mappings@,
            ) by {
                assert(is_mapped(before[j], all, j, oids@.take(i as int), mappings@));
            }
        }
        i += 1;
    }
    assert(oids@.take(i as int) =~= oids@);
}

/// `d` is what `row` describes.
pub open spec fn is_dictionary_of(d: TextSearchDict, row: DictionaryRow) -> bool {
    &&& d.schema == row.schema
    &&& d.name == row.name
    &&& d.owner == row.owner
    &&& d.template == row.template
    &&& texts(d.options@) == list_items(row.options@)
    &&& d.comment == row.comment
    &&& d.hash is None
}

impl TextSearchDict {
    /// The dictionary that a row describes, with its options one by one.
    pub fn from_row(row: DictionaryRow) -> (r: Self)
        ensures
            is_dictionary_of(r, row),
    {
        let options = split_list(row.options.as_str());
        TextSearchDict {
            schema: row.schema,
            name: row.name,
            owner: row.owner,
            template: row.template,
            options,
            comment: row.comment,
            hash: None,
        }
    }
}

} // verus!
