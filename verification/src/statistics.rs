//! Extended statistics, and the columns that their definitions name.

use crate::defaults::{is_text_or_empty, text_or_empty};
use crate::dump::Dump;
use crate::objects::Statistic;
use crate::text::{
    ascii_upped, ascii_upper, chars_of, list_items, same_text, split_list, text_between, texts,
};
use vstd::prelude::*;

verus! {

broadcast use vstd::string::group_string_axioms;

/// Statistics as the catalog describes them.
#[derive(Debug, Clone, PartialEq, Eq)]
pub struct StatisticRow {
    pub schema: String,
    pub name: String,
    pub owner: Option<String>,
    pub table_schema: String,
    pub table_name: String,
    /// The letters of the kinds.
    pub kinds: Option<Vec<String>>,
    pub definition: String,
    pub comment: Option<String>,
    /// The target; below zero where there is none.
    pub target: Option<i32>,
}

/// The name of a kind of statistics that the catalog gives by its letter; a
/// letter that is not known stays.
pub open spec fn kind_name(letter: Seq<char>) -> Seq<char> {
    if letter == "d"@ {
        "ndistinct"@
    } else if letter == "f"@ {
        "dependencies"@
    } else if letter == "m"@ {
        "mcv"@
    } else if letter == "e"@ {
        "expressions"@
    } else {
        letter
    }
}

/// The names of kinds, in order.
pub open spec fn kind_names(letters: Option<Vec<String>>) -> Seq<Seq<char>> {
    match letters {
        Some(letters) => texts(letters@).map_values(|letter: Seq<char>| kind_name(letter)),
        None => Seq::empty(),
    }
}

/// `s` is what `row` describes. Its columns are those that the definition names.
pub open spec fn is_statistic_of(s: Statistic, row: StatisticRow) -> bool {
    &&& s.schema == row.schema
    &&& s.name == row.name
    &&& is_text_or_empty(s.owner, row.owner)
    &&& s.table_schema == row.table_schema
    &&& s.table_name == row.table_name
    &&& texts(s.kinds@) == kind_names(row.kinds)
    &&& texts(s.columns@) == columns_named(row.definition@)
    &&& s.definition == row.definition
    &&& s.comment == row.comment
    &&& s.stxstattarget == if row.target is Some && row.target->0 >= 0 {
        row.target
    } else {
        None
    }
    &&& s.hash is None
}

/// The name of a kind of statistics.
fn kind_of(letter: &str) -> (r: String)
    ensures
        r@ == kind_name(letter@),
{
    if same_text(letter, "d") {
        "ndistinct".to_string()
    } else if same_text(letter, "f") {
        "dependencies".to_string()
    } else if same_text(letter, "m") {
        "mcv".to_string()
    } else if same_text(letter, "e") {
        "expressions".to_string()
    } else {
        letter.to_string()
    }
}

/// The names of kinds, in order.
fn kinds_of(letters: Option<Vec<String>>) -> (r: Vec<String>)
    ensures
        texts(r@) == kind_names(letters),
{
    let letters = match letters {
        Some(letters) => letters,
        None => {
            let none: Vec<String> = Vec::new();
            assert(texts(none@) =~= Seq::empty());
            return none;
        },
    };
    let ghost names = texts(letters@).map_values(|letter: Seq<char>| kind_name(letter));
    let mut kinds: Vec<String> = Vec::new();
    let mut i: usize = 0;
    while i < letters.len()
        invariant
            i <= letters@.len(),
            kinds@.len() == i,
            names == texts(letters@).map_values(|letter: Seq<char>| kind_name(letter)),
            forall|k: int| 0 <= k < i ==> (#[trigger] kinds@[k])@ == names[k],
        decreases letters@.len() - i,
    {
        kinds.push(kind_of(letters[i].as_str()));
        i += 1;
    }
    assert(texts(kinds@) =~= names);
    kinds
}

impl Statistic {
    /// The statistics that a row describes.
    pub fn from_row(row: StatisticRow) -> (r: Self)
        ensures
            is_statistic_of(r, row),
    {
        let columns = Dump::parse_statistics_columns(row.definition.as_str());
        let stxstattarget: Option<i32> = match row.target {
            Some(target) => {
                if target < 0 {
                    None
                } else {
                    Some(target)
                }
            },
            None => None,
        };
        Statistic {
            schema: row.schema,
            name: row.name,
            owner: text_or_empty(row.owner),
            table_schema: row.table_schema,
            table_name: row.table_name,
            kinds: kinds_of(row.kinds),
            columns,
            definition: row.definition,
            comment: row.comment,
            stxstattarget,
            hash: None,
        }
    }
}

/// The first place from `k` on where `pattern` stands in `s`.
pub open spec fn find_from(s: Seq<char>, pattern: Seq<char>, k: int) -> Option<int>
    decreases s.len() + 1 - k,
{
    if k + pattern.len() > s.len() {
        None
    } else if s.subrange(k, k + pattern.len()) == pattern {
        Some(k)
    } else {
        find_from(s, pattern, k + 1)
    }
}

/// A text with its ASCII letters raised.
pub open spec fn ascii_raised(s: Seq<char>) -> Seq<char> {
    s.map_values(|c: char| ascii_upper(c))
}

/// The columns that the definition of extended statistics names: what stands
/// between the first `ON` and the next `FROM`, in any case of letters. There are
/// none where one of the two is missing.
pub open spec fn columns_named(def: Seq<char>) -> Seq<Seq<char>> {
    match find_from(ascii_raised(def), " ON "@, 0) {
        Some(k) => match find_from(ascii_raised(def.skip(k + 4)), " FROM "@, 0) {
            Some(m) => list_items(def.subrange(k + 4, k + 4 + m)),
            None => Seq::empty(),
        },
        None => Seq::empty(),
    }
}

/// The first place where `pattern` stands in `chars`.
fn find(chars: &Vec<char>, pattern: &Vec<char>) -> (r: Option<usize>)
    ensures
        match r {
            Some(k) => find_from(chars@, pattern@, 0) == Some(k as int) && k + pattern@.len()
                <= chars@.len(),
            None => find_from(chars@, pattern@, 0) is None,
        },
{
    if chars.len() < pattern.len() {
        return None;
    }
    let mut k: usize = 0;
    while k <= chars.len() - pattern.len()
        invariant
            pattern@.len() <= chars@.len(),
            k <= chars@.len() - pattern@.len() + 1,
            find_from(chars@, pattern@, 0) == find_from(chars@, pattern@, k as int),
        decreases chars@.len() + 1 - k,
    {
        if stands_at(chars, pattern, k) {
            return Some(k);
        }
        assert(pattern@.len() > 0) by {
            let part = chars@.subrange(k as int, k + pattern@.len());
            if pattern@.len() == 0 {
                assert(part =~= pattern@);
            }
        }
        k += 1;
    }
    None
}

/// Whether `pattern` stands in `chars` at `k`.
fn stands_at(chars: &Vec<char>, pattern: &Vec<char>, k: usize) -> (r: bool)
    requires
        k + pattern@.len() <= chars@.len(),
    ensures
        r == (chars@.subrange(k as int, k + pattern@.len()) == pattern@),
{
    let ghost part = chars@.subrange(k as int, k + pattern@.len());
    let end: usize = chars.len();
    let mut i: usize = 0;
    while i < pattern.len()
        invariant
            i <= pattern@.len(),
            k + pattern@.len() <= chars@.len() == end,
            part == chars@.subrange(k as int, k + pattern@.len()),
            forall|j: int| 0 <= j < i ==> part[j] == pattern@[j],
        decreases pattern@.len() - i,
    {
        if chars[k + i] != pattern[i] {
            assert(part[i as int] != pattern@[i as int]);
            return false;
        }
        i += 1;
    }
    assert(part =~= pattern@);
    true
}

/// The characters from `from` on, ASCII letters raised.
fn raised_from(chars: &Vec<char>, from: usize) -> (r: Vec<char>)
    requires
        from <= chars@.len(),
    ensures
        r@ == ascii_raised(chars@.skip(from as int)),
{
    let mut raised: Vec<char> = Vec::new();
    let mut i: usize = from;
    while i < chars.len()
        invariant
            from <= i <= chars@.len(),
            raised@ == ascii_raised(chars@.subrange(from as int, i as int)),
        decreases chars@.len() - i,
    {
        raised.push(ascii_upped(chars[i]));
        i += 1;
        assert(raised@ =~= ascii_raised(chars@.subrange(from as int, i as int)));
    }
    assert(chars@.subrange(from as int, i as int) =~= chars@.skip(from as int));
    raised
}

impl Dump {
    /// The columns that the definition of extended statistics names: what stands
    /// between `ON` and `FROM`, one by one.
    pub fn parse_statistics_columns(def: &str) -> (r: Vec<String>)
        ensures
            texts(r@) == columns_named(def@),
    {
        let chars = chars_of(def);
        let end: usize = chars.len();
        let on = chars_of(" ON ");
        let from = chars_of(" FROM ");
        proof {
            reveal_strlit(" ON ");
            assert(chars@.skip(0) =~= chars@);
            assert(ascii_raised(chars@).len() == end);
        }
        if let Some(k) = find(&raised_from(&chars, 0), &on) {
            let start: usize = k + 4;
            assert(ascii_raised(chars@.skip(start as int)).len() == end - start);
            if let Some(m) = find(&raised_from(&chars, start), &from) {
                let columns = text_between(&chars, start, start + m);
                return split_list(columns.as_str());
            }
        }
        let none: Vec<String> = Vec::new();
        assert(texts(none@) =~= Seq::empty());
        none
    }
}

} // verus!
