//! Functions, procedures, aggregates and window functions.

use crate::defaults::{
    drop_text, is_list_or_empty, is_text_or_empty, list_or_empty, text_or_empty, unless_text,
};
use crate::objects::{AggregateInfo, Routine};
use crate::text::{
    chars_of, contains_crlf, has_crlf, line_endings_normalized, normalize_line_endings, same_text,
};
use vstd::prelude::*;

verus! {

broadcast use vstd::string::group_string_axioms;

/// An aggregate as the catalog describes it.
#[derive(Debug, Clone, PartialEq, Eq)]
pub struct AggregateRow {
    pub sfunc: Option<String>,
    pub stype: Option<String>,
    pub sspace: Option<i32>,
    pub finalfunc: Option<String>,
    pub finalfunc_extra: Option<bool>,
    pub finalfunc_modify: Option<String>,
    pub combinefunc: Option<String>,
    pub serialfunc: Option<String>,
    pub deserialfunc: Option<String>,
    pub initcond: Option<String>,
    pub msfunc: Option<String>,
    pub minvfunc: Option<String>,
    pub mstype: Option<String>,
    pub msspace: Option<i32>,
    pub mfinalfunc: Option<String>,
    pub mfinalfunc_extra: Option<bool>,
    pub mfinalfunc_modify: Option<String>,
    pub minitcond: Option<String>,
    pub sortop: Option<String>,
    pub kind: Option<String>,
    pub num_direct_args: Option<i16>,
}

/// A routine as the catalog describes it.
#[derive(Debug, Clone, PartialEq, Eq)]
pub struct RoutineRow {
    pub schema: String,
    pub oid: u32,
    pub name: String,
    pub lang: String,
    pub kind: String,
    pub return_type: Option<String>,
    pub arguments: String,
    pub arguments_defaults: Option<String>,
    pub owner: Option<String>,
    pub comment: Option<String>,
    /// The source code, with the line endings it was written with.
    pub source_code: String,
    /// `i` for immutable, `s` for stable.
    pub volatility: String,
    pub is_strict: bool,
    pub is_leakproof: bool,
    /// `s` for safe, `r` for restricted.
    pub parallel: String,
    pub security_definer: bool,
    pub config: Option<Vec<String>>,
    /// What the catalog says of an aggregate; of other routines nothing.
    pub aggregate: AggregateRow,
    /// The cost, as the bits of a double-precision number.
    pub cost_bits: Option<u64>,
    /// The row estimate, as the bits of a double-precision number.
    pub rows_bits: Option<u64>,
    pub support_function: Option<String>,
    pub transform_types: Option<Vec<String>>,
    pub acl: Option<Vec<String>>,
}

/// The name of a volatility that the catalog gives by its letter.
pub open spec fn volatility_name(code: Seq<char>) -> Seq<char> {
    if code == "i"@ {
        "immutable"@
    } else if code == "s"@ {
        "stable"@
    } else {
        "volatile"@
    }
}

/// The name of a parallel safety that the catalog gives by its letter.
pub open spec fn parallel_name(code: Seq<char>) -> Seq<char> {
    if code == "s"@ {
        "safe"@
    } else if code == "r"@ {
        "restricted"@
    } else {
        "unsafe"@
    }
}

/// The first character of the kind, and `n` where there is none.
pub open spec fn aggregate_kind(kind: Option<String>) -> char {
    if kind is Some && kind->0@.len() > 0 {
        kind->0@[0]
    } else {
        'n'
    }
}

/// The bits of a double-precision number; not those of a value that is none.
pub open spec fn is_number(bits: u64) -> bool {
    bits % 0x8000_0000_0000_0000 <= 0x7ff0_0000_0000_0000
}

/// The bits of a double-precision number above zero.
pub open spec fn is_positive(bits: u64) -> bool {
    0 < bits <= 0x7ff0_0000_0000_0000
}

/// The bits of the numbers that count as the default cost of a language: for
/// C and internal routines those no further from one than the machine epsilon,
/// for others one hundred.
pub open spec fn is_default_cost(lang: Seq<char>, bits: u64) -> bool {
    if lang == "c"@ || lang == "internal"@ {
        0x3fef_ffff_ffff_fffe <= bits <= 0x3ff0_0000_0000_0001
    } else {
        bits == 0x4059_0000_0000_0000
    }
}

/// The cost that is kept: not of procedures, and not the default.
pub open spec fn kept_cost(kind: Seq<char>, lang: Seq<char>, cost_bits: Option<u64>) -> Option<u64> {
    if cost_bits is Some && kind != "procedure"@ && is_number(cost_bits->0) && !is_default_cost(
        lang,
        cost_bits->0,
    ) {
        cost_bits
    } else {
        None
    }
}

/// The row estimate that is kept: not of procedures, and only above zero.
pub open spec fn kept_rows(kind: Seq<char>, rows_bits: Option<u64>) -> Option<u64> {
    if rows_bits is Some && kind != "procedure"@ && is_positive(rows_bits->0) {
        rows_bits
    } else {
        None
    }
}

/// `info` is what `row` describes.
pub open spec fn is_aggregate_of(info: AggregateInfo, row: AggregateRow) -> bool {
    &&& is_text_or_empty(info.sfunc, row.sfunc)
    &&& is_text_or_empty(info.stype, row.stype)
    &&& info.sspace == row.sspace
    &&& info.finalfunc == row.finalfunc
    &&& info.finalfunc_extra == (row.finalfunc_extra == Some(true))
    &&& info.finalfunc_modify == unless_text(row.finalfunc_modify, "r"@)
    &&& info.combinefunc == row.combinefunc
    &&& info.serialfunc == row.serialfunc
    &&& info.deserialfunc == row.deserialfunc
    &&& info.initcond == row.initcond
    &&& info.msfunc == row.msfunc
    &&& info.minvfunc == row.minvfunc
    &&& info.mstype == row.mstype
    &&& info.msspace == row.msspace
    &&& info.mfinalfunc == row.mfinalfunc
    &&& info.mfinalfunc_extra == (row.mfinalfunc_extra == Some(true))
    &&& info.mfinalfunc_modify == unless_text(row.mfinalfunc_modify, "r"@)
    &&& info.minitcond == row.minitcond
    &&& info.sortop == row.sortop
    &&& info.kind == aggregate_kind(row.kind)
    &&& info.num_direct_args == match row.num_direct_args {
        Some(n) => n,
        None => 0,
    }
}

/// `routine` is what `row` describes.
pub open spec fn is_routine_of(routine: Routine, row: RoutineRow) -> bool {
    &&& routine.schema == row.schema
    &&& routine.oid == row.oid
    &&& routine.name == row.name
    &&& routine.lang == row.lang
    &&& routine.kind == row.kind
    &&& match row.return_type {
        Some(t) => routine.return_type == t,
        None => routine.return_type@ == "void"@,
    }
    &&& routine.arguments == row.arguments
    &&& routine.arguments_defaults == row.arguments_defaults
    &&& is_text_or_empty(routine.owner, row.owner)
    &&& routine.comment == row.comment
    &&& routine.source_code@ == line_endings_normalized(row.source_code@)
    &&& routine.volatility@ == volatility_name(row.volatility@)
    &&& routine.is_strict == row.is_strict
    &&& routine.is_leakproof == row.is_leakproof
    &&& routine.parallel@ == parallel_name(row.parallel@)
    &&& routine.security_definer == row.security_definer
    &&& is_list_or_empty(routine.config, row.config)
    &&& routine.aggregate_info is Some <==> row.kind@ == "aggregate"@
    &&& routine.aggregate_info matches Some(info) ==> is_aggregate_of(info, row.aggregate)
    &&& routine.cost_bits == kept_cost(row.kind@, row.lang@, row.cost_bits)
    &&& routine.rows_bits == kept_rows(row.kind@, row.rows_bits)
    &&& routine.support_function == row.support_function
    &&& is_list_or_empty(routine.transform_types, row.transform_types)
    &&& is_list_or_empty(routine.acl, row.acl)
    &&& routine.hash is None
}

/// The name of a volatility.
fn volatility_of(code: &str) -> (r: String)
    ensures
        r@ == volatility_name(code@),
{
    if same_text(code, "i") {
        "immutable".to_string()
    } else if same_text(code, "s") {
        "stable".to_string()
    } else {
        "volatile".to_string()
    }
}

/// The name of a parallel safety.
fn parallel_of(code: &str) -> (r: String)
    ensures
        r@ == parallel_name(code@),
{
    if same_text(code, "s") {
        "safe".to_string()
    } else if same_text(code, "r") {
        "restricted".to_string()
    } else {
        "unsafe".to_string()
    }
}

/// The first character of the kind, and `n` where there is none.
fn aggregate_kind_of(kind: &Option<String>) -> (r: char)
    ensures
        r == aggregate_kind(*kind),
{
    match kind {
        Some(text) => {
            let chars = chars_of(text.as_str());
            if chars.is_empty() {
                'n'
            } else {
                chars[0]
            }
        },
        None => 'n',
    }
}

/// The cost that is kept.
pub fn cost_to_keep(kind: &str, lang: &str, cost_bits: Option<u64>) -> (r: Option<u64>)
    ensures
        r == kept_cost(kind@, lang@, cost_bits),
{
    match cost_bits {
        Some(bits) => {
            let low: bool = same_text(lang, "c") || same_text(lang, "internal");
            let usual: bool = if low {
                0x3fef_ffff_ffff_fffe <= bits && bits <= 0x3ff0_0000_0000_0001
            } else {
                bits == 0x4059_0000_0000_0000
            };
            let number: bool = bits % 0x8000_0000_0000_0000 <= 0x7ff0_0000_0000_0000;
            if !same_text(kind, "procedure") && number && !usual {
                Some(bits)
            } else {
                None
            }
        },
        None => None,
    }
}

/// The row estimate that is kept.
pub fn rows_to_keep(kind: &str, rows_bits: Option<u64>) -> (r: Option<u64>)
    ensures
        r == kept_rows(kind@, rows_bits),
{
    match rows_bits {
        Some(bits) => {
            if !same_text(kind, "procedure") && 0 < bits && bits <= 0x7ff0_0000_0000_0000 {
                Some(bits)
            } else {
                None
            }
        },
        None => None,
    }
}

impl AggregateInfo {
    /// The aggregate that a row describes.
    pub fn from_row(row: AggregateRow) -> (r: Self)
        ensures
            is_aggregate_of(r, row),
    {
        let kind = aggregate_kind_of(&row.kind);
        AggregateInfo {
            sfunc: text_or_empty(row.sfunc),
            stype: text_or_empty(row.stype),
            sspace: row.sspace,
            finalfunc: row.finalfunc,
            finalfunc_extra: row.finalfunc_extra.unwrap_or(false),
            finalfunc_modify: drop_text(row.finalfunc_modify, "r"),
            combinefunc: row.combinefunc,
            serialfunc: row.serialfunc,
            deserialfunc: row.deserialfunc,
            initcond: row.initcond,
            msfunc: row.msfunc,
            minvfunc: row.minvfunc,
            mstype: row.mstype,
            msspace: row.msspace,
            mfinalfunc: row.mfinalfunc,
            mfinalfunc_extra: row.mfinalfunc_extra.unwrap_or(false),
            mfinalfunc_modify: drop_text(row.mfinalfunc_modify, "r"),
            minitcond: row.minitcond,
            sortop: row.sortop,
            kind,
            num_direct_args: row.num_direct_args.unwrap_or(0),
        }
    }
}

impl Routine {
    /// The routine that a row describes: letters are written out, line endings
    /// are normalized, and what is the default is left out.
    pub fn from_row(row: RoutineRow) -> (r: Self)
        ensures
            is_routine_of(r, row),
    {
        let volatility = volatility_of(row.volatility.as_str());
        let parallel = parallel_of(row.parallel.as_str());
        let aggregate_info: Option<AggregateInfo> = if same_text(row.kind.as_str(), "aggregate") {
            Some(AggregateInfo::from_row(row.aggregate))
        } else {
            None
        };
        let cost_bits = cost_to_keep(row.kind.as_str(), row.lang.as_str(), row.cost_bits);
        let rows_bits = rows_to_keep(row.kind.as_str(), row.rows_bits);
        let return_type: String = match row.return_type {
            Some(t) => t,
            None => "void".to_string(),
        };
        Routine {
            schema: row.schema,
            oid: row.oid,
            name: row.name,
            lang: row.lang,
            kind: row.kind,
            return_type,
            arguments: row.arguments,
            arguments_defaults: row.arguments_defaults,
            owner: text_or_empty(row.owner),
            comment: row.comment,
            source_code: normalize_line_endings(row.source_code.as_str()),
            volatility,
            is_strict: row.is_strict,
            is_leakproof: row.is_leakproof,
            parallel,
            security_definer: row.security_definer,
            config: list_or_empty(row.config),
            aggregate_info,
            cost_bits,
            rows_bits,
            support_function: row.support_function,
            transform_types: list_or_empty(row.transform_types),
            acl: list_or_empty(row.acl),
            hash: None,
        }
    }
}

/// The routine with its line endings normalized.
pub open spec fn is_normalized(after: Routine, before: Routine) -> bool {
    &&& after.source_code@ == line_endings_normalized(before.source_code@)
    &&& after == (Routine { source_code: after.source_code, ..before })
}

/// Normalizes the line endings in the source code of routines, so that the same
/// code has the same fingerprint however its lines end. Gives the places of the
/// routines that changed: exactly those with a CR LF line ending.
pub fn normalize_routines(routines: &mut Vec<Routine>) -> (changed: Vec<usize>)
    ensures
        final(routines)@.len() == old(routines)@.len(),
        forall|i: int|
            0 <= i < old(routines)@.len() ==> if has_crlf(old(routines)@[i].source_code@) {
                is_normalized(#[trigger] final(routines)@[i], old(routines)@[i])
            } else {
                final(routines)@[i] == old(routines)@[i]
            },
        forall|k: int, l: int| 0 <= k < l < changed@.len() ==> changed@[k] < changed@[l],
        forall|i: usize|
            #[trigger] changed@.contains(i) <==> i < old(routines)@.len() && has_crlf(
                old(routines)@[i as int].source_code@,
            ),
{
    let ghost all = routines@;
    let mut changed: Vec<usize> = Vec::new();
    let mut n: usize = 0;
    while n < routines.len()
        invariant
            n <= routines@.len() == all.len(),
            forall|i: int| n <= i < all.len() ==> #[trigger] routines@[i] == all[i],
            forall|i: int|
                0 <= i < n ==> if has_crlf(all[i].source_code@) {
                    is_normalized(#[trigger] routines@[i], all[i])
                } else {
                    routines@[i] == all[i]
                },
            forall|k: int, l: int| 0 <= k < l < changed@.len() ==> changed@[k] < changed@[l],
            forall|k: int| 0 <= k < changed@.len() ==> #[trigger] changed@[k] < n,
            forall|i: usize|
                #[trigger] changed@.contains(i) <==> i < n && has_crlf(all[i as int].source_code@),
        decreases routines@.len() - n,
    {
        let ghost before = changed@;
        if contains_crlf(routines[n].source_code.as_str()) {
            let text = normalize_line_endings(routines[n].source_code.as_str());
            routines[n].source_code = text;
            changed.push(n);
        }
        proof {
            assert forall|i: usize| #[trigger] changed@.contains(i) <==> i < n + 1 && has_crlf(
                all[i as int].source_code@,
            ) by {
                if changed@.len() > before.len() {
                    assert(changed@[before.len() as int] == n);
                    if before.contains(i) {
                        let k = before.index_of(i);
                        assert(changed@[k] == i);
                    }
                    if changed@.contains(i) && i != n {
                        let k = changed@.index_of(i);
                        assert(before[k] == i);
                    }
                }
            }
        }
        n += 1;
    }
    changed
}

} // verus!
