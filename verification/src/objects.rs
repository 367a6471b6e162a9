//! The database objects that a dump holds.
//!
//! A `hash` is a fingerprint of the other fields. It is absent until somebody
//! computes it.

use vstd::prelude::*;

verus! {

/// A schema that the dump may read.
#[derive(Debug, Clone, PartialEq, Eq)]
pub struct Schema {
    /// The name as SQL writes it, quoted where it has to be.
    pub name: String,
    /// The name as the catalog stores it.
    pub raw_name: String,
    pub owner: String,
    pub comment: Option<String>,
    pub acl: Vec<String>,
    pub hash: Option<String>,
}

/// An installed extension.
#[derive(Debug, Clone, PartialEq, Eq)]
pub struct Extension {
    pub name: String,
    pub version: String,
    pub schema: String,
    pub owner: String,
}

/// One attribute of a composite type.
#[derive(Debug, Clone, PartialEq, Eq)]
pub struct CompositeAttribute {
    pub name: String,
    pub data_type: String,
}

/// One check constraint of a domain.
#[derive(Debug, Clone, PartialEq, Eq)]
pub struct DomainConstraint {
    pub name: String,
    pub definition: String,
}

/// A domain, enum, range, multirange or composite type.
#[derive(Debug, Clone, PartialEq, Eq)]
pub struct PgType {
    pub oid: u32,
    pub schema: String,
    pub typname: String,
    pub typnamespace: u32,
    pub typowner: u32,
    pub owner: String,
    pub typlen: i16,
    pub typbyval: bool,
    pub typtype: i8,
    pub typcategory: i8,
    pub typispreferred: bool,
    pub typisdefined: bool,
    pub typdelim: i8,
    pub typrelid: Option<u32>,
    pub typsubscript: Option<String>,
    pub typelem: Option<u32>,
    pub typarray: Option<u32>,
    pub typinput: String,
    pub typoutput: String,
    pub typreceive: Option<String>,
    pub typsend: Option<String>,
    pub typmodin: Option<String>,
    pub typmodout: Option<String>,
    pub typanalyze: Option<String>,
    pub typalign: i8,
    pub typstorage: i8,
    pub typnotnull: bool,
    pub typbasetype: Option<u32>,
    pub typtypmod: Option<i32>,
    pub typndims: i32,
    pub typcollation: Option<u32>,
    pub typdefault: Option<String>,
    pub formatted_basetype: Option<String>,
    pub domain_collation_name: Option<String>,
    pub comment: Option<String>,
    pub acl: Vec<String>,
    pub enum_labels: Vec<String>,
    pub domain_constraints: Vec<DomainConstraint>,
    pub composite_attributes: Vec<CompositeAttribute>,
    pub range_subtype: Option<String>,
    pub range_collation: Option<String>,
    pub range_opclass: Option<String>,
    pub range_canonical: Option<String>,
    pub range_subdiff: Option<String>,
    pub multirange_name: Option<String>,
    pub hash: Option<String>,
}

/// One label of an enum type.
#[derive(Debug, Clone, PartialEq, Eq)]
pub struct PgEnum {
    pub oid: u32,
    pub enumtypid: u32,
    /// The sort order, as the bits of a single-precision number.
    pub enumsortorder_bits: u32,
    pub enumlabel: String,
}

/// A sequence.
#[derive(Debug, Clone, PartialEq, Eq)]
pub struct Sequence {
    pub schema: String,
    pub name: String,
    pub owner: String,
    pub data_type: String,
    pub start_value: Option<i64>,
    pub min_value: Option<i64>,
    pub max_value: Option<i64>,
    pub increment_by: Option<i64>,
    pub cycle: bool,
    pub cache_size: Option<i64>,
    pub last_value: Option<i64>,
    pub owned_by_schema: Option<String>,
    pub owned_by_table: Option<String>,
    pub owned_by_column: Option<String>,
    pub is_identity: bool,
    pub is_unlogged: bool,
    pub comment: Option<String>,
    pub acl: Vec<String>,
    pub hash: Option<String>,
}

/// What an aggregate is made of.
#[derive(Debug, Clone, PartialEq, Eq)]
pub struct AggregateInfo {
    pub sfunc: String,
    pub stype: String,
    pub sspace: Option<i32>,
    pub finalfunc: Option<String>,
    pub finalfunc_extra: bool,
    pub finalfunc_modify: Option<String>,
    pub combinefunc: Option<String>,
    pub serialfunc: Option<String>,
    pub deserialfunc: Option<String>,
    pub initcond: Option<String>,
    pub msfunc: Option<String>,
    pub minvfunc: Option<String>,
    pub mstype: Option<String>,
    pub msspace: Option<i32>,
    pub mfinalfunc: Option<String>,
    pub mfinalfunc_extra: bool,
    pub mfinalfunc_modify: Option<String>,
    pub minitcond: Option<String>,
    pub sortop: Option<String>,
    pub kind: char,
    pub num_direct_args: i16,
}

/// A function, procedure, aggregate or window function.
#[derive(Debug, Clone, PartialEq, Eq)]
pub struct Routine {
    pub schema: String,
    pub oid: u32,
    pub name: String,
    pub lang: String,
    pub kind: String,
    pub return_type: String,
    pub arguments: String,
    pub arguments_defaults: Option<String>,
    pub owner: String,
    pub comment: Option<String>,
    pub source_code: String,
    pub volatility: String,
    pub is_strict: bool,
    pub is_leakproof: bool,
    pub parallel: String,
    pub security_definer: bool,
    pub config: Vec<String>,
    pub aggregate_info: Option<AggregateInfo>,
    /// The cost where it is not the default, as the bits of a double-precision number.
    pub cost_bits: Option<u64>,
    /// The row estimate where there is one, as the bits of a double-precision number.
    pub rows_bits: Option<u64>,
    pub support_function: Option<String>,
    pub transform_types: Vec<String>,
    pub acl: Vec<String>,
    pub hash: Option<String>,
}

/// A constraint of a table.
#[derive(Debug, Clone, PartialEq, Eq)]
pub struct TableConstraint {
    pub catalog: String,
    pub schema: String,
    pub name: String,
    pub table_name: String,
    pub constraint_type: String,
    pub is_deferrable: bool,
    pub initially_deferred: bool,
    pub definition: Option<String>,
    pub coninhcount: i32,
    pub is_enforced: bool,
    pub no_inherit: bool,
    pub nulls_not_distinct: bool,
    pub comment: Option<String>,
}

/// A table.
#[derive(Debug, Clone, PartialEq, Eq)]
pub struct Table {
    pub schema: String,
    pub name: String,
    pub raw_schema: String,
    pub raw_name: String,
    pub owner: String,
    pub space: Option<String>,
    pub has_indexes: bool,
    pub has_triggers: bool,
    pub has_rules: bool,
    pub has_rowsecurity: bool,
    /// The columns, each as one text.
    pub columns: Vec<String>,
    pub constraints: Vec<TableConstraint>,
    /// The indexes, each as one text.
    pub indexes: Vec<String>,
    /// The triggers, each as one text.
    pub triggers: Vec<String>,
    /// The row security policies, each as one text.
    pub policies: Vec<String>,
    pub definition: Option<String>,
    pub partition_key: Option<String>,
    /// The parent, where the table is a partition.
    pub partition_of: Option<String>,
    pub partition_bound: Option<String>,
    pub comment: Option<String>,
    pub access_method: Option<String>,
    pub is_unlogged: bool,
    pub storage_parameters: Option<Vec<String>>,
    pub replica_identity: Option<String>,
    pub force_rowsecurity: bool,
    pub inherits_from: Vec<String>,
    pub typed_table_type: Option<String>,
    pub acl: Vec<String>,
    pub hash: Option<String>,
}

/// A view or a materialized view.
#[derive(Debug, Clone, PartialEq, Eq)]
pub struct View {
    pub schema: String,
    pub name: String,
    pub definition: String,
    /// The qualified names of the tables and views that the view reads.
    pub table_relation: Vec<String>,
    pub owner: String,
    pub comment: Option<String>,
    pub is_materialized: bool,
    pub security_invoker: bool,
    pub check_option: Option<String>,
    /// Columns and their comments.
    pub column_comments: Vec<(String, String)>,
    pub storage_parameters: Option<Vec<String>>,
    pub tablespace: Option<String>,
    pub acl: Vec<String>,
    pub hash: Option<String>,
}

/// One column of a foreign table.
#[derive(Debug, Clone, PartialEq, Eq)]
pub struct ForeignTableColumn {
    pub name: String,
    pub data_type: String,
    pub is_nullable: bool,
    pub column_default: Option<String>,
    pub options: Vec<String>,
}

/// A foreign table.
#[derive(Debug, Clone, PartialEq, Eq)]
pub struct ForeignTable {
    pub schema: String,
    pub name: String,
    pub server: String,
    pub owner: String,
    pub options: Vec<String>,
    pub columns: Vec<ForeignTableColumn>,
    pub comment: Option<String>,
    pub acl: Vec<String>,
    pub hash: Option<String>,
}

/// Extended statistics.
#[derive(Debug, Clone, PartialEq, Eq)]
pub struct Statistic {
    pub schema: String,
    pub name: String,
    pub owner: String,
    pub table_schema: String,
    pub table_name: String,
    pub kinds: Vec<String>,
    pub columns: Vec<String>,
    pub definition: String,
    pub comment: Option<String>,
    pub stxstattarget: Option<i32>,
    pub hash: Option<String>,
}

/// A rewrite rule.
#[derive(Debug, Clone, PartialEq, Eq)]
pub struct Rule {
    pub schema: String,
    pub table_name: String,
    pub rule_name: String,
    pub definition: String,
    pub comment: Option<String>,
    pub hash: Option<String>,
}

/// An event trigger.
#[derive(Debug, Clone, PartialEq, Eq)]
pub struct EventTrigger {
    pub name: String,
    pub event: String,
    pub function_name: String,
    pub tags: Vec<String>,
    pub enabled: String,
    pub owner: Option<String>,
    pub comment: Option<String>,
    pub hash: Option<String>,
}

/// A collation.
#[derive(Debug, Clone, PartialEq, Eq)]
pub struct Collation {
    pub schema: String,
    pub name: String,
    pub owner: String,
    pub provider: String,
    pub locale: Option<String>,
    pub lc_collate: Option<String>,
    pub lc_ctype: Option<String>,
    pub icu_locale: Option<String>,
    pub icu_rules: Option<String>,
    pub deterministic: bool,
    pub comment: Option<String>,
    pub hash: Option<String>,
}

/// A text search configuration.
#[derive(Debug, Clone, PartialEq, Eq)]
pub struct TextSearchConfig {
    pub schema: String,
    pub name: String,
    pub owner: String,
    pub parser: String,
    /// One entry `token:dictionaries` per mapped token type.
    pub mappings: Vec<String>,
    pub comment: Option<String>,
    pub hash: Option<String>,
}

/// A text search dictionary.
#[derive(Debug, Clone, PartialEq, Eq)]
pub struct TextSearchDict {
    pub schema: String,
    pub name: String,
    pub owner: String,
    pub template: String,
    pub options: Vec<String>,
    pub comment: Option<String>,
    pub hash: Option<String>,
}

/// A cast between two types.
#[derive(Debug, Clone, PartialEq, Eq)]
pub struct Cast {
    pub source_type: String,
    pub target_type: String,
    pub cast_method: String,
    pub function_name: Option<String>,
    pub cast_context: String,
    pub comment: Option<String>,
    pub hash: Option<String>,
}

/// An operator.
#[derive(Debug, Clone, PartialEq, Eq)]
pub struct Operator {
    pub schema: String,
    pub name: String,
    pub owner: String,
    pub left_type: Option<String>,
    pub right_type: Option<String>,
    pub result_type: String,
    pub procedure: String,
    pub commutator: Option<String>,
    pub negator: Option<String>,
    pub restrict: Option<String>,
    pub join: Option<String>,
    pub is_hashes: bool,
    pub is_merges: bool,
    pub comment: Option<String>,
    pub hash: Option<String>,
}

/// Default privileges of a role.
#[derive(Debug, Clone, PartialEq, Eq)]
pub struct DefaultPrivilege {
    pub role_name: String,
    pub schema_name: String,
    pub object_type: String,
    pub acl: Vec<String>,
    pub hash: Option<String>,
}

/// A publication.
#[derive(Debug, Clone, PartialEq, Eq)]
pub struct Publication {
    pub name: String,
    pub owner: String,
    pub all_tables: bool,
    pub publish: String,
    pub tables: Vec<String>,
    pub comment: Option<String>,
    pub hash: Option<String>,
}

/// A subscription.
#[derive(Debug, Clone, PartialEq, Eq)]
pub struct Subscription {
    pub name: String,
    pub owner: String,
    pub connection: String,
    pub publications: Vec<String>,
    pub enabled: bool,
    pub comment: Option<String>,
    pub hash: Option<String>,
}

/// A foreign-data wrapper.
#[derive(Debug, Clone, PartialEq, Eq)]
pub struct ForeignDataWrapper {
    pub name: String,
    pub owner: String,
    pub handler_func: Option<String>,
    pub validator_func: Option<String>,
    pub options: Vec<String>,
    pub comment: Option<String>,
    pub hash: Option<String>,
}

/// A foreign server.
#[derive(Debug, Clone, PartialEq, Eq)]
pub struct ForeignServer {
    pub name: String,
    pub owner: String,
    pub fdw_name: String,
    pub server_type: Option<String>,
    pub server_version: Option<String>,
    pub options: Vec<String>,
    pub comment: Option<String>,
    pub hash: Option<String>,
}

/// A user mapping of a foreign server.
#[derive(Debug, Clone, PartialEq, Eq)]
pub struct UserMapping {
    pub server_name: String,
    pub username: String,
    pub options: Vec<String>,
    pub hash: Option<String>,
}

} // verus!
