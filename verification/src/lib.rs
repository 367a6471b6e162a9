//! Catalog model of a PostgreSQL database dump: what is asked of the catalog,
//! how the answers become objects, and the script that drops those objects
//! again in an order their dependencies allow.

pub mod archive;
pub mod clear;
pub mod config;
pub mod defaults;
pub mod drop_order;
pub mod dump;
pub mod foreign_tables;
pub mod grouping;
pub mod objects;
pub mod order;
pub mod publications;
pub mod queries;
pub mod query_laws;
pub mod routines;
pub mod row_laws;
pub mod schemas;
pub mod script_laws;
pub mod script_lines;
pub mod script_statements;
pub mod sequences;
pub mod statistics;
pub mod table_order;
pub mod tables;
pub mod text;
pub mod text_laws;
pub mod text_search;
pub mod types;
pub mod view_laws;
pub mod view_permutation;
pub mod views;
