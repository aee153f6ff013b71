//! The decision core of a shim that lets an application written against SQLite
//! run on PostgreSQL.

pub mod text;

pub mod ffi_types;
pub mod conn_ownership;
pub mod reexecution;
pub mod statement_laws;

pub mod pg_client_config;
pub mod pg_client_registry;
pub mod pool;
pub mod pool_shrink;
pub mod pool_laws;
pub mod worker;

pub mod sql_lexer;
pub mod relexing;
pub mod lexer_laws;
pub mod keywords;
pub mod keyword_laws;
pub mod nocase;
pub mod nocase_laws;
pub mod pragma;
pub mod translate;
pub mod translate_laws;

pub mod runtime_linux;
pub mod shim_init;
pub mod tls_support;
pub mod startup_laws;
