//! Typed construction of MongoDB query filters.
//!
//! A filter is built as a value of [`filter::Filter`], collected into an
//! ordered [`filter::FilterDoc`], and encoded into the nested document shape
//! that the database reads: a [`value::StructuredValue`], which a
//! serializer turns into bytes. Sets of BSON types and of regular expression
//! options are encoded as the aliases and letters that the database knows,
//! and decoded from them.
//!
//! Every function carries a contract that Verus checks, and the `laws`
//! modules hold what is proved of the encodings as a whole.

pub mod bson_type;
pub mod doc;
pub mod error;
pub mod filter;
pub mod raw;
pub mod regex_opts;
pub mod value;
