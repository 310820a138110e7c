//! Persistence core of a small todo application: the entity, the four
//! parameterized statements of its repository, the decoding and ordering of
//! listed rows, the schema and the settings of the connection pool, each with
//! a proved contract.

pub mod config;
pub mod listing;
pub mod migration;
pub mod row;
pub mod statement;
pub mod todo;
