//! Compilers from parsed expressions to their targets.
pub mod evaluate;
pub mod hasura;
pub mod mysql;
pub mod postgres;
pub mod sql;
pub mod sqlite;
