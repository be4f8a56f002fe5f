//! The engine of FastDB: it splits SQL scripts of any size into
//! statements, says how each statement is to be executed, keeps one pool of
//! connections for each server and the statements in flight that can be
//! cancelled, and keeps the metadata store.
//!
//! The library decides and computes; it neither reads files nor talks to a
//! server. [`lexer`] is the statement splitter, a state machine over
//! characters; [`script`] states what a whole script yields and what holds
//! of it, and [`grammar`] states the lexical rules by position and shows
//! that the splitter follows them. [`sql`] reads the leading keyword of a statement,
//! [`postgres`] holds the pools and the cancellation registry and plans an
//! execution, [`commands`] and [`export`] work out what the shell reports
//! and writes, [`db`] and [`schema`] keep the metadata store, and [`error`]
//! names the failures. [`text`], [`registry`], [`rows`] and [`records`] are
//! what the others are built on.
pub mod commands;
pub mod db;
pub mod error;
pub mod export;
pub mod grammar;
pub mod lexer;
pub mod postgres;
pub mod records;
pub mod registry;
pub mod rows;
pub mod schema;
pub mod script;
pub mod sql;
pub mod text;
