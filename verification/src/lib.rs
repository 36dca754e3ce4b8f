//! An in-memory relational engine: a typed table store and an executor for
//! `CREATE TABLE`, `DROP TABLE`, `INSERT` and `SELECT` statements.
//!
//! A [`Database`] is a catalog of [`Table`]s. [`Database::execute`] takes SQL
//! text, has the `sqlparser` crate parse it, carries the first statement over
//! into a [`SqlStatement`] and hands it to [`Database::execute_statement`].
//! What a statement does to the catalog and what it returns is the function
//! [`database::step`] of the catalog's contents and the statement; every
//! function of the engine is verified against the part of it that it computes.
//!
//! Numbers are exact: an integer is an `i64`, a float a decimal with an `i64`
//! mantissa and up to 18 fractional digits. Two numbers compare by value,
//! whichever of the two forms each has. A sum is exact as well, and `Null`
//! once it leaves that range.
//!
//! - [`value`]: scalar values and the typed comparison
//! - [`number`], [`text`]: numeric literals, and values written as text
//! - [`schema`], [`table`]: columns, rows and tables, and `INSERT`
//! - [`ast`]: statements and expressions
//! - [`eval`]: scalar expressions and conditions on one row
//! - [`aggregate`], [`group`]: `SUM`, `GROUP BY` and `HAVING`
//! - [`select`]: the `SELECT` pipeline over one table
//! - [`database`]: the catalog and the execution of statements
//! - [`guard`]: the texts that are kept from the parser
//! - [`syntax`], [`lower`]: the parser's syntax tree, and the way from SQL
//!   text to a [`SqlStatement`]
//! - [`result`], [`error`]: what a statement returns, and how it fails

pub mod aggregate;
pub mod ast;
pub mod database;
pub mod error;
pub mod eval;
pub mod group;
pub mod guard;
pub mod lower;
pub mod number;
pub mod result;
pub mod schema;
pub mod select;
pub mod syntax;
pub mod table;
pub mod text;
pub mod value;

pub use crate::ast::SqlStatement;
pub use crate::database::Database;
pub use crate::error::{DbError, DbResult, ErrorKind};
pub use crate::result::{QueryResult, SelectResult, SelectResultResponse};
pub use crate::schema::{ColumnConstraint, ColumnDefinition, DataType, TableConstraint};
pub use crate::table::{Row, Table};
pub use crate::value::Value;
