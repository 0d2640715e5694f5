//! A typed client core for a SQL-over-HTTP database service.
//!
//! One or more SQL statements are encoded into a single JSON request body;
//! the service's JSON response — one entry per statement — is validated and
//! converted back into typed per-statement outcomes. The encoding, the
//! decoding and the transaction framing are pure and carry contracts; the
//! network transport itself lives outside this crate and only hands bytes
//! in and out.

pub mod cell_value;
pub mod connection;
pub mod decode;
pub mod encode;
pub mod json;
pub mod results;
pub mod statement;

pub use cell_value::CellValue;
pub use connection::Connection;
pub use connection::transaction_outcomes;
pub use connection::transaction_statements;
pub use decode::DecodeError;
pub use decode::decode_batch_response;
pub use decode::decode_execute_response;
pub use encode::encode_batch_body;
pub use results::Meta;
pub use results::QueryResult;
pub use results::ResultSet;
pub use results::Row;
pub use statement::Statement;
