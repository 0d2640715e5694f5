//! The connection façade's pure core: the endpoint handle and the
//! transaction framing.
//!
//! The network call itself — one HTTP POST of the encoded body to the
//! connection's URL per batch — happens outside this crate; it hands the
//! raw response bytes back to the decoder.

use vstd::prelude::*;

use crate::results::QueryResult;
use crate::statement::Statement;
use vstd::string::StringExecFns;

verus! {

/// A configured database endpoint. Immutable after construction and
/// holding no session state, so it is safe to clone and share across
/// calls.
#[derive(Clone, Debug)]
pub struct Connection {
    url: String,
}

impl View for Connection {
    type V = Seq<char>;

    closed spec fn view(&self) -> Seq<char> {
        self.url@
    }
}

impl Connection {
    /// Establishes a database connection handle.
    ///
    /// # Arguments
    /// * `url` - URL of the database endpoint
    pub fn connect(url: &str) -> (c: Connection)
        ensures
            c@ == url@,
    {
        Connection { url: String::from_str(url) }
    }

    /// The endpoint URL this connection was created with.
    pub fn url(&self) -> (r: &String)
        ensures
            r@ == self@,
    {
        &self.url
    }
}

/// The statement sequence a transaction issues: the caller's statements in
/// order, bracketed by a leading BEGIN sentinel and a trailing END
/// sentinel — exactly two statements more than the caller supplied.
/// Nested transactions are not supported: the supplied statements must not
/// themselves begin or end a transaction, and what happens if they do is
/// undefined.
pub fn transaction_statements(stmts: Vec<Statement>) -> (r: Vec<Statement>)
    ensures
        r@.len() == stmts@.len() + 2,
        r@[0]@ == "BEGIN"@,
        r@[r@.len() - 1]@ == "END"@,
        forall|i: int| 0 <= i < stmts@.len() ==> r@[i + 1] == stmts@[i],
{
    let mut r: Vec<Statement> = Vec::new();
    r.push(Statement::new("BEGIN"));
    let mut rest = stmts;
    r.append(&mut rest);
    r.push(Statement::new("END"));
    r
}

/// The outcomes a transaction returns: those of the caller's statements,
/// in order, with the first and last outcome — the BEGIN and END
/// sentinels' — discarded unconditionally. A sentinel outcome is dropped
/// even where it is an error: a failure to open or close the transaction
/// is not separately surfaced, a known limitation kept deliberately.
pub fn transaction_outcomes(results: Vec<QueryResult>) -> (r: Vec<QueryResult>)
    requires
        results@.len() >= 2,
    ensures
        r@ == results@.subrange(1, results@.len() - 1),
{
    let mut r = results;
    r.remove(0);
    r.pop();
    proof {
        assert(r@ =~= results@.subrange(1, results@.len() - 1));
    }
    r
}

} // verus!
