//! One SQL statement and the JSON fragment it contributes to a request.

use vstd::prelude::*;
use vstd::string::StringExecFns;

verus! {

/// One SQL statement, held as its text.
#[derive(Clone, Debug, PartialEq)]
pub struct Statement {
    pub sql: String,
}

impl View for Statement {
    type V = Seq<char>;

    open spec fn view(&self) -> Seq<char> {
        self.sql@
    }
}

/// The JSON fragment a statement contributes to the request body: the
/// statement text between string quotes, with nothing escaped. The encoder
/// splices this fragment into the request verbatim; the statement text is
/// trusted to already be valid inside a JSON string. That trust boundary
/// is deliberate and is not re-validated anywhere in this crate.
pub open spec fn spec_fragment(sql: Seq<char>) -> Seq<char> {
    "\""@ + sql + "\""@
}

impl Statement {
    pub fn new(sql: &str) -> (s: Statement)
        ensures
            s@ == sql@,
    {
        Statement { sql: String::from_str(sql) }
    }

    /// The fragment spliced into the request body for this statement.
    /// See [`spec_fragment`].
    pub fn fragment(&self) -> (r: String)
        ensures
            r@ == spec_fragment(self@),
    {
        let mut r = String::from_str("\"");
        r.append(self.sql.as_str());
        r.append("\"");
        r
    }
}

} // verus!
