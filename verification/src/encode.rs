//! The request encoder: one JSON object with a single `statements` field
//! holding each statement's fragment, in submission order.

use vstd::prelude::*;

use crate::statement::Statement;
use crate::statement::spec_fragment;
use vstd::string::StringExecFns;

verus! {

/// The fragments joined with commas, in order.
pub open spec fn spec_join_fragments(frags: Seq<Seq<char>>) -> Seq<char>
    decreases frags.len(),
{
    if frags.len() == 0 {
        Seq::empty()
    } else if frags.len() == 1 {
        frags[0]
    } else {
        spec_join_fragments(frags.drop_last()) + ","@ + frags.last()
    }
}

/// The exact request body for a sequence of fragments: a JSON object whose
/// one field, `statements`, holds the fragments as an array. No statements
/// give the empty array.
pub open spec fn spec_batch_body(frags: Seq<Seq<char>>) -> Seq<char> {
    "{\"statements\": ["@ + spec_join_fragments(frags) + "]}"@
}

/// Encodes a batch of statements into the request body sent for them.
/// See [`spec_batch_body`]; each statement contributes its fragment
/// verbatim, per [`spec_fragment`].
pub fn encode_batch_body(stmts: &Vec<Statement>) -> (r: String)
    ensures
        r@ == spec_batch_body(stmts@.map_values(|s: Statement| spec_fragment(s@))),
{
    let mut body = String::from_str("{\"statements\": [");
    let n = stmts.len();
    for i in 0..n
        invariant
            n == stmts@.len(),
            body@ == "{\"statements\": ["@ + spec_join_fragments(
                stmts@.take(i as int).map_values(|s: Statement| spec_fragment(s@)),
            ),
    {
        if i > 0 {
            body.append(",");
        }
        let frag = stmts[i].fragment();
        body.append(frag.as_str());
        proof {
            let frags_pre = stmts@.take(i as int).map_values(|s: Statement| spec_fragment(s@));
            let frags_now = stmts@.take(i as int + 1).map_values(
                |s: Statement| spec_fragment(s@),
            );
            assert(frags_now.drop_last() =~= frags_pre);
            assert(frags_now.last() == spec_fragment(stmts@[i as int]@));
            if i == 0 {
                assert(body@ =~= "{\"statements\": ["@ + spec_join_fragments(frags_now));
            } else {
                assert(body@ =~= "{\"statements\": ["@ + spec_join_fragments(frags_now));
            }
        }
    }
    body.append("]}");
    proof {
        assert(stmts@.take(n as int) =~= stmts@);
        assert(body@ =~= spec_batch_body(stmts@.map_values(|s: Statement| spec_fragment(s@))));
    }
    body
}

} // verus!
