//! Rendering an edit script or a match-matrix failure into a
//! [`Description`].  Rendering is a pure function of its input:
//! identical inputs give identical text.

use vstd::prelude::*;
use vstd::string::StringExecFns;

use crate::decimal::dec_str;
use crate::decimal::render_u64;
use crate::description::Description;
use crate::edit_distance::Edit;
use crate::edit_distance::script_cost;

verus! {

/// The rendered line of one edit operation: an unchanged element
/// shows plainly; a deleted one is annotated as unexpected; an
/// inserted one as missing; a substituted pair shows both sides.
pub open spec fn edit_line(e: Edit) -> Seq<char> {
    match e {
        Edit::Copy { value } => dec_str(value as int),
        Edit::Delete { actual } => "unexpected: "@ + dec_str(actual as int),
        Edit::Insert { expected } => "missing: "@ + dec_str(expected as int),
        Edit::Substitute { actual, expected } => "actual "@ + dec_str(actual as int)
            + ", expected "@ + dec_str(expected as int),
    }
}

/// Render an edit script, one line per operation.
pub fn summarize_edit_script(script: &Vec<Edit>) -> (r: Description)
    ensures
        r@ == script@.map_values(|e: Edit| edit_line(e)),
{
    let mut r = Description::new();
    let mut k: usize = 0;
    proof {
        assert(r@ =~= script@.subrange(0, 0).map_values(|e: Edit| edit_line(e)));
    }
    while k < script.len()
        invariant
            k <= script@.len(),
            r@ == script@.subrange(0, k as int).map_values(|e: Edit| edit_line(e)),
        decreases script@.len() - k,
    {
        let line = match script[k] {
            Edit::Copy { value } => render_u64(value),
            Edit::Delete { actual } => String::from_str("unexpected: ").concat(
                render_u64(actual).as_str(),
            ),
            Edit::Insert { expected } => String::from_str("missing: ").concat(
                render_u64(expected).as_str(),
            ),
            Edit::Substitute { actual, expected } => String::from_str("actual ").concat(
                render_u64(actual).as_str(),
            ).concat(", expected ").concat(render_u64(expected).as_str(),),
        };
        proof {
            assert(line@ == edit_line(script@[k as int]));
        }
        r = r.text(line.as_str());
        proof {
            assert(script@.subrange(0, k + 1 as int) =~= script@.subrange(0, k as int).push(
                script@[k as int],
            ));
            assert(script@.subrange(0, k + 1 as int).map_values(|e: Edit| edit_line(e))
                =~= script@.subrange(0, k as int).map_values(|e: Edit| edit_line(e)).push(
                edit_line(script@[k as int]),
            ));
        }
        k = k + 1;
    }
    proof {
        assert(script@.subrange(0, script@.len() as int) =~= script@);
    }
    r
}

/// The diff of a sequence against itself carries no annotation: a
/// script of cost zero renders every line as the plain element.
pub proof fn identical_diff_is_plain(script: Seq<Edit>)
    requires
        script_cost(script) == 0,
    ensures
        forall|k: int|
            0 <= k < script.len() ==> edit_line(#[trigger] script[k]) == dec_str(
                script[k]->Copy_value as int,
            ),
    decreases script.len(),
{
    crate::edit_distance::lemma_zero_cost_all_copies(script);
}

} // verus!
