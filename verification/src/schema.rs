//! Validation against a JSON Schema, with the errors as readable lines.

use vstd::multiset::Multiset;
use vstd::prelude::*;

use crate::exec::text_pairs;
use crate::json::{canonical, to_tree, value_json, Json, JsonV};
use crate::text::{cat2, cat3};
use crate::view::{group_views, views};

verus! {

broadcast use vstd::string::group_string_axioms;

/// How many errors are reported at most; a document that fails wildly should
/// not flood the reader.
pub const MAX_ERRORS: usize = 20;

/// The texts with which `jsonschema` may refuse a value as a JSON Schema; none
/// where it is one. Where several references of a schema cannot be resolved,
/// any of them may be the one that is named.
pub uninterp spec fn schema_refusals(schema: JsonV) -> Set<Seq<char>>;

/// The errors that `jsonschema` finds in an instance: the place and the message
/// of each.
pub uninterp spec fn schema_errors(schema: JsonV, instance: JsonV) -> Multiset<(Seq<char>, Seq<char>)>;

/// `jsonschema::Validator::new` compiles a schema, or says why it cannot;
/// `iter_errors` of the validator lists every error with the place in the
/// instance and a message. Whether the schema compiles depends on it alone,
/// and the errors on it and the instance. Nothing is claimed of their order.
#[verifier::external_body]
fn run_validator(schema: &serde_json::Value, instance: &serde_json::Value) -> (r: Result<
    Vec<(String, String)>,
    String,
>)
    ensures
        r is Ok <==> schema_refusals(value_json(*schema)) == Set::<Seq<char>>::empty(),
        r matches Ok(rows) ==> text_pairs(rows@).to_multiset() == schema_errors(
            value_json(*schema),
            value_json(*instance),
        ),
        r matches Err(e) ==> schema_refusals(value_json(*schema)).contains(e@),
{
    match jsonschema::Validator::new(schema) {
        Ok(v) => Ok(v.iter_errors(instance).map(|e| (e.instance_path().to_string(), e.to_string())).collect()),
        Err(e) => Err(e.to_string()),
    }
}

/// The lines that report `rows`: place, colon and message of each.
pub open spec fn error_lines(rows: Seq<(Seq<char>, Seq<char>)>) -> Seq<Seq<char>> {
    Seq::new(rows.len(), |i: int| rows[i].0 + ": "@ + rows[i].1)
}

/// What is reported: nothing where there is no error, else the first
/// [`MAX_ERRORS`] lines; or one line where the schema itself is none.
pub open spec fn schema_report(outcome: Result<Seq<(Seq<char>, Seq<char>)>, Seq<char>>) -> Result<
    (),
    Seq<Seq<char>>,
> {
    match outcome {
        Err(e) => Err(seq!["invalid JSON schema: "@ + e]),
        Ok(rows) => if rows.len() == 0 {
            Ok(())
        } else if rows.len() <= MAX_ERRORS {
            Err(error_lines(rows))
        } else {
            Err(error_lines(rows).take(MAX_ERRORS as int))
        },
    }
}

/// The outcome of a validation by its view.
pub open spec fn outcome_view(outcome: Result<Vec<(String, String)>, String>) -> Result<
    Seq<(Seq<char>, Seq<char>)>,
    Seq<char>,
> {
    match outcome {
        Ok(rows) => Ok(text_pairs(rows@)),
        Err(e) => Err(e@),
    }
}

/// Report the outcome of a validation.
pub fn report(outcome: Result<Vec<(String, String)>, String>) -> (r: Result<(), Vec<String>>)
    ensures
        schema_report(outcome_view(outcome)) == report_view(r),
{
    broadcast use group_views;

    match outcome {
        Err(e) => {
            let mut lines: Vec<String> = Vec::new();
            lines.push(cat2("invalid JSON schema: ", e.as_str()));
            assert(views(lines@) =~= seq!["invalid JSON schema: "@ + e@]);
            Err(lines)
        },
        Ok(rows) => {
            if rows.len() == 0 {
                return Ok(());
            }
            let shown: usize = if rows.len() < MAX_ERRORS {
                rows.len()
            } else {
                MAX_ERRORS
            };
            let ghost all = error_lines(text_pairs(rows@));
            let mut lines: Vec<String> = Vec::new();
            let mut i: usize = 0;
            while i < shown
                invariant
                    i <= shown <= rows.len(),
                    all == error_lines(text_pairs(rows@)),
                    views(lines@) == all.take(i as int),
                decreases shown - i,
            {
                lines.push(cat3(rows[i].0.as_str(), ": ", rows[i].1.as_str()));
                assert(all.take(i + 1) =~= all.take(i as int).push(all[i as int]));
                i += 1;
            }
            assert(all.take(all.len() as int) =~= all);
            Err(lines)
        },
    }
}

/// What may come of a validation, before it is reported: the errors in some
/// order, or why the schema is refused.
pub open spec fn may_find(
    schema: JsonV,
    instance: JsonV,
    outcome: Result<Seq<(Seq<char>, Seq<char>)>, Seq<char>>,
) -> bool {
    match outcome {
        Err(e) => schema_refusals(schema).contains(e),
        Ok(rows) => schema_refusals(schema) == Set::<Seq<char>>::empty() && rows.to_multiset() == schema_errors(
            schema,
            instance,
        ),
    }
}

/// The schema is one, and the instance has no errors.
pub open spec fn schema_passes(schema: JsonV, instance: JsonV) -> bool {
    schema_refusals(schema) == Set::<Seq<char>>::empty() && schema_errors(schema, instance).len() == 0
}

/// A report by its view.
pub open spec fn report_view(r: Result<(), Vec<String>>) -> Result<(), Seq<Seq<char>>> {
    match r {
        Ok(()) => Ok(()),
        Err(lines) => Err(views(lines@)),
    }
}

/// Validate `instance` against `schema`: nothing to report where it is valid,
/// else up to [`MAX_ERRORS`] lines, each the place and the message of an error,
/// or one line where `schema` is no JSON Schema.
pub fn validate(schema: &Json, instance: &Json) -> (r: Result<(), Vec<String>>)
    ensures
        exists|outcome: Result<Seq<(Seq<char>, Seq<char>)>, Seq<char>>|
            may_find(canonical(schema@), canonical(instance@), outcome) && report_view(r) == #[trigger] schema_report(
                outcome,
            ),
        r is Ok <==> schema_passes(canonical(schema@), canonical(instance@)),
{
    broadcast use vstd::seq_lib::group_to_multiset_ensures;

    let outcome = run_validator(&to_tree(schema), &to_tree(instance));
    let ghost found = outcome_view(outcome);
    assert(may_find(canonical(schema@), canonical(instance@), found));
    report(outcome)
}

} // verus!
