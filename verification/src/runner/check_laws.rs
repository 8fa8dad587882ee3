//! What holds of assertions, extractors and data rows, over the response and the
//! data that they look at.

use vstd::prelude::*;

use crate::json::{canonical, json_parse, printed, same_value, JsonV};
use crate::map::{lemma_put_is_read_back, lemma_put_leaves_others, lookup};
use crate::model::request::{AssertionDefV, CheckV, ExtractorSourceV, ExtractorV, NumberOp, TextOp};
use crate::reqv1::pipeline::{header_value, query_result, ResponseV};
use crate::reqv1::pipeline_laws::json_in;
use crate::schema::schema_passes;
use crate::selection::{lemma_picks_more, lemma_picks_none, picks};
use crate::text::{occurs, occurs_at};
use crate::vars::{expanded, LayerV};
use crate::words::lossy_text;

use super::assertions::{filled_assertions, filled_or_kept, filled_value};
use super::checks::{check_holds, check_text, outcomes, regex_found, taken, taken_errors, taken_values, text_holds};
use super::data::{csv_table, data_rows, fields, object_row, object_rows, record_row, DataV};
use super::plan::RunErrorV;
use super::run::CheckedV;

verus! {

broadcast use vstd::string::group_string_axioms;

// ---------------------------------------------------------------------
// Checks
// ---------------------------------------------------------------------

/// A check on the status compares the status with the number, the way it says; a
/// class is the hundreds of the status. A response is below a time where it took
/// less.
pub proof fn lemma_numbers_compare_as_written(res: ResponseV, value: u16, class: u8, max_ms: u64)
    ensures
        check_holds(CheckV::StatusCode { op: NumberOp::Eq, value }, res) <==> res.status == value,
        check_holds(CheckV::StatusCode { op: NumberOp::Ne, value }, res) <==> res.status != value,
        check_holds(CheckV::StatusCode { op: NumberOp::Lt, value }, res) <==> res.status < value,
        check_holds(CheckV::StatusCode { op: NumberOp::Le, value }, res) <==> res.status <= value,
        check_holds(CheckV::StatusCode { op: NumberOp::Gt, value }, res) <==> res.status > value,
        check_holds(CheckV::StatusCode { op: NumberOp::Ge, value }, res) <==> res.status >= value,
        check_holds(CheckV::StatusClass { class }, res) <==> class * 100 <= res.status < class * 100 + 100,
        check_holds(CheckV::ResponseTimeBelow { max_ms }, res) <==> res.time_ms < max_ms,
{
}

/// A text compares as the operator says; one that is not there never does.
pub proof fn lemma_texts_compare_as_written(a: Seq<char>, expected: Seq<char>, op: TextOp)
    ensures
        !text_holds(op, None, expected),
        text_holds(TextOp::Eq, Some(a), expected) <==> a == expected,
        text_holds(TextOp::Ne, Some(a), expected) <==> a != expected,
        text_holds(TextOp::Contains, Some(a), expected) <==> exists|at: int| #[trigger] occurs_at(a, expected, at),
        text_holds(TextOp::Matches, Some(a), expected) <==> (regex_found(expected, a, 0) matches Ok(Some(_))),
        text_holds(TextOp::Exists, Some(a), expected),
{
}

/// A check on a header looks at the header of that name, one on the body at the
/// body as a text. The content type may have parameters behind it.
pub proof fn lemma_check_looks_at_its_part(res: ResponseV, name: Seq<char>, op: TextOp, value: Seq<char>, schema: JsonV)
    ensures
        check_holds(CheckV::Header { name, op, value }, res) <==> text_holds(op, header_value(res.headers, name), value),
        check_holds(CheckV::ContentType { value }, res) <==> (header_value(res.headers, "content-type"@) matches Some(a)
            && (a == value || exists|rest: Seq<char>| a == #[trigger] (value + ";"@ + rest))),
        check_holds(CheckV::BodyContains { value }, res) <==> exists|at: int| #[trigger]
            occurs_at(lossy_text(res.body), value, at),
        check_holds(CheckV::BodyMatches { regex: value }, res) <==> (regex_found(value, lossy_text(res.body), 0) matches Ok(
            Some(_),
        )),
        check_holds(CheckV::JsonSchema { schema }, res) <==> (json_in(res.body) matches Some(v) && schema_passes(
            canonical(schema),
            canonical(v),
        )),
{
    if let Some(a) = header_value(res.headers, "content-type"@) {
        let begin = value + ";"@;
        let n = begin.len() as int;
        if crate::text::has_prefix(a, begin) {
            assert(a =~= begin + a.skip(n));
        }
        if exists|rest: Seq<char>| a == #[trigger] (value + ";"@ + rest) {
            let rest = choose|rest: Seq<char>| a == #[trigger] (value + ";"@ + rest);
            assert(a.subrange(0, n) =~= begin);
        }
    }
}

/// A check on a path looks at the one value that the path finds: equal or not as
/// JSON, anything else by its text. Where the path finds none it never holds.
pub proof fn lemma_path_check_looks_at_what_is_found(res: ResponseV, path: Seq<char>, op: TextOp, value: JsonV)
    ensures
        query_result(res.body, path) is Err ==> !check_holds(CheckV::JsonPath { path, op, value }, res),
        query_result(res.body, path) matches Ok(v) ==> {
            let text = match v {
                JsonV::String(s) => s,
                _ => printed(v),
            };
            let wanted = match value {
                JsonV::String(s) => s,
                _ => printed(value),
            };
            &&& check_holds(CheckV::JsonPath { path, op: TextOp::Eq, value }, res) <==> same_value(v, value)
            &&& check_holds(CheckV::JsonPath { path, op: TextOp::Ne, value }, res) <==> !same_value(v, value)
            &&& check_holds(CheckV::JsonPath { path, op: TextOp::Exists, value }, res)
            &&& check_holds(CheckV::JsonPath { path, op: TextOp::Contains, value }, res) <==> occurs(text, wanted)
            &&& check_holds(CheckV::JsonPath { path, op: TextOp::Matches, value }, res) <==> (regex_found(wanted, text, 0)
                matches Ok(Some(_)))
        },
{
}

proof fn lemma_outcomes_prefix(defs: Seq<AssertionDefV>, res: ResponseV, n: int)
    requires
        0 <= n <= defs.len(),
    ensures
        picks(
            defs.take(n),
            |d: AssertionDefV| d.enabled,
            |d: AssertionDefV, o: CheckedV|
                o.passed == check_holds(d.check, res) && o.label == check_text(d.check) && (o.passed ==> o.message.len()
                    == 0) && (!o.passed ==> o.message.len() > 0),
            outcomes(defs, res, n),
        ),
    decreases n,
{
    let keep = |d: AssertionDefV| d.enabled;
    let fits = |d: AssertionDefV, o: CheckedV|
        o.passed == check_holds(d.check, res) && o.label == check_text(d.check) && (o.passed ==> o.message.len() == 0) && (
        !o.passed ==> o.message.len() > 0);
    if n == 0 {
        lemma_picks_none(defs.take(0), keep, fits, outcomes(defs, res, 0));
    } else {
        lemma_outcomes_prefix(defs, res, n - 1);
        assert(defs.take(n).drop_last() =~= defs.take(n - 1));
        assert(defs.take(n).last() == defs[n - 1]);
        let before = outcomes(defs, res, n - 1);
        let after = outcomes(defs, res, n);
        if keep(defs[n - 1]) {
            reveal_strlit("got ");
            assert(after.drop_last() =~= before);
            assert(fits(defs[n - 1], after.last()));
        }
        lemma_picks_more(defs.take(n), keep, fits, before, after);
    }
}

/// Exactly the enabled assertions are evaluated, in their order, and each passes
/// exactly where its check holds. One that fails says what was found.
pub proof fn lemma_enabled_assertions_are_evaluated(defs: Seq<AssertionDefV>, res: ResponseV)
    ensures
        picks(
            defs,
            |d: AssertionDefV| d.enabled,
            |d: AssertionDefV, o: CheckedV|
                o.passed == check_holds(d.check, res) && o.label == check_text(d.check) && (o.passed ==> o.message.len()
                    == 0) && (!o.passed ==> o.message.len() > 0),
            outcomes(defs, res, defs.len() as int),
        ),
{
    lemma_outcomes_prefix(defs, res, defs.len() as int);
    assert(defs.take(defs.len() as int) =~= defs);
}

// ---------------------------------------------------------------------
// Extractors
// ---------------------------------------------------------------------

/// An extractor takes what its source says: the value at a path as a text, a
/// header, or a group of the first match in the body.
pub proof fn lemma_extractor_takes_from_its_source(res: ResponseV, name: Seq<char>, group: usize)
    ensures
        match query_result(res.body, name) {
            Ok(JsonV::String(s)) => taken(ExtractorSourceV::JsonPath { expr: name }, res) == Ok::<Seq<char>, Seq<char>>(s),
            Ok(v) => taken(ExtractorSourceV::JsonPath { expr: name }, res) == Ok::<Seq<char>, Seq<char>>(printed(v)),
            Err(_) => taken(ExtractorSourceV::JsonPath { expr: name }, res) is Err,
        },
        match header_value(res.headers, name) {
            Some(v) => taken(ExtractorSourceV::Header { name }, res) == Ok::<Seq<char>, Seq<char>>(v),
            None => taken(ExtractorSourceV::Header { name }, res) is Err,
        },
        match regex_found(name, lossy_text(res.body), group) {
            Ok(Some(Some(text))) => taken(ExtractorSourceV::Regex { pattern: name, group }, res) == Ok::<
                Seq<char>,
                Seq<char>,
            >(text),
            _ => taken(ExtractorSourceV::Regex { pattern: name, group }, res) is Err,
        },
{
}

proof fn lemma_taken_prefix(list: Seq<ExtractorV>, res: ResponseV, n: int)
    requires
        0 <= n <= list.len(),
    ensures
        picks(
            list.take(n),
            |e: ExtractorV| e.enabled && taken(e.source, res) is Ok,
            |e: ExtractorV, v: (Seq<char>, Seq<char>)|
                v.0 == e.var && taken(e.source, res) == Ok::<Seq<char>, Seq<char>>(v.1),
            taken_values(list, res, n),
        ),
        picks(
            list.take(n),
            |e: ExtractorV| e.enabled && taken(e.source, res) is Err,
            |e: ExtractorV, line: Seq<char>| taken(e.source, res) matches Err(why) && line == e.var + ": "@ + why,
            taken_errors(list, res, n),
        ),
    decreases n,
{
    let keep = |e: ExtractorV| e.enabled && taken(e.source, res) is Ok;
    let fits = |e: ExtractorV, v: (Seq<char>, Seq<char>)|
        v.0 == e.var && taken(e.source, res) == Ok::<Seq<char>, Seq<char>>(v.1);
    let fails = |e: ExtractorV| e.enabled && taken(e.source, res) is Err;
    let tells = |e: ExtractorV, line: Seq<char>| taken(e.source, res) matches Err(why) && line == e.var + ": "@ + why;
    if n == 0 {
        lemma_picks_none(list.take(0), keep, fits, taken_values(list, res, 0));
        lemma_picks_none(list.take(0), fails, tells, taken_errors(list, res, 0));
    } else {
        lemma_taken_prefix(list, res, n - 1);
        assert(list.take(n).drop_last() =~= list.take(n - 1));
        assert(list.take(n).last() == list[n - 1]);
        if keep(list[n - 1]) {
            assert(taken_values(list, res, n).drop_last() =~= taken_values(list, res, n - 1));
        }
        if fails(list[n - 1]) {
            assert(taken_errors(list, res, n).drop_last() =~= taken_errors(list, res, n - 1));
        }
        lemma_picks_more(list.take(n), keep, fits, taken_values(list, res, n - 1), taken_values(list, res, n));
        lemma_picks_more(list.take(n), fails, tells, taken_errors(list, res, n - 1), taken_errors(list, res, n));
    }
}

/// Each enabled extractor gives its variable what it takes, or a line that says
/// why there is nothing, in the order of the extractors.
pub proof fn lemma_enabled_extractors_are_applied(list: Seq<ExtractorV>, res: ResponseV)
    ensures
        picks(
            list,
            |e: ExtractorV| e.enabled && taken(e.source, res) is Ok,
            |e: ExtractorV, v: (Seq<char>, Seq<char>)|
                v.0 == e.var && taken(e.source, res) == Ok::<Seq<char>, Seq<char>>(v.1),
            taken_values(list, res, list.len() as int),
        ),
        picks(
            list,
            |e: ExtractorV| e.enabled && taken(e.source, res) is Err,
            |e: ExtractorV, line: Seq<char>| taken(e.source, res) matches Err(why) && line == e.var + ": "@ + why,
            taken_errors(list, res, list.len() as int),
        ),
{
    lemma_taken_prefix(list, res, list.len() as int);
    assert(list.take(list.len() as int) =~= list);
}

// ---------------------------------------------------------------------
// Assertions with variables
// ---------------------------------------------------------------------

/// A text of an assertion is filled in where every variable in it is known, and
/// stays as it is where one is not.
pub proof fn lemma_unknown_variables_leave_the_text(s: Seq<char>, layers: Seq<LayerV>)
    ensures
        expanded(s, layers) matches Ok(t) ==> filled_or_kept(s, layers) == t,
        expanded(s, layers) is Err ==> filled_or_kept(s, layers) == s,
{
}

/// The texts of an expected value are filled in wherever they stand; keys,
/// numbers and the rest stay.
pub proof fn lemma_expected_values_are_filled_in(v: JsonV, layers: Seq<LayerV>)
    ensures
        v matches JsonV::String(s) ==> filled_value(v, layers) == JsonV::String(filled_or_kept(s, layers)),
        v matches JsonV::Array(items) ==> (filled_value(v, layers) matches JsonV::Array(list) && list.len() == items.len()
            && forall|i: int| 0 <= i < items.len() ==> #[trigger] list[i] == filled_value(items[i], layers)),
        v matches JsonV::Object(pairs) ==> (filled_value(v, layers) matches JsonV::Object(list) && list.len() == pairs.len()
            && forall|i: int|
            0 <= i < pairs.len() ==> (#[trigger] list[i]).0 == pairs[i].0 && list[i].1 == filled_value(pairs[i].1, layers)),
        v is Null || v is Bool || v is Number ==> filled_value(v, layers) == v,
{
}

/// Every assertion keeps its place, whether it is enabled, and its kind; its
/// texts are filled in. A schema and numbers stay.
pub proof fn lemma_assertions_keep_their_kind(defs: Seq<AssertionDefV>, layers: Seq<LayerV>, i: int)
    requires
        0 <= i < defs.len(),
    ensures
        filled_assertions(defs, layers).len() == defs.len(),
        ({
            let before = defs[i];
            let after = filled_assertions(defs, layers)[i];
            &&& after.enabled == before.enabled && after.note == before.note
            &&& (before.check is StatusCode || before.check is StatusClass || before.check is ResponseTimeBelow
                || before.check is JsonSchema) ==> after.check == before.check
            &&& before.check matches CheckV::Header { name, op, value } ==> after.check == CheckV::Header {
                name: filled_or_kept(name, layers),
                op,
                value: filled_or_kept(value, layers),
            }
            &&& before.check matches CheckV::ContentType { value } ==> after.check == CheckV::ContentType {
                value: filled_or_kept(value, layers),
            }
            &&& before.check matches CheckV::JsonPath { path, op, value } ==> after.check == CheckV::JsonPath {
                path: filled_or_kept(path, layers),
                op,
                value: filled_value(value, layers),
            }
            &&& before.check matches CheckV::BodyContains { value } ==> after.check == CheckV::BodyContains {
                value: filled_or_kept(value, layers),
            }
            &&& before.check matches CheckV::BodyMatches { regex } ==> after.check == CheckV::BodyMatches {
                regex: filled_or_kept(regex, layers),
            }
        }),
{
}

// ---------------------------------------------------------------------
// Data
// ---------------------------------------------------------------------

proof fn lemma_record(headers: Seq<Seq<char>>, record: Seq<Seq<char>>, n: int, i: int)
    requires
        0 <= i < n <= headers.len(),
        n <= record.len(),
        forall|j: int| i < j < n ==> #[trigger] headers[j] != headers[i],
    ensures
        lookup(record_row(headers, record, n), headers[i]) == Some(record[i]),
    decreases n,
{
    let before = record_row(headers, record, n - 1);
    if i == n - 1 {
        lemma_put_is_read_back(before, headers[i], record[i]);
    } else {
        assert(headers[n - 1] != headers[i]);
        lemma_record(headers, record, n - 1, i);
        lemma_put_leaves_others(before, headers[n - 1], record[n - 1], headers[i]);
    }
}

/// A record of a table gives each header the field below it; headers without a
/// field and fields without a header do not count.
pub proof fn lemma_record_has_its_fields(headers: Seq<Seq<char>>, record: Seq<Seq<char>>, i: int)
    requires
        0 <= i < headers.len(),
        i < record.len(),
        forall|j: int| i < j < headers.len() ==> #[trigger] headers[j] != headers[i],
    ensures
        lookup(record_row(headers, record, fields(headers, record)), headers[i]) == Some(record[i]),
{
    lemma_record(headers, record, fields(headers, record), i);
}

/// An object gives each of its keys its value, a text as it is and anything else
/// as JSON.
pub proof fn lemma_object_has_its_members(pairs: Seq<(Seq<char>, JsonV)>, i: int)
    requires
        0 <= i < pairs.len(),
        forall|j: int| i < j < pairs.len() ==> (#[trigger] pairs[j]).0 != pairs[i].0,
    ensures
        lookup(object_row(pairs), pairs[i].0) == Some(
            match pairs[i].1 {
                JsonV::String(s) => s,
                other => printed(other),
            },
        ),
    decreases pairs.len(),
{
    let less = pairs.drop_last();
    let last = pairs[pairs.len() - 1];
    let text = crate::reqv1::vars::inline_text(last.1);
    if i == pairs.len() - 1 {
        lemma_put_is_read_back(object_row(less), last.0, text);
    } else {
        assert forall|j: int| i < j < less.len() implies (#[trigger] less[j]).0 != less[i].0 by {
            assert(less[j] == pairs[j]);
        }
        lemma_object_has_its_members(less, i);
        lemma_put_leaves_others(object_row(less), last.0, text, pairs[i].0);
    }
}

proof fn lemma_objects(items: Seq<JsonV>)
    ensures
        match object_rows(items) {
            Some(rows) => rows.len() == items.len() && forall|i: int|
                0 <= i < items.len() ==> (#[trigger] items[i] matches JsonV::Object(pairs) && rows[i] == object_row(pairs)),
            None => exists|i: int| 0 <= i < items.len() && !((#[trigger] items[i]) is Object),
        },
    decreases items.len(),
{
    if items.len() > 0 {
        let less = items.drop_last();
        let n = items.len() - 1;
        lemma_objects(less);
        match object_rows(items) {
            Some(rows) => {
                assert forall|i: int| 0 <= i < items.len() implies (#[trigger] items[i] matches JsonV::Object(pairs)
                    && rows[i] == object_row(pairs)) by {
                    if i < n {
                        assert(less[i] == items[i]);
                        assert(rows[i] == object_rows(less)->Some_0[i]);
                    }
                }
            },
            None => {
                if object_rows(less) is None {
                    let i = choose|i: int| 0 <= i < less.len() && !((#[trigger] less[i]) is Object);
                    assert(items[i] == less[i]);
                } else {
                    assert(!(items[n] is Object));
                }
            },
        }
    }
}

/// Without data there is one run, without values. With a table there is one for
/// each record, with a list of objects one for each object, in order. Anything
/// else is an error of the data.
pub proof fn lemma_one_run_for_each_row(path: Seq<char>, bytes: Seq<u8>, text: Seq<char>, why: Seq<char>)
    ensures
        data_rows(None) matches Ok(rows) && rows.len() == 1 && rows[0].len() == 0,
        match csv_table(bytes) {
            Ok((headers, records)) => data_rows(Some(DataV::CsvFile(path, Ok(bytes)))) matches Ok(rows) && rows.len()
                == records.len() && forall|i: int|
                0 <= i < rows.len() ==> #[trigger] rows[i] == record_row(headers, records[i], fields(headers, records[i])),
            Err(_) => data_rows(Some(DataV::CsvFile(path, Ok(bytes)))) matches Err(e) && e is Data,
        },
        match json_parse(text) {
            Ok(JsonV::Array(items)) => match data_rows(Some(DataV::JsonFile(path, Ok(text)))) {
                Ok(rows) => rows.len() == items.len() && forall|i: int|
                    0 <= i < items.len() ==> (#[trigger] items[i] matches JsonV::Object(pairs) && rows[i] == object_row(
                        pairs,
                    )),
                Err(e) => e is Data && exists|i: int| 0 <= i < items.len() && !((#[trigger] items[i]) is Object),
            },
            _ => data_rows(Some(DataV::JsonFile(path, Ok(text)))) matches Err(e) && e is Data,
        },
        data_rows(Some(DataV::CsvFile(path, Err(why)))) == Err::<Seq<LayerV>, RunErrorV>(
            RunErrorV::Data(path + ": "@ + why),
        ),
        data_rows(Some(DataV::JsonFile(path, Err(why)))) == Err::<Seq<LayerV>, RunErrorV>(
            RunErrorV::Data(path + ": "@ + why),
        ),
{
    if let Ok(JsonV::Array(items)) = json_parse(text) {
        lemma_objects(items);
    }
}

} // verus!
