//! Data rows for runs that repeat once per row.

use vstd::prelude::*;

use crate::json::{json_parse, parse, Json, JsonV};
use crate::map::{pairs_view, put, TextMap};
use crate::reqv1::vars::{inline_text, to_inline};
use crate::runner::plan::{RunError, RunErrorV};
use crate::text::cat3;
use crate::vars::LayerV;
use crate::view::{group_views, views};

verus! {

broadcast use vstd::string::group_string_axioms;

/// Where data rows come from: the path of a file, and its content or why it
/// cannot be read.
#[derive(Debug)]
pub enum DataSource {
    CsvFile(String, Result<Vec<u8>, String>),
    JsonFile(String, Result<String, String>),
}

/// What a [`DataSource`] holds.
pub enum DataV {
    CsvFile(Seq<char>, Result<Seq<u8>, Seq<char>>),
    JsonFile(Seq<char>, Result<Seq<char>, Seq<char>>),
}

impl View for DataSource {
    type V = DataV;

    open spec fn view(&self) -> DataV {
        match self {
            DataSource::CsvFile(path, content) => DataV::CsvFile(
                path@,
                match content {
                    Ok(bytes) => Ok(bytes@),
                    Err(e) => Err(e@),
                },
            ),
            DataSource::JsonFile(path, content) => DataV::JsonFile(
                path@,
                match content {
                    Ok(text) => Ok(text@),
                    Err(e) => Err(e@),
                },
            ),
        }
    }
}

/// The records of a table, each by the views of its fields.
pub open spec fn table_views(records: Seq<Vec<String>>) -> Seq<Seq<Seq<char>>> {
    Seq::new(records.len(), |i: int| views(records[i]@))
}

/// What `csv` reads in bytes: the headers and the records, or why it cannot.
pub uninterp spec fn csv_table(bytes: Seq<u8>) -> Result<(Seq<Seq<char>>, Seq<Seq<Seq<char>>>), Seq<char>>;

/// `csv::Reader::from_reader` reads bytes as CSV with a header line; the first
/// error ends it. The result depends on the bytes alone.
#[verifier::external_body]
fn read_csv(bytes: &Vec<u8>) -> (r: Result<(Vec<String>, Vec<Vec<String>>), String>)
    ensures
        csv_table(bytes@) == match r {
            Ok((headers, records)) => Ok::<(Seq<Seq<char>>, Seq<Seq<Seq<char>>>), Seq<char>>(
                (views(headers@), table_views(records@)),
            ),
            Err(e) => Err::<(Seq<Seq<char>>, Seq<Seq<Seq<char>>>), Seq<char>>(e@),
        },
{
    let mut reader = csv::Reader::from_reader(bytes.as_slice());
    let headers = reader.headers().map_err(|e| e.to_string())?.iter().map(str::to_string).collect();
    let records: Result<Vec<_>, _> = reader.records().collect();
    let records = records.map_err(|e| e.to_string())?;
    Ok((headers, records.iter().map(|r| r.iter().map(str::to_string).collect()).collect()))
}

/// The row of a record: the first `n` headers with their fields, as far as
/// there are both.
pub open spec fn record_row(headers: Seq<Seq<char>>, record: Seq<Seq<char>>, n: int) -> LayerV
    decreases n,
{
    if n <= 0 || n > headers.len() || n > record.len() {
        seq![]
    } else {
        put(record_row(headers, record, n - 1), headers[n - 1], record[n - 1])
    }
}

/// The number of fields that have a header.
pub open spec fn fields(headers: Seq<Seq<char>>, record: Seq<Seq<char>>) -> int {
    if headers.len() <= record.len() {
        headers.len() as int
    } else {
        record.len() as int
    }
}

/// The rows of a table.
pub open spec fn table_rows(headers: Seq<Seq<char>>, records: Seq<Seq<Seq<char>>>) -> Seq<LayerV> {
    Seq::new(records.len(), |i: int| record_row(headers, records[i], fields(headers, records[i])))
}

/// The row of an object: texts as they are, anything else as JSON.
pub open spec fn object_row(pairs: Seq<(Seq<char>, JsonV)>) -> LayerV
    decreases pairs.len(),
{
    if pairs.len() == 0 {
        seq![]
    } else {
        put(object_row(pairs.drop_last()), pairs.last().0, inline_text(pairs.last().1))
    }
}

/// The rows of the objects of a list; nothing where one item is no object.
pub open spec fn object_rows(items: Seq<JsonV>) -> Option<Seq<LayerV>>
    decreases items.len(),
{
    if items.len() == 0 {
        Some(seq![])
    } else {
        match (object_rows(items.drop_last()), items.last()) {
            (Some(before), JsonV::Object(pairs)) => Some(before.push(object_row(pairs))),
            _ => None,
        }
    }
}

/// The error that a data file gives.
pub open spec fn data_error(path: Seq<char>, why: Seq<char>) -> RunErrorV {
    RunErrorV::Data(path + ": "@ + why)
}

/// The rows of a JSON value.
pub open spec fn json_rows(path: Seq<char>, v: JsonV) -> Result<Seq<LayerV>, RunErrorV> {
    match v {
        JsonV::Array(items) => match object_rows(items) {
            Some(rows) => Ok(rows),
            None => Err(data_error(path, "expected array items to be objects"@)),
        },
        _ => Err(data_error(path, "expected a JSON array of objects"@)),
    }
}

/// The rows of a run: one empty row where there is no data.
pub open spec fn data_rows(data: Option<DataV>) -> Result<Seq<LayerV>, RunErrorV> {
    match data {
        None => Ok(seq![seq![]]),
        Some(DataV::CsvFile(path, content)) => match content {
            Err(e) => Err(data_error(path, e)),
            Ok(bytes) => match csv_table(bytes) {
                Err(e) => Err(data_error(path, e)),
                Ok((headers, records)) => Ok(table_rows(headers, records)),
            },
        },
        Some(DataV::JsonFile(path, content)) => match content {
            Err(e) => Err(data_error(path, e)),
            Ok(text) => match json_parse(text) {
                Err(e) => Err(data_error(path, e)),
                Ok(v) => json_rows(path, v),
            },
        },
    }
}

/// Rows by the views of their two sides.
pub open spec fn rows_view(r: Result<Vec<TextMap<String>>, RunError>) -> Result<Seq<LayerV>, RunErrorV> {
    match r {
        Ok(rows) => Ok(views(rows@)),
        Err(e) => Err(e@),
    }
}

fn fail(path: &str, why: &str) -> (r: RunError)
    ensures
        r@ == data_error(path@, why@),
{
    RunError::Data(cat3(path, ": ", why))
}

/// The rows of a table that was read.
pub fn rows_of_table(headers: &Vec<String>, records: &Vec<Vec<String>>) -> (r: Vec<TextMap<String>>)
    ensures
        views(r@) == table_rows(views(headers@), table_views(records@)),
{
    let ghost names = views(headers@);
    let ghost table = table_views(records@);
    let mut out: Vec<TextMap<String>> = Vec::new();
    let mut i: usize = 0;
    while i < records.len()
        invariant
            i <= records.len(),
            names == views(headers@),
            table == table_views(records@),
            out.len() == i,
            forall|k: int|
                0 <= k < i ==> (#[trigger] out@[k])@ == record_row(names, table[k], fields(names, table[k])),
        decreases records.len() - i,
    {
        let record = &records[i];
        assert(table[i as int] == views(record@));
        let mut row: TextMap<String> = TextMap::new();
        let mut n: usize = 0;
        while n < headers.len() && n < record.len()
            invariant
                n <= headers.len(),
                n <= record.len(),
                names == views(headers@),
                row@ == record_row(names, views(record@), n as int),
            decreases headers.len() - n,
        {
            assert(names[n as int] == headers@[n as int]@);
            assert(views(record@)[n as int] == record@[n as int]@);
            let _ = row.insert(headers[n].clone(), record[n].clone());
            n += 1;
        }
        out.push(row);
        i += 1;
    }
    assert(views(out@) =~= table_rows(names, table));
    out
}

fn row_of_object(pairs: &Vec<(String, Json)>) -> (r: TextMap<String>)
    ensures
        r@ == object_row(pairs_view(pairs@)),
{
    let ghost all = pairs_view(pairs@);
    let mut row: TextMap<String> = TextMap::new();
    let mut i: usize = 0;
    assert(all.take(0) =~= Seq::empty());
    while i < pairs.len()
        invariant
            i <= pairs.len(),
            all == pairs_view(pairs@),
            row@ == object_row(all.take(i as int)),
        decreases pairs.len() - i,
    {
        assert(all.take(i + 1).drop_last() =~= all.take(i as int));
        assert(all.take(i + 1).last() == all[i as int]);
        let _ = row.insert(pairs[i].0.clone(), to_inline(&pairs[i].1));
        i += 1;
    }
    assert(all.take(i as int) =~= all);
    row
}

proof fn lemma_object_rows_cut(items: Seq<JsonV>, n: int)
    requires
        0 <= n < items.len(),
        !(items[n] is Object),
    ensures
        object_rows(items) is None,
    decreases items.len(),
{
    if n < items.len() - 1 {
        lemma_object_rows_cut(items.drop_last(), n);
    }
}

/// The rows of a JSON value.
pub fn rows_of_json(path: &str, v: &Json) -> (r: Result<Vec<TextMap<String>>, RunError>)
    ensures
        rows_view(r) == json_rows(path@, v@),
{
    broadcast use group_views;

    let items = match v.as_array() {
        None => {
            return Err(fail(path, "expected a JSON array of objects"));
        },
        Some(items) => items,
    };
    let ghost all = views(items@);
    let mut out: Vec<TextMap<String>> = Vec::new();
    let mut i: usize = 0;
    assert(all.take(0) =~= Seq::<JsonV>::empty());
    while i < items.len()
        invariant
            i <= items.len(),
            all == views(items@),
            v@ == JsonV::Array(all),
            object_rows(all.take(i as int)) == Some(views(out@)),
        decreases items.len() - i,
    {
        assert(all.take(i + 1).drop_last() =~= all.take(i as int));
        assert(all.take(i + 1).last() == items@[i as int]@);
        match items[i].as_object() {
            Some(pairs) => {
                let ghost before = views(out@);
                let row = row_of_object(pairs);
                let ghost view = row@;
                out.push(row);
                assert(views(out@) == before.push(view));
            },
            None => {
                proof {
                    lemma_object_rows_cut(all, i as int);
                }
                return Err(fail(path, "expected array items to be objects"));
            },
        }
        i += 1;
    }
    assert(all.take(i as int) =~= all);
    Ok(out)
}

/// The data rows of a run, one empty row where there is no data.
pub fn load_iterations(data: &Option<DataSource>) -> (r: Result<Vec<TextMap<String>>, RunError>)
    ensures
        rows_view(r) == data_rows(crate::view::opt_view(*data)),
{
    broadcast use group_views;

    match data {
        None => {
            let mut out: Vec<TextMap<String>> = Vec::new();
            out.push(TextMap::new());
            assert(views(out@) =~= seq![seq![]]);
            Ok(out)
        },
        Some(DataSource::CsvFile(path, content)) => match content {
            Err(e) => Err(fail(path.as_str(), e.as_str())),
            Ok(bytes) => match read_csv(bytes) {
                Err(e) => Err(fail(path.as_str(), e.as_str())),
                Ok((headers, records)) => Ok(rows_of_table(&headers, &records)),
            },
        },
        Some(DataSource::JsonFile(path, content)) => match content {
            Err(e) => Err(fail(path.as_str(), e.as_str())),
            Ok(text) => match parse(text.as_str()) {
                Err(e) => Err(fail(path.as_str(), e.as_str())),
                Ok(v) => rows_of_json(path.as_str(), &v),
            },
        },
    }
}

} // verus!
