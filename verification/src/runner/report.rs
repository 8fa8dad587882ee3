//! JUnit XML reports of runs.

use vstd::prelude::*;

use crate::runner::run::{AssertionOutcome, CheckedV, ExecutionV, OutcomeV, RequestOutcome, RunSummary};
use crate::text::{cat4, cat5, chars_of};
use crate::view::views;
use crate::words::{decimal, number_text};

verus! {

broadcast use vstd::string::group_string_axioms;

/// A character of a text in XML.
pub open spec fn text_char(c: char) -> Seq<char> {
    if c == '&' {
        "&amp;"@
    } else if c == '<' {
        "&lt;"@
    } else if c == '>' {
        "&gt;"@
    } else {
        seq![c]
    }
}

/// A character of an attribute in XML; quotes are escaped too.
pub open spec fn attribute_char(c: char) -> Seq<char> {
    if c == '"' {
        "&quot;"@
    } else {
        text_char(c)
    }
}

/// A text in XML.
pub open spec fn xml_text(s: Seq<char>) -> Seq<char>
    decreases s.len(),
{
    if s.len() == 0 {
        seq![]
    } else {
        xml_text(s.drop_last()) + text_char(s.last())
    }
}

/// The value of an attribute in XML.
pub open spec fn xml_attribute(s: Seq<char>) -> Seq<char>
    decreases s.len(),
{
    if s.len() == 0 {
        seq![]
    } else {
        xml_attribute(s.drop_last()) + attribute_char(s.last())
    }
}

fn push_text(out: &mut String, c: char)
    ensures
        final(out)@ == old(out)@ + text_char(c),
{
    let ghost before = out@;
    if c == '&' {
        out.append("&amp;");
    } else if c == '<' {
        out.append("&lt;");
    } else if c == '>' {
        out.append("&gt;");
    } else {
        out.push(c);
        assert(out@ =~= before + seq![c]);
    }
}

/// Escape a text for XML.
pub fn escape_text(s: &str) -> (r: String)
    ensures
        r@ == xml_text(s@),
{
    let chars = chars_of(s);
    let mut out = String::new();
    let mut i: usize = 0;
    assert(out@ =~= xml_text(chars@.take(0)));
    while i < chars.len()
        invariant
            i <= chars.len(),
            out@ == xml_text(chars@.take(i as int)),
        decreases chars.len() - i,
    {
        assert(chars@.take(i + 1).drop_last() =~= chars@.take(i as int));
        push_text(&mut out, chars[i]);
        i += 1;
    }
    assert(chars@.take(i as int) =~= chars@);
    out
}

/// Escape the value of an attribute for XML.
pub fn escape_attribute(s: &str) -> (r: String)
    ensures
        r@ == xml_attribute(s@),
{
    let chars = chars_of(s);
    let mut out = String::new();
    let mut i: usize = 0;
    assert(out@ =~= xml_attribute(chars@.take(0)));
    while i < chars.len()
        invariant
            i <= chars.len(),
            out@ == xml_attribute(chars@.take(i as int)),
        decreases chars.len() - i,
    {
        assert(chars@.take(i + 1).drop_last() =~= chars@.take(i as int));
        if chars[i] == '"' {
            out.append("&quot;");
        } else {
            push_text(&mut out, chars[i]);
        }
        i += 1;
    }
    assert(chars@.take(i as int) =~= chars@);
    out
}

/// An element with a message and a content.
pub open spec fn element(tag: Seq<char>, message: Seq<char>, content: Seq<char>) -> Seq<char> {
    "      <"@ + tag + " message=\""@ + xml_attribute(message) + "\">"@ + xml_text(content) + "</"@ + tag + ">\n"@
}

fn push_element(out: &mut String, tag: &str, message: &str, content: &str)
    ensures
        final(out)@ == old(out)@ + element(tag@, message@, content@),
{
    let ghost start = out@;
    out.append("      <");
    out.append(tag);
    out.append(" message=\"");
    out.append(escape_attribute(message).as_str());
    out.append("\">");
    out.append(escape_text(content).as_str());
    out.append("</");
    out.append(tag);
    out.append(">\n");
    assert(out@ =~= start + element(tag@, message@, content@));
}

/// The `failure` elements of the failed ones among the first `n` assertions.
pub open spec fn failures(assertions: Seq<CheckedV>, n: int) -> Seq<char>
    decreases n,
{
    if n <= 0 || n > assertions.len() {
        seq![]
    } else {
        let a = assertions[n - 1];
        failures(assertions, n - 1) + if a.passed {
            seq![]
        } else {
            element("failure"@, a.label, a.message)
        }
    }
}

/// The element of a request that was not answered.
pub open spec fn transport_error(result: Result<ExecutionV, Seq<char>>) -> Seq<char> {
    match result {
        Err(e) => element("error"@, e, e),
        Ok(_) => seq![],
    }
}

/// The element of a script that broke.
pub open spec fn script_failure(error: Option<Seq<char>>) -> Seq<char> {
    match error {
        Some(e) => element("error"@, "script error"@, e),
        None => seq![],
    }
}

/// The name of the test case of an outcome.
pub open spec fn case_name(o: OutcomeV) -> Seq<char> {
    "[iter "@ + decimal(o.iteration as nat) + "] "@ + o.name
}

/// The test case of an outcome.
pub open spec fn test_case(o: OutcomeV) -> Seq<char> {
    "    <testcase name=\""@ + xml_attribute(case_name(o)) + "\" classname=\""@ + xml_attribute(o.id) + "\">\n"@
        + transport_error(o.result) + failures(o.assertions, o.assertions.len() as int) + script_failure(o.script_error)
        + "    </testcase>\n"@
}

/// The test cases of the first `n` outcomes.
pub open spec fn test_cases(outcomes: Seq<OutcomeV>, n: int) -> Seq<char>
    decreases n,
{
    if n <= 0 || n > outcomes.len() {
        seq![]
    } else {
        test_cases(outcomes, n - 1) + test_case(outcomes[n - 1])
    }
}

/// An attribute with a number.
pub open spec fn count_attribute(name: Seq<char>, n: nat) -> Seq<char> {
    " "@ + name + "=\""@ + decimal(n) + "\""@
}

/// The report of a run: one suite, one test case for each request that was
/// executed.
pub open spec fn report(suite: Seq<char>, outcomes: Seq<OutcomeV>, summary: RunSummary) -> Seq<char> {
    "<?xml version=\"1.0\" encoding=\"UTF-8\"?>\n  <testsuite name=\""@ + xml_attribute(suite) + "\""@ + count_attribute(
        "tests"@,
        summary.total as nat,
    ) + count_attribute("failures"@, summary.failed as nat) + count_attribute("skipped"@, summary.skipped as nat)
        + count_attribute("duration_ms"@, summary.duration_ms as nat) + ">\n"@ + test_cases(
        outcomes,
        outcomes.len() as int,
    ) + "  </testsuite>\n"@
}

fn push_count(out: &mut String, name: &str, n: u64)
    ensures
        final(out)@ == old(out)@ + count_attribute(name@, n as nat),
{
    let ghost start = out@;
    let text = cat5(" ", name, "=\"", number_text(n).as_str(), "\"");
    out.append(text.as_str());
    assert(out@ =~= start + count_attribute(name@, n as nat));
}

fn push_failures(out: &mut String, assertions: &Vec<AssertionOutcome>)
    ensures
        final(out)@ == old(out)@ + failures(views(assertions@), assertions@.len() as int),
{
    let ghost start = out@;
    let ghost all = views(assertions@);
    let mut i: usize = 0;
    assert(start + Seq::<char>::empty() =~= start);
    while i < assertions.len()
        invariant
            i <= assertions.len(),
            all == views(assertions@),
            out@ == start + failures(all, i as int),
        decreases assertions.len() - i,
    {
        assert(all[i as int] == assertions@[i as int]@);
        let ghost before = failures(all, i as int);
        if !assertions[i].passed {
            push_element(out, "failure", assertions[i].label.as_str(), assertions[i].message.as_str());
            let ghost e = element("failure"@, all[i as int].label, all[i as int].message);
            assert(start + before + e =~= start + (before + e));
        } else {
            assert(before + Seq::<char>::empty() =~= before);
        }
        i += 1;
    }
}

fn push_case(out: &mut String, o: &RequestOutcome)
    ensures
        final(out)@ == old(out)@ + test_case(o@),
{
    let ghost start = out@;
    let name = cat4("[iter ", number_text(o.iteration as u64).as_str(), "] ", o.name.as_str());
    out.append("    <testcase name=\"");
    out.append(escape_attribute(name.as_str()).as_str());
    out.append("\" classname=\"");
    out.append(escape_attribute(o.id.as_str()).as_str());
    out.append("\">\n");
    let ghost head = out@;
    if let Err(e) = &o.result {
        push_element(out, "error", e.as_str(), e.as_str());
    }
    assert(out@ =~= head + transport_error(o@.result));
    push_failures(out, &o.assertions);
    let ghost middle = out@;
    if let Some(e) = &o.script_error {
        push_element(out, "error", "script error", e.as_str());
    }
    assert(out@ =~= middle + script_failure(o@.script_error));
    out.append("    </testcase>\n");
    assert(out@ =~= start + test_case(o@));
}

/// Render the report of a run as JUnit XML.
pub fn junit_xml(suite_name: &str, outcomes: &Vec<RequestOutcome>, summary: &RunSummary) -> (r: String)
    ensures
        r@ == report(suite_name@, views(outcomes@), *summary),
{
    let mut out = "<?xml version=\"1.0\" encoding=\"UTF-8\"?>\n  <testsuite name=\"".to_owned();
    out.append(escape_attribute(suite_name).as_str());
    out.append("\"");
    push_count(&mut out, "tests", summary.total as u64);
    push_count(&mut out, "failures", summary.failed as u64);
    push_count(&mut out, "skipped", summary.skipped as u64);
    push_count(&mut out, "duration_ms", summary.duration_ms);
    out.append(">\n");
    let ghost head = out@;
    let ghost all = views(outcomes@);
    let mut i: usize = 0;
    assert(head + Seq::<char>::empty() =~= head);
    while i < outcomes.len()
        invariant
            i <= outcomes.len(),
            all == views(outcomes@),
            out@ == head + test_cases(all, i as int),
        decreases outcomes.len() - i,
    {
        assert(all[i as int] == outcomes@[i as int]@);
        let ghost before = test_cases(all, i as int);
        push_case(&mut out, &outcomes[i]);
        assert(head + before + test_case(all[i as int]) =~= head + (before + test_case(all[i as int])));
        i += 1;
    }
    out.append("  </testsuite>\n");
    out
}

/// An escaped attribute holds no quote and no angle bracket: nothing in a name
/// or a message ends the attribute it stands in.
pub proof fn lemma_attribute_stays_inside(s: Seq<char>, i: int)
    requires
        0 <= i < xml_attribute(s).len(),
    ensures
        xml_attribute(s)[i] != '"' && xml_attribute(s)[i] != '<' && xml_attribute(s)[i] != '>',
    decreases s.len(),
{
    reveal_strlit("&amp;");
    reveal_strlit("&lt;");
    reveal_strlit("&gt;");
    reveal_strlit("&quot;");
    let before = xml_attribute(s.drop_last());
    if i < before.len() {
        lemma_attribute_stays_inside(s.drop_last(), i);
    } else {
        assert(xml_attribute(s)[i] == attribute_char(s.last())[i - before.len()]);
    }
}

/// An escaped text holds no angle bracket: nothing in it opens or closes an
/// element.
pub proof fn lemma_text_stays_inside(s: Seq<char>, i: int)
    requires
        0 <= i < xml_text(s).len(),
    ensures
        xml_text(s)[i] != '<' && xml_text(s)[i] != '>',
    decreases s.len(),
{
    reveal_strlit("&amp;");
    reveal_strlit("&lt;");
    reveal_strlit("&gt;");
    let before = xml_text(s.drop_last());
    if i < before.len() {
        lemma_text_stays_inside(s.drop_last(), i);
    } else {
        assert(xml_text(s)[i] == text_char(s.last())[i - before.len()]);
    }
}

} // verus!
