//! The page that shows what the server has answered so far.
//!
//! The page is made from two templates: `/stats.html` for the page and
//! `/stats_table_entry.html` for one row of its table.

use crate::decimal::{decimal, to_decimal};
use crate::file::DynamicFiles;
use crate::response::{content_type_for, status_ok, Response, ResponseView};
use crate::text::{replace, replaced};
use crate::threaded::server::{
    is_success_code, result_views, RequestResult, RequestResultView, ServerStats, Timestamp,
};
use vstd::prelude::*;
use vstd::string::*;
use vstd::utf8::*;

verus! {

/// The date and time that chrono writes for the point in time that lies
/// `secs` seconds and `nanos` nanoseconds after the start of 1970 in UTC;
/// `None` where chrono has no date for it.
pub uninterp spec fn time_text(secs: i64, nanos: u32) -> Option<Seq<char>>;

/// `DateTime::from_timestamp` of chrono, and on the date and time it gives
/// `naive_utc` and `to_string`. All that is claimed is that the outcome
/// depends on the two numbers alone.
#[verifier::external_body]
fn render_time(secs: i64, nanos: u32) -> (text: Option<String>)
    ensures
        match text {
            Some(written) => time_text(secs, nanos) == Some(written@),
            None => time_text(secs, nanos) is None,
        },
{
    match chrono::DateTime::from_timestamp(secs, nanos) {
        Some(moment) => Some(moment.naive_utc().to_string()),
        None => None,
    }
}

/// What the page shows for a point in time: its date and time, or nothing
/// where there is no date for it.
pub open spec fn time_shown(time: Timestamp) -> Seq<char> {
    match time_text(time.secs, time.nanos) {
        Some(written) => written,
        None => Seq::empty(),
    }
}

/// How many of `flags` are set.
pub open spec fn count_true(flags: Seq<bool>) -> nat
    decreases flags.len(),
{
    if flags.len() == 0 {
        0
    } else {
        count_true(flags.drop_last()) + if flags.last() {
            1nat
        } else {
            0nat
        }
    }
}

/// For each result, whether it reports success.
pub open spec fn successes(results: Seq<RequestResultView>) -> Seq<bool> {
    Seq::new(results.len(), |i: int| is_success_code(results[i].response_code))
}

/// One row of the table: `template` with time, path, status code and
/// duration filled in, in that order.
pub open spec fn table_row(template: Seq<char>, result: RequestResultView, time: Seq<char>) -> Seq<
    char,
> {
    replaced(
        replaced(
            replaced(
                replaced(template, "{{Time}}"@, time),
                "{{Path}}"@,
                result.requested_resource,
            ),
            "{{Code}}"@,
            decimal(result.response_code as nat),
        ),
        "{{Duration}}"@,
        decimal(result.duration as nat),
    )
}

/// The rows of the table, oldest result first, each on a line of its own.
pub open spec fn table_rows(template: Seq<char>, results: Seq<RequestResultView>) -> Seq<char>
    decreases results.len(),
{
    if results.len() == 0 {
        Seq::empty()
    } else {
        table_rows(template, results.drop_last()) + seq!['\n'] + table_row(
            template,
            results.last(),
            time_shown(results.last().time),
        )
    }
}

/// The page: `page` with the three counts and the rows filled in, in that
/// order.
pub open spec fn stats_page(page: Seq<char>, row: Seq<char>, results: Seq<RequestResultView>) -> Seq<
    char,
> {
    let total = results.len();
    let successful = count_true(successes(results));
    replaced(
        replaced(
            replaced(
                replaced(page, "{{num_total}}"@, decimal(total)),
                "{{num_successful}}"@,
                decimal(successful),
            ),
            "{{num_unsuccessful}}"@,
            decimal((total - successful) as nat),
        ),
        "{{result_entries}}"@,
        table_rows(row, results),
    )
}

/// No more flags are set than there are.
pub proof fn lemma_count_true_bound(flags: Seq<bool>)
    ensures
        count_true(flags) <= flags.len(),
    decreases flags.len(),
{
    if flags.len() > 0 {
        lemma_count_true_bound(flags.drop_last());
    }
}

/// The summary of a record: for each result, whether it reports success.
#[derive(Debug)]
pub struct ResultView {
    request_successes: Vec<bool>,
}

impl ResultView {
    /// The flags, oldest result first.
    pub closed spec fn flags(&self) -> Seq<bool> {
        self.request_successes@
    }

    /// Summarises `results`.
    pub fn of(results: &Vec<RequestResult>) -> (view: ResultView)
        ensures
            view.flags() == successes(result_views(results@)),
    {
        let mut request_successes: Vec<bool> = Vec::new();
        let mut i: usize = 0;
        while i < results.len()
            invariant
                i <= results.len(),
                request_successes@ == successes(result_views(results@)).take(i as int),
            decreases results.len() - i,
        {
            request_successes.push(results[i].is_successful());
            i = i + 1;
            assert(request_successes@ =~= successes(result_views(results@)).take(i as int));
        }
        assert(request_successes@ =~= successes(result_views(results@)));
        ResultView { request_successes }
    }

    /// The number of results.
    pub fn num_total(&self) -> (total: usize)
        ensures
            total == self.flags().len(),
    {
        self.request_successes.len()
    }

    /// The number of results that report success.
    pub fn num_successful(&self) -> (successful: usize)
        ensures
            successful == count_true(self.flags()),
    {
        let mut count: usize = 0;
        let mut i: usize = 0;
        assert(self.flags().take(0) =~= Seq::<bool>::empty());
        while i < self.request_successes.len()
            invariant
                i <= self.request_successes@.len(),
                count == count_true(self.flags().take(i as int)),
                count <= i,
            decreases self.request_successes@.len() - i,
        {
            assert(self.flags().take(i + 1).drop_last() =~= self.flags().take(i as int));
            if self.request_successes[i] {
                count = count + 1;
            }
            i = i + 1;
        }
        assert(self.flags().take(i as int) =~= self.flags());
        count
    }

    /// The number of results that report no success.
    pub fn num_unsuccessful(&self) -> (unsuccessful: usize)
        ensures
            unsuccessful == self.flags().len() - count_true(self.flags()),
    {
        proof {
            lemma_count_true_bound(self.flags());
        }
        self.num_total() - self.num_successful()
    }
}

/// Fills one row of the table in: `template` with `time`, then path, status
/// code and duration of `result`.
pub fn fill_row(template: &str, result: &RequestResult, time: &str) -> (row: String)
    ensures
        row@ == table_row(template@, result@, time@),
{
    let timed = replace(template, "{{Time}}", time);
    let pathed = replace(timed.as_str(), "{{Path}}", result.requested_resource.as_str());
    let code = to_decimal(result.response_code as u128);
    let coded = replace(pathed.as_str(), "{{Code}}", code.as_str());
    let duration = to_decimal(result.duration);
    replace(coded.as_str(), "{{Duration}}", duration.as_str())
}

/// Makes the page from its two templates and the record.
fn build_html(page: &str, row: &str, results: &Vec<RequestResult>, result_view: &ResultView) -> (html:
    String)
    requires
        result_view.flags() == successes(result_views(results@)),
    ensures
        html@ == stats_page(page@, row@, result_views(results@)),
{
    let ghost views = result_views(results@);
    let total = to_decimal(result_view.num_total() as u128);
    let successful = to_decimal(result_view.num_successful() as u128);
    let unsuccessful = to_decimal(result_view.num_unsuccessful() as u128);
    let mut html = replace(page, "{{num_total}}", total.as_str());
    html = replace(html.as_str(), "{{num_successful}}", successful.as_str());
    html = replace(html.as_str(), "{{num_unsuccessful}}", unsuccessful.as_str());
    let mut table_entries = String::new();
    let mut i: usize = 0;
    assert(views.take(0) =~= Seq::<RequestResultView>::empty());
    while i < results.len()
        invariant
            views == result_views(results@),
            i <= results.len(),
            table_entries@ == table_rows(row@, views.take(i as int)),
        decreases results.len() - i,
    {
        let ghost upto = views.take(i + 1);
        assert(upto.drop_last() =~= views.take(i as int));
        assert(upto.last() == results@[i as int]@);
        let entry = match render_time(results[i].time.secs, results[i].time.nanos) {
            Some(time) => fill_row(row, &results[i], time.as_str()),
            None => fill_row(row, &results[i], ""),
        };
        proof {
            reveal_strlit("");
            reveal_strlit("\n");
            assert(""@ =~= Seq::<char>::empty());
        }
        let ghost before = table_entries@;
        table_entries.append("\n");
        table_entries.append(entry.as_str());
        assert(table_entries@ =~= before + seq!['\n'] + entry@);
        i = i + 1;
    }
    assert(views.take(results.len() as int) =~= views);
    replace(html.as_str(), "{{result_entries}}", table_entries.as_str())
}

/// The response that shows the record of `stats` as a page.
///
/// Both templates must be at hand: without them there is no page to make.
pub fn stats_response(stats: &ServerStats, resources: &DynamicFiles) -> (result: Result<
    Response,
    Response,
>)
    requires
        resources@.contains_key("/stats.html"@),
        resources@.contains_key("/stats_table_entry.html"@),
    ensures
        result is Ok,
        result->Ok_0@ == (ResponseView {
            response_identifiers: status_ok(),
            headers: seq![("content-type"@, content_type_for("_.html"@))],
            body: encode_utf8(
                stats_page(
                    resources@["/stats.html"@],
                    resources@["/stats_table_entry.html"@],
                    result_views(stats.request_results@),
                ),
            ),
        }),
{
    let result_view = ResultView::of(&stats.request_results);
    let page = match resources.get("/stats.html") {
        Some(page) => page,
        None => {
            return Ok(Response::default_ok());
        },
    };
    let row = match resources.get("/stats_table_entry.html") {
        Some(row) => row,
        None => {
            return Ok(Response::default_ok());
        },
    };
    let html = build_html(page.as_str(), row.as_str(), &stats.request_results, &result_view);
    let mut response = Response::default_ok();
    response.add_content_type(String::from_str("_.html"));
    response.body = html.as_str().as_bytes_vec();
    assert(response@.headers =~= seq![("content-type"@, content_type_for("_.html"@))]);
    Ok(response)
}

} // verus!
