//! Which controller answers which path.

use crate::file::ServerFiles;
use crate::request::Request;
use crate::response::{content_type_for, status_not_found, status_ok, Response, ResponseView};
use crate::text::same_text;
use crate::threaded::controller::error_controller::error_view;
use crate::threaded::controller::file_controller::{file_response, file_view, not_found_message};
use crate::threaded::controller::stats_controller::{stats_page, stats_response};
use crate::threaded::server::{result_views, RequestResultView, ServerStats};
use vstd::prelude::*;
use vstd::utf8::*;

verus! {

/// Whether both templates of the statistics page are at hand.
pub open spec fn has_stats_templates(templates: Map<Seq<char>, Seq<char>>) -> bool {
    templates.contains_key("/stats.html"@) && templates.contains_key("/stats_table_entry.html"@)
}

/// The response to a request for `path`.
///
/// The path `/stats` is answered with the statistics page, as long as its
/// templates are at hand. Every other path, and `/stats` without the
/// templates, is a request for the static file of that path: status 200
/// with the file where the table holds it, and else the report of the
/// status 404.
pub open spec fn routed(
    path: Seq<char>,
    files: Map<Seq<char>, Seq<u8>>,
    templates: Map<Seq<char>, Seq<char>>,
    results: Seq<RequestResultView>,
) -> ResponseView {
    if path == "/stats"@ && has_stats_templates(templates) {
        ResponseView {
            response_identifiers: status_ok(),
            headers: seq![("content-type"@, content_type_for("_.html"@))],
            body: encode_utf8(
                stats_page(
                    templates["/stats.html"@],
                    templates["/stats_table_entry.html"@],
                    results,
                ),
            ),
        }
    } else if files.contains_key(path) {
        file_view(path, files[path])
    } else {
        error_view(status_not_found(), not_found_message(path), templates)
    }
}

/// Answers `request` by its path.
pub fn handle_request(request: &Request, server_files: &ServerFiles, stats: &ServerStats) -> (response:
    Response)
    ensures
        response@ == routed(
            request@.request_identifiers.path,
            server_files.static_files@,
            server_files.dynamic_files@,
            result_views(stats.request_results@),
        ),
{
    let path = &request.request_identifiers.path;
    let wants_stats = same_text(path.as_str(), "/stats");
    let has_page = server_files.dynamic_files.get("/stats.html").is_some();
    let has_row = server_files.dynamic_files.get("/stats_table_entry.html").is_some();
    let response = if wants_stats && has_page && has_row {
        stats_response(stats, &server_files.dynamic_files)
    } else {
        file_response(server_files, path.clone())
    };
    match response {
        Ok(response) => response,
        Err(response) => response,
    }
}

} // verus!
