//! What holds of every answer that the server gives.

use crate::request::parse_bytes;
use crate::response::{answer, lookup};
use crate::threaded::request_handler::{has_stats_templates, routed};
use crate::threaded::server::RequestResultView;
use vstd::prelude::*;

verus! {

/// A request for a path that the table holds is answered with the status
/// 200 and, as the body, exactly the bytes stored under the path. A request
/// for a path that the table does not hold is answered with the status 404.
pub proof fn law_table_decides_the_status(path: Seq<char>, files: Map<Seq<char>, Seq<u8>>)
    ensures
        files.contains_key(path) ==> lookup(path, files).response_identifiers.method.id == 200
            && lookup(path, files).body == files[path],
        !files.contains_key(path) ==> lookup(path, files).response_identifiers.method.id == 404,
{
}

/// What holds of a path holds of every buffer that asks for it: where the
/// buffer is a request, its answer is what the table gives for the path of
/// the request, and where it is none, the answer has the status 400.
pub proof fn law_buffer_is_answered_by_its_path(buffer: Seq<u8>, files: Map<Seq<char>, Seq<u8>>)
    ensures
        match parse_bytes(buffer) {
            Ok(request) => {
                let path = request.request_identifiers.path;
                &&& files.contains_key(path) ==> answer(
                    buffer,
                    files,
                ).response_identifiers.method.id == 200 && answer(buffer, files).body
                    == files[path]
                &&& !files.contains_key(path) ==> answer(
                    buffer,
                    files,
                ).response_identifiers.method.id == 404
            },
            Err(_) => answer(buffer, files).response_identifiers.method.id == 400,
        },
{
}

/// The same holds where a worker of the pool answers: apart from the
/// statistics page, a path that the table holds is answered with the
/// status 200 and the stored bytes, and any other path with the status
/// 404.
pub proof fn law_worker_answers_by_the_table(
    path: Seq<char>,
    files: Map<Seq<char>, Seq<u8>>,
    templates: Map<Seq<char>, Seq<char>>,
    results: Seq<RequestResultView>,
)
    requires
        !(path == "/stats"@ && has_stats_templates(templates)),
    ensures
        files.contains_key(path) ==> routed(
            path,
            files,
            templates,
            results,
        ).response_identifiers.method.id == 200 && routed(path, files, templates, results).body
            == files[path],
        !files.contains_key(path) ==> routed(
            path,
            files,
            templates,
            results,
        ).response_identifiers.method.id == 404,
{
}

} // verus!
