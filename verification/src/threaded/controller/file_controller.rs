//! Serving a static file.

use crate::file::ServerFiles;
use crate::response::{content_type_for, status_ok, Response, ResponseView};
use crate::threaded::controller::error_controller::{error_response_404, error_view};
use crate::response::status_not_found;
use vstd::prelude::*;
use vstd::string::*;

verus! {

/// What the page for a missing file says about `path`.
pub open spec fn not_found_message(path: Seq<char>) -> Seq<char> {
    "Requested resource "@ + path + " could not be found."@
}

/// The response that serves `content` as the file at `path`: status 200,
/// the content type that goes with the path, and the content as the body.
pub open spec fn file_view(path: Seq<char>, content: Seq<u8>) -> ResponseView {
    ResponseView {
        response_identifiers: status_ok(),
        headers: seq![("content-type"@, content_type_for(path))],
        body: content,
    }
}

/// Serves the static file stored under exactly `path`.
///
/// Gives `Ok` with the file exactly if the table of static files holds the
/// path, and else `Err` with the response that reports the status 404.
pub fn file_response(server_files: &ServerFiles, path: String) -> (result: Result<
    Response,
    Response,
>)
    ensures
        match result {
            Ok(response) => server_files.static_files@.contains_key(path@) && response@
                == file_view(path@, server_files.static_files@[path@]),
            Err(response) => !server_files.static_files@.contains_key(path@) && response@
                == error_view(
                status_not_found(),
                not_found_message(path@),
                server_files.dynamic_files@,
            ),
        },
{
    match server_files.static_files.get(path.as_str()) {
        Some(resource) => {
            let mut response = Response::default_ok();
            let body = resource.clone();
            response.add_content_type(path);
            response.body = body;
            assert(response@.headers =~= file_view(path@, resource@).headers);
            Ok(response)
        },
        None => {
            let mut message = String::from_str("Requested resource ");
            message.append(path.as_str());
            message.append(" could not be found.");
            Err(error_response_404(message, &server_files.dynamic_files))
        },
    }
}

} // verus!
