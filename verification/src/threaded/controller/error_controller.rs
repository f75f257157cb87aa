//! Responses that report an error, as a page where the template for it is
//! at hand.

use crate::file::DynamicFiles;
use crate::response::{
    bare, content_type_for, error_page, status_bad_request, status_not_found, Response,
    ResponseView, StatusLine,
};
use vstd::prelude::*;
use vstd::utf8::*;

verus! {

/// The response that reports an error with the status `line`: the error
/// page where `templates` holds `/error_page.html`, and the bare status
/// where it does not.
pub open spec fn error_view(
    line: StatusLine,
    message: Seq<char>,
    templates: Map<Seq<char>, Seq<char>>,
) -> ResponseView {
    if templates.contains_key("/error_page.html"@) {
        ResponseView {
            response_identifiers: line,
            headers: seq![("content-type"@, content_type_for("_.html"@))],
            body: encode_utf8(error_page(line.method, templates["/error_page.html"@], message)),
        }
    } else {
        bare(line)
    }
}

/// The response to a request that could not be read: status 400.
pub fn error_response_400(error_message: String, dynamic_files: &DynamicFiles) -> (response:
    Response)
    ensures
        response@ == error_view(status_bad_request(), error_message@, dynamic_files@),
{
    let mut response = Response::default_bad_request();
    response.dynamic_error_response(error_message, dynamic_files);
    assert(response@.headers =~= error_view(
        status_bad_request(),
        error_message@,
        dynamic_files@,
    ).headers);
    response
}

/// The response to a request for what the server does not hold: status 404.
pub fn error_response_404(error_message: String, dynamic_files: &DynamicFiles) -> (response:
    Response)
    ensures
        response@ == error_view(status_not_found(), error_message@, dynamic_files@),
{
    let mut response = Response::default_not_found();
    response.dynamic_error_response(error_message, dynamic_files);
    assert(response@.headers =~= error_view(
        status_not_found(),
        error_message@,
        dynamic_files@,
    ).headers);
    response
}

/// The response to a failure of the server itself. There is no status of
/// its own for it: it goes out under the status 404, with the page made
/// from `error_message`.
pub fn error_response_500(error_message: String, dynamic_files: &DynamicFiles) -> (response:
    Response)
    ensures
        response@ == error_view(status_not_found(), error_message@, dynamic_files@),
{
    error_response_404(error_message, dynamic_files)
}

} // verus!
