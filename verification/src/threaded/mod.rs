//! The thread-per-connection strategy: what a worker does with one
//! connection, and the pool that hands the connections out.

pub mod controller;
pub mod request_handler;
pub mod server;

use crate::file::ServerFiles;
use crate::request::{parse_bytes, parse_request};
use crate::response::{sendable, status_bad_request};
use crate::threaded::controller::error_controller::{error_response_400, error_view};
use crate::threaded::request_handler::{handle_request, routed};
use crate::threaded::server::{
    result_views, RequestResult, RequestResultView, ServerStats, Timestamp,
};
use vstd::prelude::*;

verus! {

/// What a worker has to do for one connection: the bytes to send, and what
/// to note in the record, which is the status code and the requested path.
/// A request that could not be read leaves nothing to note.
pub struct Served {
    pub bytes: Vec<u8>,
    pub record: Option<(u32, String)>,
}

/// [`Served`] as the contracts see it.
pub struct ServedView {
    pub bytes: Seq<u8>,
    pub record: Option<(u32, Seq<char>)>,
}

impl View for Served {
    type V = ServedView;

    open spec fn view(&self) -> ServedView {
        ServedView {
            bytes: self.bytes@,
            record: match self.record {
                Some((code, path)) => Some((code, path@)),
                None => None,
            },
        }
    }
}

/// What is to be done for the connection on which `buffer` came in.
///
/// A buffer that holds no request is answered with the report of the status
/// 400, made from the sentence of the error. A request is answered by its
/// path, see [`routed`].
pub open spec fn served(
    buffer: Seq<u8>,
    files: Map<Seq<char>, Seq<u8>>,
    templates: Map<Seq<char>, Seq<char>>,
    results: Seq<RequestResultView>,
) -> ServedView {
    match parse_bytes(buffer) {
        Err(error) => ServedView {
            bytes: sendable(
                error_view(
                    status_bad_request(),
                    "Could not parse request."@ + error.detail(),
                    templates,
                ),
            ),
            record: None,
        },
        Ok(request) => {
            let response = routed(request.request_identifiers.path, files, templates, results);
            ServedView {
                bytes: sendable(response),
                record: Some(
                    (response.response_identifiers.method.id, request.request_identifiers.path),
                ),
            }
        },
    }
}

/// Handles one connection, from the bytes that were read to the bytes that
/// are to be written.
pub fn handle_connection(buffer: Vec<u8>, server_files: &ServerFiles, stats: &ServerStats) -> (done:
    Served)
    ensures
        done@ == served(
            buffer@,
            server_files.static_files@,
            server_files.dynamic_files@,
            result_views(stats.request_results@),
        ),
{
    let request = match parse_request(buffer) {
        Ok(request) => request,
        Err(error) => {
            let mut response = error_response_400(error.to_string(), &server_files.dynamic_files);
            return Served { bytes: response.make_sendable(), record: None };
        },
    };
    let mut response = handle_request(&request, server_files, stats);
    let bytes = response.make_sendable();
    let code = response.response_identifiers.method.id();
    Served { bytes, record: Some((code, request.request_identifiers.path)) }
}

/// Makes the entry of the record for a connection that was handled at
/// `time` and took `duration` milliseconds. A connection that left nothing
/// to note gets no entry.
pub fn stat_wrapper(connection_result: Option<(u32, String)>, time: Timestamp, duration: u128) -> (entry:
    Option<RequestResult>)
    ensures
        match connection_result {
            Some((code, path)) => entry is Some && entry->0@ == (RequestResultView {
                response_code: code,
                requested_resource: path@,
                time,
                duration,
            }),
            None => entry is None,
        },
{
    match connection_result {
        Some((code, path)) => Some(
            RequestResult { response_code: code, duration, time, requested_resource: path },
        ),
        None => None,
    }
}

} // verus!
