//! The rules for what the server takes from its command line.
//!
//! Reading the command line is the caller's part. What it read comes here
//! as text, and is checked and turned into the values the server starts
//! with.

use crate::decimal::{bounded_value, parse_bounded};
use crate::text::{pieces_of, same_text, split_char, views};
use vstd::prelude::*;
use vstd::string::*;

verus! {

/// A port that the server may listen on: a number above 1024 and below
/// 65536.
pub open spec fn is_port(text: Seq<char>) -> bool {
    match bounded_value(text, u32::MAX as nat) {
        Some(port) => 1024 < port < 65536,
        None => false,
    }
}

/// A number of worker threads that the server accepts: three or more.
pub open spec fn is_thread_count(text: Seq<char>) -> bool {
    match bounded_value(text, u32::MAX as nat) {
        Some(count) => count > 2,
        None => false,
    }
}

/// How many of `pieces` are numbers from 0 to 255.
pub open spec fn count_octets(pieces: Seq<Seq<char>>) -> nat
    decreases pieces.len(),
{
    if pieces.len() == 0 {
        0
    } else {
        count_octets(pieces.drop_last()) + if bounded_value(pieces.last(), 255) is Some {
            1nat
        } else {
            0nat
        }
    }
}

/// An address that the server accepts: of the pieces between its dots,
/// exactly four are numbers from 0 to 255.
pub open spec fn is_ip(text: Seq<char>) -> bool {
    count_octets(pieces_of(text, '.')) == 4
}

/// An operating system on which the event loop runs.
pub open spec fn runs_event_loop(os: Seq<char>) -> bool {
    os == "macos"@ || os == "freebsd"@ || os == "linux"@
}

/// Why `kind` is no server type to start on the operating system `os`;
/// `None` where it is one.
pub open spec fn type_fault(kind: Seq<char>, os: Seq<char>) -> Option<Seq<char>> {
    if kind == "threaded"@ || kind == "rouille"@ {
        None
    } else if kind == "event_loop"@ || kind == "all"@ {
        if runs_event_loop(os) {
            None
        } else {
            Some("Event loop is only supported on BSD systems, and eventually linux."@)
        }
    } else {
        Some("Please select a server type [threaded|event_loop|rouille]"@)
    }
}

/// Checks the port that the user gave.
pub fn valid_port(string: String) -> (result: Result<(), String>)
    ensures
        result is Ok <==> is_port(string@),
        result matches Err(message) ==> message@ == "Please provide a valid port (>1024)"@,
{
    match parse_bounded(string.as_str(), 0xffff_ffff) {
        Some(num) => {
            if num > 1024 && num < 65536 {
                return Ok(());
            }
        },
        None => {},
    }
    Err(String::from_str("Please provide a valid port (>1024)"))
}

/// Checks the number of worker threads that the user gave.
pub fn valid_threads(string: String) -> (result: Result<(), String>)
    ensures
        result is Ok <==> is_thread_count(string@),
        result matches Err(message) ==> message@
            == "Please provide a valid amount of threads (>2)"@,
{
    match parse_bounded(string.as_str(), 0xffff_ffff) {
        Some(num) => {
            if num > 2 {
                return Ok(());
            }
        },
        None => {},
    }
    Err(String::from_str("Please provide a valid amount of threads (>2)"))
}

/// Checks the address that the user gave.
pub fn valid_ip(ip: String) -> (result: Result<(), String>)
    ensures
        result is Ok <==> is_ip(ip@),
        result matches Err(message) ==> message@
            == "Please provide a valid IPv4. e.g. 127.0.0.1"@,
{
    let pieces = split_char(ip.as_str(), '.');
    let ghost all = views(pieces@);
    let mut blocks: usize = 0;
    let mut i: usize = 0;
    assert(all.take(0) =~= Seq::<Seq<char>>::empty());
    while i < pieces.len()
        invariant
            all == views(pieces@),
            i <= pieces.len(),
            blocks == count_octets(all.take(i as int)),
            blocks <= i,
        decreases pieces.len() - i,
    {
        assert(all.take(i + 1).drop_last() =~= all.take(i as int));
        assert(all.take(i + 1).last() == pieces@[i as int]@);
        if parse_bounded(pieces[i], 255).is_some() {
            blocks = blocks + 1;
        }
        i = i + 1;
    }
    assert(all.take(pieces.len() as int) =~= all);
    if blocks == 4 {
        Ok(())
    } else {
        Err(String::from_str("Please provide a valid IPv4. e.g. 127.0.0.1"))
    }
}

/// Checks the type of server that the user gave. `os` is the name of the
/// operating system that the server is to run on.
pub fn valid_type(s: String, os: &str) -> (result: Result<(), String>)
    ensures
        result is Ok <==> type_fault(s@, os@) is None,
        result matches Err(message) ==> type_fault(s@, os@) == Some(message@),
{
    let kind = s.as_str();
    if same_text(kind, "threaded") || same_text(kind, "rouille") {
        return Ok(());
    }
    if same_text(kind, "event_loop") || same_text(kind, "all") {
        if same_text(os, "macos") || same_text(os, "freebsd") || same_text(os, "linux") {
            return Ok(());
        }
        return Err(
            String::from_str("Event loop is only supported on BSD systems, and eventually linux."),
        );
    }
    Err(String::from_str("Please select a server type [threaded|event_loop|rouille]"))
}

/// Whether the five texts are settings that the server starts with.
pub open spec fn are_settings(
    ip: Seq<char>,
    port: Seq<char>,
    threads: Seq<char>,
    kind: Seq<char>,
    os: Seq<char>,
) -> bool {
    is_ip(ip) && is_port(port) && is_thread_count(threads) && threads_fit(threads) && type_fault(
        kind,
        os,
    ) is None
}

/// Whether the number of threads can be held in the type it is handed on
/// in.
pub open spec fn threads_fit(threads: Seq<char>) -> bool {
    match bounded_value(threads, u32::MAX as nat) {
        Some(count) => count <= i32::MAX,
        None => false,
    }
}

/// Turns what the command line held into what the server starts with:
/// address, port, served directory, number of worker threads and type of
/// server.
///
/// Each value has to pass its check, and the number of threads has to fit
/// the type it is handed on in. The first value that does not is reported
/// with the sentence of its check.
pub fn start_cli(ip: &str, port: &str, dir: &str, threads: &str, type_: &str, os: &str) -> (result:
    Result<(String, i32, String, i32, String), String>)
    ensures
        result is Ok <==> are_settings(ip@, port@, threads@, type_@, os@),
        result matches Ok(settings) ==> {
            &&& settings.0@ == ip@
            &&& bounded_value(port@, u32::MAX as nat) == Some(settings.1 as nat)
            &&& settings.2@ == dir@
            &&& bounded_value(threads@, u32::MAX as nat) == Some(settings.3 as nat)
            &&& settings.4@ == type_@
        },
{
    match valid_ip(ip.to_owned()) {
        Ok(_) => {},
        Err(message) => {
            return Err(message);
        },
    }
    match valid_port(port.to_owned()) {
        Ok(_) => {},
        Err(message) => {
            return Err(message);
        },
    }
    match valid_threads(threads.to_owned()) {
        Ok(_) => {},
        Err(message) => {
            return Err(message);
        },
    }
    match valid_type(type_.to_owned(), os) {
        Ok(_) => {},
        Err(message) => {
            return Err(message);
        },
    }
    let port_number = match parse_bounded(port, 0xffff_ffff) {
        Some(number) => number,
        None => {
            return Err(String::from_str("Please provide a valid port (>1024)"));
        },
    };
    let thread_count = match parse_bounded(threads, 0xffff_ffff) {
        Some(number) => number,
        None => {
            return Err(String::from_str("Please provide a valid amount of threads (>2)"));
        },
    };
    if thread_count > 0x7fff_ffff {
        return Err(String::from_str("Please provide a valid amount of threads (>2)"));
    }
    Ok((ip.to_owned(), port_number as i32, dir.to_owned(), thread_count as i32, type_.to_owned()))
}

} // verus!
