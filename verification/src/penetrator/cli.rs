//! The rules for what the load tester takes from its command line.

use crate::decimal::{bounded_value, parse_bounded};
use vstd::prelude::*;
use vstd::string::*;

verus! {

/// Whether the parser of URLs takes `text` for a URL.
pub uninterp spec fn url_parses(text: Seq<char>) -> bool;

/// `Url::parse`, which reqwest hands on from the crate url. All that is
/// claimed is that whether it accepts depends on the text alone.
#[verifier::external_body]
fn parses_as_url(url: &str) -> (accepted: bool)
    ensures
        accepted == url_parses(url@),
{
    match reqwest::Url::parse(url) {
        Ok(_) => true,
        Err(_) => false,
    }
}

/// A number of requests that the load tester accepts: any that the machine
/// can count to.
pub open spec fn is_count(text: Seq<char>) -> bool {
    bounded_value(text, usize::MAX as nat) is Some
}

/// The verdict on a URL, given whether the parser of URLs took it.
pub fn url_verdict(accepted: bool) -> (result: Result<(), String>)
    ensures
        result is Ok <==> accepted,
        result matches Err(message) ==> message@ == "Please provide a valid url"@,
{
    if accepted {
        Ok(())
    } else {
        Err(String::from_str("Please provide a valid url"))
    }
}

/// Checks the URL that the user gave.
pub fn valid_url(url: String) -> (result: Result<(), String>)
    ensures
        result is Ok <==> url_parses(url@),
        result matches Err(message) ==> message@ == "Please provide a valid url"@,
{
    url_verdict(parses_as_url(url.as_str()))
}

/// Checks the number of requests that the user gave.
pub fn valid_num(num: String) -> (result: Result<(), String>)
    ensures
        result is Ok <==> is_count(num@),
        result matches Err(message) ==> message@ == "Please provide a valid number"@,
{
    match parse_bounded(num.as_str(), usize::MAX as u64) {
        Some(_) => Ok(()),
        None => Err(String::from_str("Please provide a valid number")),
    }
}

/// Turns what the command line held into what the load tester starts with:
/// the URL to send requests to and the number of requests.
///
/// Both values have to pass their checks; the first that does not is
/// reported with the sentence of its check.
pub fn start_cli(url: &str, num: &str) -> (result: Result<(String, usize), String>)
    ensures
        result is Ok <==> url_parses(url@) && is_count(num@),
        result matches Ok(settings) ==> settings.0@ == url@ && bounded_value(
            num@,
            usize::MAX as nat,
        ) == Some(settings.1 as nat),
{
    match valid_url(url.to_owned()) {
        Ok(_) => {},
        Err(message) => {
            return Err(message);
        },
    }
    match parse_bounded(num, usize::MAX as u64) {
        Some(number) => Ok((url.to_owned(), number as usize)),
        None => Err(String::from_str("Please provide a valid number")),
    }
}

} // verus!
