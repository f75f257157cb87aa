use std::collections::HashMap;
use webserver::headers::Headers;
use webserver::request::{
    get_headers, get_request_identifiers, parse_request, read_request, ParseError,
    RequestIdentifiers, RequestType, StartLineFault,
};

fn as_map(headers: &Headers) -> HashMap<String, String> {
    let mut map = HashMap::new();
    let mut at = 0;
    while let Some((key, value)) = headers.entry(at) {
        map.insert(key.clone(), value.clone());
        at += 1;
    }
    assert_eq!(map.len(), headers.len());
    map
}

#[test]
fn request_get_headers_test() {
    let request = vec![
        "GET /hello HTTP/1.1\r\n",
        "Host: localhost:8080\r\n",
        "Connection: keep-alive\r\n",
        "Cache-Control: max-age=0\r\n",
        "DNT: 1\r\n",
        "Upgrade-Insecure-Requests: 1\r\n",
        "User-Agent: Mozilla/5.0 (Macintosh; Intel Mac OS X 10_15_1) AppleWebKit/537.36 (KHTML, like Gecko) Chrome/83.0.4103.97 Safari/537.36\r\n",
        "Accept: text/html,application/xhtml+xml,application/xml;q=0.9,image/webp,image/apng,*/*;q=0.8,application/signed-exchange;v=b3;q=0.9\r\n",
        "Sec-Fetch-Site: none\r\n",
        "Sec-Fetch-Mode: navigate\r\n",
        "Sec-Fetch-User: ?1\r\n",
        "Sec-Fetch-Dest: document\r\n",
    ];

    let mut result = HashMap::new();
    result.insert("Host", "localhost:8080\r\n");
    result.insert("Connection", "keep-alive\r\n");
    result.insert("Cache-Control", "max-age=0\r\n");
    result.insert("DNT", "1\r\n");
    result.insert("Upgrade-Insecure-Requests", "1\r\n");
    result.insert("User-Agent", "Mozilla/5.0 (Macintosh; Intel Mac OS X 10_15_1) AppleWebKit/537.36 (KHTML, like Gecko) Chrome/83.0.4103.97 Safari/537.36\r\n");
    result.insert("Accept", "text/html,application/xhtml+xml,application/xml;q=0.9,image/webp,image/apng,*/*;q=0.8,application/signed-exchange;v=b3;q=0.9\r\n");
    result.insert("Sec-Fetch-Site", "none\r\n");
    result.insert("Sec-Fetch-Mode", "navigate\r\n");
    result.insert("Sec-Fetch-User", "?1\r\n");
    result.insert("Sec-Fetch-Dest", "document\r\n");

    let result: HashMap<String, String> =
        result.iter().map(|str| (str.0.to_string(), str.1.to_string())).collect();
    assert_eq!(as_map(&get_headers(&request).unwrap()), result)
}

#[test]
fn requests_get_headers_test() {
    let request = vec![
        "GET /hello HTTP/1.1\r\n",
        "Host: localhost:8080\r\n",
        "Connection: keep-alive\r\n",
        "Cache-Control: max-age=0\r\n",
        "DNT: 1\r\n",
        "Upgrade-Insecure-Requests: 1\r\n",
        "User-Agent: Mozilla/5.0 (Macintosh; Intel Mac OS X 10_15_1) AppleWebKit/537.36 (KHTML, like Gecko) Chrome/83.0.4103.97 Safari/537.36\r\n",
        "Accept: text/html,application/xhtml+xml,application/xml;q=0.9,image/webp,image/apng,*/*;q=0.8,application/signed-exchange;v=b3;q=0.9\r\n",
        "Sec-Fetch-Site: none\r\n",
        "Sec-Fetch-Mode: navigate\r\n",
        "Sec-Fetch-User: ?1\r\n",
        "Sec-Fetch-Dest: document\r\n",
    ];

    let mut result = HashMap::new();
    result.insert("Host", "localhost:8080\r\n");
    result.insert("Connection", "keep-alive\r\n");
    result.insert("Cache-Control", "max-age=0\r\n");
    result.insert("DNT", "1\r\n");
    result.insert("Upgrade-Insecure-Requests", "1\r\n");
    result.insert("User-Agent", "Mozilla/5.0 (Macintosh; Intel Mac OS X 10_15_1) AppleWebKit/537.36 (KHTML, like Gecko) Chrome/83.0.4103.97 Safari/537.36\r\n");
    result.insert("Accept", "text/html,application/xhtml+xml,application/xml;q=0.9,image/webp,image/apng,*/*;q=0.8,application/signed-exchange;v=b3;q=0.9\r\n");
    result.insert("Sec-Fetch-Site", "none\r\n");
    result.insert("Sec-Fetch-Mode", "navigate\r\n");
    result.insert("Sec-Fetch-User", "?1\r\n");
    result.insert("Sec-Fetch-Dest", "document\r\n");

    let result: HashMap<String, String> =
        result.iter().map(|str| (str.0.to_string(), str.1.to_string())).collect();
    assert_eq!(as_map(&get_headers(&request).unwrap()), result)
}

#[test]
fn get_headers_test_no_colon() {
    let request =
        vec!["GET /hello HTTP/1.1\r\n", "Host: localhost:8080\r\n", "Connection keep-alive\r\n"];

    let mut result = HashMap::new();
    result.insert("Host", "localhost:8080\r\n");

    let result: HashMap<String, String> =
        result.iter().map(|str| (str.0.to_string(), str.1.to_string())).collect();
    assert_eq!(as_map(&get_headers(&request).unwrap()), result)
}

#[test]
fn get_headers_test_colon_in_value() {
    let request = vec![
        "GET /hello HTTP/1.1\r\n",
        "Host: localhost:8080\r\n",
        "UselessHeader: Colon:Test\r\n",
    ];

    let mut result = HashMap::new();
    result.insert("Host", "localhost:8080\r\n");
    result.insert("UselessHeader", "Colon:Test\r\n");

    let result: HashMap<String, String> =
        result.iter().map(|str| (str.0.to_string(), str.1.to_string())).collect();
    assert_eq!(as_map(&get_headers(&request).unwrap()), result)
}

#[test]
fn get_headers_test_empty() {
    let request = vec!["GET /hello HTTP/1.1\r\n"];

    let result: HashMap<String, String> = HashMap::new();

    assert_eq!(as_map(&get_headers(&request).unwrap()), result)
}

#[test]
fn get_request_identifiers_test() {
    let request = vec!["GET /hello HTTP/1.1\r\n"];

    let result = RequestIdentifiers {
        method: RequestType::Get,
        path: "/hello".to_string(),
        version: "HTTP/1.1".to_string(),
    };

    assert_eq!(get_request_identifiers(&request).unwrap(), result)
}

#[test]
fn get_request_identifiers_test_missing_path() {
    let request = vec!["GET HTTP/1.1\r\n"];

    assert_eq!(
        get_request_identifiers(&request).err().unwrap().to_string(),
        "Could not parse request.http version not specified."
    )
}

#[test]
fn get_request_identifiers_test_empty() {
    let request = vec![];

    assert_eq!(
        get_request_identifiers(&request).err().unwrap().to_string(),
        "Could not parse request.First line does not confirm HTTP protocol."
    )
}

#[test]
fn start_line_gives_method_path_and_version() {
    let request = read_request("POST /submit HTTP/1.0\r\nHost: a\r\n\r\n").unwrap();
    assert_eq!(
        request.request_identifiers,
        RequestIdentifiers {
            method: RequestType::Post,
            path: "/submit".to_string(),
            version: "HTTP/1.0".to_string(),
        }
    );
    assert_eq!(request.body, "");
}

#[test]
fn query_string_is_cut_off() {
    let request = read_request("GET /hello?name=a&b=?c HTTP/1.1\r\n\r\n").unwrap();
    assert_eq!(request.request_identifiers.path, "/hello");
    let request = read_request("GET ?x HTTP/1.1\r\n\r\n").unwrap();
    assert_eq!(request.request_identifiers.path, "");
}

#[test]
fn unknown_method_counts_as_get() {
    let request = read_request("DELETE /hello HTTP/1.1\r\n\r\n").unwrap();
    assert_eq!(request.request_identifiers.method, RequestType::Get);
    let request = read_request("post /hello HTTP/1.1\r\n\r\n").unwrap();
    assert_eq!(request.request_identifiers.method, RequestType::Get);
}

#[test]
fn start_line_words_are_split_at_any_whitespace() {
    let request = read_request("  GET\t/hello \u{a0} HTTP/1.1 \r\n").unwrap();
    assert_eq!(request.request_identifiers.path, "/hello");
    assert_eq!(request.request_identifiers.version, "HTTP/1.1");
}

#[test]
fn each_start_line_fault_is_told() {
    let fault = |text: &str| read_request(text).err().unwrap();
    assert_eq!(fault(""), ParseError::MalformedStartLine(StartLineFault::NoMethod));
    assert_eq!(fault("\r\nGET / HTTP/1.1"), ParseError::MalformedStartLine(StartLineFault::NoMethod));
    assert_eq!(fault("GET\r\n"), ParseError::MalformedStartLine(StartLineFault::NoPath));
    assert_eq!(fault("GET /\r\n"), ParseError::MalformedStartLine(StartLineFault::NoVersion));
    assert_eq!(
        fault("GET / HTTP/1.1 more\r\n"),
        ParseError::MalformedStartLine(StartLineFault::Surplus)
    );
    assert_eq!(
        get_request_identifiers(&vec![]).err().unwrap(),
        ParseError::MalformedStartLine(StartLineFault::NoLine)
    );
}

#[test]
fn each_fault_has_its_sentence() {
    assert_eq!(
        ParseError::NotText.to_string(),
        "Could not parse request.Request could not be interpreted as string."
    );
    assert_eq!(
        ParseError::MalformedStartLine(StartLineFault::NoMethod).to_string(),
        "Could not parse request.HTTP Type not specified"
    );
    assert_eq!(
        ParseError::MalformedStartLine(StartLineFault::NoPath).to_string(),
        "Could not parse request.path not provided"
    );
    assert_eq!(
        ParseError::MalformedStartLine(StartLineFault::Surplus).to_string(),
        "Could not parse request.First line goes on after the http version."
    );
}

#[test]
fn headers_are_read_from_the_second_line_on() {
    let request = read_request(
        "GET / HTTP/1.1\r\nHost: localhost:8080\r\nno separator here\r\nA: 1\r\nA: 2\r\nB:3\r\nC: \r\n: d\r\n\r\n",
    )
    .unwrap();
    let headers = as_map(&request.headers);
    assert_eq!(headers.len(), 4);
    assert_eq!(headers["Host"], "localhost:8080");
    assert_eq!(headers["A"], "2");
    assert_eq!(headers["C"], "");
    assert_eq!(headers[""], "d");
    assert_eq!(request.headers.get("Host").unwrap(), "localhost:8080");
    assert!(request.headers.contains_key("A"));
    assert!(!request.headers.contains_key("host"));
    assert!(!request.headers.contains_key("B"));
    assert!(request.headers.get("B:3").is_none());
}

#[test]
fn header_lines_never_fail_the_parse() {
    assert!(read_request("GET / HTTP/1.1\r\n::::\r\n\r\n \r\n:\r\n").is_ok());
    assert_eq!(as_map(&read_request("GET / HTTP/1.1\r\n::::\r\n").unwrap().headers).len(), 0);
}

#[test]
fn a_lone_line_feed_does_not_end_a_line() {
    let request = read_request("GET / HTTP/1.1\nHost: a\r\nB: c\r\n").unwrap_err();
    assert_eq!(request, ParseError::MalformedStartLine(StartLineFault::Surplus));
}

#[test]
fn bytes_that_are_no_text_are_refused() {
    assert_eq!(parse_request(vec![0xff, 0xfe, 0xfd]).err().unwrap(), ParseError::NotText);
    assert_eq!(parse_request(vec![0xc3]).err().unwrap(), ParseError::NotText);
}

#[test]
fn bytes_are_decoded_before_they_are_parsed() {
    let request = parse_request("GET /gr\u{fc}n?x HTTP/1.1\r\nK\u{e4}se: j\u{e4}\r\n".as_bytes().to_vec())
        .unwrap();
    assert_eq!(request.request_identifiers.path, "/gr\u{fc}n");
    assert_eq!(request.headers.get("K\u{e4}se").unwrap(), "j\u{e4}");
}

#[test]
fn a_buffer_padded_with_zeros_still_holds_its_request() {
    let mut buffer = "GET /hello HTTP/1.1\r\nHost: a\r\n\r\n".as_bytes().to_vec();
    buffer.resize(2048, 0);
    let request = parse_request(buffer).unwrap();
    assert_eq!(request.request_identifiers.path, "/hello");
    assert_eq!(request.request_identifiers.version, "HTTP/1.1");
    assert_eq!(request.headers.get("Host").unwrap(), "a");
}
