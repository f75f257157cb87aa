use webserver::file::{DynamicFiles, StaticFiles};
use webserver::request::read_request;
use webserver::response::{
    build_error_html, content_type, create_response, respond, Response, ResponseIdentifiers,
    ResponseType,
};

const CORRECT_OK: &str = "HTTP/1.1 200 OK\r\n";
const CORRECT_NOT_FOUND: &str = "HTTP/1.1 404 Not Found\r\n";
const CORRECT_BAD_REQUEST: &str = "HTTP/1.1 400 Bad Request\r\n";

#[test]
fn make_sendable_test() {
    let response_ident =
        ResponseIdentifiers { method: ResponseType::ok(), version: "1.1".to_string() };
    assert_eq!(CORRECT_OK, String::from_utf8(response_ident.make_sendable()).unwrap());
    let response_ident =
        ResponseIdentifiers { method: ResponseType::not_found(), version: "1.1".to_string() };
    assert_eq!(CORRECT_NOT_FOUND, String::from_utf8(response_ident.make_sendable()).unwrap());
    let response_ident =
        ResponseIdentifiers { method: ResponseType::bad_request(), version: "1.1".to_string() };
    assert_eq!(CORRECT_BAD_REQUEST, String::from_utf8(response_ident.make_sendable()).unwrap());
}

#[test]
fn make_sendable_simple_tests() {
    assert_eq!(
        format!("{}\r\n", CORRECT_OK),
        String::from_utf8(Response::default_ok().make_sendable()).unwrap()
    );
    assert_eq!(
        format!("{}\r\n", CORRECT_NOT_FOUND),
        String::from_utf8(Response::default_not_found().make_sendable()).unwrap()
    );
    assert_eq!(
        format!("{}\r\n", CORRECT_BAD_REQUEST),
        String::from_utf8(Response::default_bad_request().make_sendable()).unwrap()
    );
}

#[test]
fn response_with_header_tests() {
    let mut response = Response::default_ok();
    response.add_header("content-type", "text/json");
    response.body = "Hello".to_string().into_bytes();
    assert_eq!(
        format!("{}content-type: text/json\r\n\r\nHello", CORRECT_OK),
        String::from_utf8(response.make_sendable()).unwrap()
    );
}

#[test]
fn make_headers_sendable_test() {
    let mut response = Response::default_ok();
    response.add_header("content-type", "text/json");
    let result = "content-type: text/json\r\n";
    assert_eq!(result, String::from_utf8(response.make_headers_sendable()).unwrap());
}

#[test]
fn add_header_test() {
    let mut response = Response::default_ok();
    response.add_header("content-type", "text/json");
    assert_eq!(response.headers.contains_key("content-type"), true);
    assert_eq!(response.headers.get("content-type").unwrap(), "text/json");
}

#[test]
fn headers_go_out_in_the_order_they_came() {
    let mut response = Response::default_ok();
    response.add_header("b", "1");
    response.add_header("a", "2");
    response.add_header("b", "3");
    assert_eq!(response.headers.len(), 2);
    assert_eq!("b: 3\r\na: 2\r\n", String::from_utf8(response.make_headers_sendable()).unwrap());
}

#[test]
fn body_goes_out_as_it_is_and_leaves_the_response() {
    let mut response = Response::default_not_found();
    response.body = vec![0, 255, 13, 10, 128];
    let mut expected = CORRECT_NOT_FOUND.as_bytes().to_vec();
    expected.extend_from_slice(b"\r\n");
    expected.extend_from_slice(&[0, 255, 13, 10, 128]);
    assert_eq!(response.make_sendable(), expected);
    assert!(response.body.is_empty());
    assert_eq!(response.response_identifiers.method.id, 404);
    assert_eq!(response.response_identifiers.method.name(), "Not Found");
}

#[test]
fn status_number_is_written_in_decimal() {
    let mut response = Response::default_ok();
    response.response_identifiers.method.id = 4_294_967_295;
    response.response_identifiers.version = "2".to_string();
    assert_eq!(
        "HTTP/2 4294967295 OK\r\n",
        String::from_utf8(response.response_identifiers.make_sendable()).unwrap()
    );
    response.response_identifiers.method.id = 0;
    assert_eq!(
        "HTTP/2 0 OK\r\n",
        String::from_utf8(response.response_identifiers.make_sendable()).unwrap()
    );
}

#[test]
fn content_type_goes_by_the_extension() {
    assert_eq!(content_type("/a.json"), "text/json");
    assert_eq!(content_type("/a.js"), "application/javascript");
    assert_eq!(content_type("/a.png"), "img/png");
    assert_eq!(content_type("/a.jpeg"), "img/jpeg");
    assert_eq!(content_type("/a.html"), "text/html");
    assert_eq!(content_type("_.html"), "text/html");
    assert_eq!(content_type("/a.txt"), "text/plain");
    assert_eq!(content_type("/a.css"), "text/css");
    assert_eq!(content_type("/dir.css/a.b.html"), "text/html");
}

#[test]
fn content_type_falls_back_to_plain_text() {
    assert_eq!(content_type("/a.jpg"), "text/plain");
    assert_eq!(content_type("/a.HTML"), "text/plain");
    assert_eq!(content_type("/a"), "text/plain");
    assert_eq!(content_type("/a."), "text/plain");
    assert_eq!(content_type("/.html"), "text/plain");
    assert_eq!(content_type("/dir.html/a"), "text/plain");
    assert_eq!(content_type(""), "text/plain");
    assert_eq!(content_type("/"), "text/plain");
}

#[test]
fn add_content_type_sets_the_header() {
    let mut response = Response::default_ok();
    response.add_content_type("/index.html".to_string());
    assert_eq!(response.headers.get("content-type").unwrap(), "text/html");
    response.add_content_type("/index".to_string());
    assert_eq!(response.headers.get("content-type").unwrap(), "text/plain");
    assert_eq!(response.headers.len(), 1);
}

fn hello_table() -> StaticFiles {
    let mut files = StaticFiles::new();
    files.insert("/hello".to_string(), b"world".to_vec());
    files.insert("/index.html".to_string(), b"<p>hi</p>".to_vec());
    files
}

#[test]
fn stored_path_is_served_with_status_200() {
    let files = hello_table();
    let request = read_request("GET /hello HTTP/1.1\r\n\r\n").unwrap();
    let response = respond(&request, &files);
    assert_eq!(response.response_identifiers.method.id, 200);
    assert_eq!(response.body, b"world".to_vec());
    assert_eq!(response.headers.get("content-type").unwrap(), "text/plain");
    assert_eq!(
        create_response(b"GET /hello HTTP/1.1\r\n\r\n".to_vec(), &files),
        b"HTTP/1.1 200 OK\r\ncontent-type: text/plain\r\n\r\nworld".to_vec()
    );
    assert_eq!(
        create_response(b"GET /index.html?x=1 HTTP/1.1\r\n\r\n".to_vec(), &files),
        b"HTTP/1.1 200 OK\r\ncontent-type: text/html\r\n\r\n<p>hi</p>".to_vec()
    );
}

#[test]
fn missing_path_is_answered_with_status_404() {
    let files = hello_table();
    let request = read_request("GET /missing HTTP/1.1\r\n\r\n").unwrap();
    let response = respond(&request, &files);
    assert_eq!(response.response_identifiers.method.id, 404);
    assert!(response.body.is_empty());
    assert_eq!(response.headers.len(), 0);
    assert_eq!(
        create_response(b"GET /missing HTTP/1.1\r\n\r\n".to_vec(), &files),
        b"HTTP/1.1 404 Not Found\r\n\r\n".to_vec()
    );
    assert_eq!(
        create_response(b"GET /hello/ HTTP/1.1\r\n\r\n".to_vec(), &files),
        b"HTTP/1.1 404 Not Found\r\n\r\n".to_vec()
    );
    assert_eq!(
        create_response(b"GET /HELLO HTTP/1.1\r\n\r\n".to_vec(), &files),
        b"HTTP/1.1 404 Not Found\r\n\r\n".to_vec()
    );
}

#[test]
fn unreadable_request_is_answered_with_status_400() {
    let files = hello_table();
    assert_eq!(
        create_response(b"\r\nGET /hello HTTP/1.1\r\n\r\n".to_vec(), &files),
        b"HTTP/1.1 400 Bad Request\r\n\r\n".to_vec()
    );
    assert_eq!(
        create_response(vec![0xff, 0xff], &files),
        b"HTTP/1.1 400 Bad Request\r\n\r\n".to_vec()
    );
    assert_eq!(create_response(vec![], &files), b"HTTP/1.1 400 Bad Request\r\n\r\n".to_vec());
}

#[test]
fn error_page_fills_the_template_in() {
    let mut response = Response::default_not_found();
    let page = build_error_html(
        &mut response,
        "<h1>{{ErrorCode}}</h1><p>{{ErrorMessage}}</p><i>{{ErrorCode}}</i>".to_string(),
        "gone {{ErrorCode}}".to_string(),
    );
    assert_eq!(
        String::from_utf8(page).unwrap(),
        "<h1>404 Not Found</h1><p>gone {{ErrorCode}}</p><i>404 Not Found</i>"
    );
    assert_eq!(response.response_identifiers.method.id, 404);
}

#[test]
fn dynamic_error_response_needs_the_template() {
    let mut templates = DynamicFiles::new();
    let mut response = Response::default_bad_request();
    response.dynamic_error_response("no".to_string(), &templates);
    assert!(response.body.is_empty());
    assert_eq!(response.headers.len(), 0);

    templates.insert("/error_page.html".to_string(), "{{ErrorCode}}: {{ErrorMessage}}".to_string());
    response.dynamic_error_response("no".to_string(), &templates);
    assert_eq!(response.body, b"400 Bad Request: no".to_vec());
    assert_eq!(response.headers.get("content-type").unwrap(), "text/html");
    assert_eq!(response.response_identifiers.method.id, 400);
}
