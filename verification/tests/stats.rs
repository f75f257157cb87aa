use webserver::file::{load_static_files, path_in_directory, path_of_file};
use webserver::file::{DynamicFiles, ServerFiles, StaticFiles};
use webserver::request::read_request;
use webserver::threaded::controller::error_controller::{
    error_response_400, error_response_404, error_response_500,
};
use webserver::threaded::controller::file_controller::file_response;
use webserver::threaded::controller::stats_controller::{fill_row, stats_response, ResultView};
use webserver::threaded::request_handler::handle_request;
use webserver::threaded::server::{RequestResult, ServerStats, Timestamp};
use webserver::threaded::{handle_connection, stat_wrapper};

fn result(code: u32, path: &str, secs: i64, nanos: u32, duration: u128) -> RequestResult {
    RequestResult {
        response_code: code,
        requested_resource: path.to_string(),
        time: Timestamp { secs, nanos },
        duration,
    }
}

fn templates() -> DynamicFiles {
    let mut files = DynamicFiles::new();
    files.insert(
        "/stats.html".to_string(),
        "{{num_total}}/{{num_successful}}/{{num_unsuccessful}}:{{result_entries}}".to_string(),
    );
    files.insert(
        "/stats_table_entry.html".to_string(),
        "[{{Time}}|{{Path}}|{{Code}}|{{Duration}}]".to_string(),
    );
    files.insert("/error_page.html".to_string(), "{{ErrorCode}}: {{ErrorMessage}}".to_string());
    files
}

#[test]
fn success_is_a_status_from_200_to_299() {
    assert!(!result(199, "/", 0, 0, 0).is_successful());
    assert!(result(200, "/", 0, 0, 0).is_successful());
    assert!(result(299, "/", 0, 0, 0).is_successful());
    assert!(!result(300, "/", 0, 0, 0).is_successful());
    assert!(!result(404, "/", 0, 0, 0).is_successful());
}

#[test]
fn result_view_counts() {
    let results = vec![
        result(200, "/a", 0, 0, 1),
        result(404, "/b", 0, 0, 2),
        result(204, "/a", 0, 0, 3),
        result(500, "/c", 0, 0, 4),
        result(400, "/c", 0, 0, 5),
    ];
    let view = ResultView::of(&results);
    assert_eq!(view.num_total(), 5);
    assert_eq!(view.num_successful(), 2);
    assert_eq!(view.num_unsuccessful(), 3);
    let view = ResultView::of(&vec![]);
    assert_eq!(view.num_total(), 0);
    assert_eq!(view.num_successful(), 0);
    assert_eq!(view.num_unsuccessful(), 0);
}

#[test]
fn row_is_filled_in_order() {
    let row = fill_row(
        "{{Time}} {{Path}} {{Code}} {{Duration}} {{Time}}",
        &result(200, "/{{Code}}", 0, 0, 340282366920938463463374607431768211455),
        "now",
    );
    assert_eq!(row, "now /200 200 340282366920938463463374607431768211455 now");
}

#[test]
fn stats_page_shows_the_record_with_its_times() {
    let mut stats = ServerStats::new();
    stats.record(result(200, "/hello", 1431648000, 0, 12));
    stats.record(result(404, "/missing", 1431648001, 500_000_000, 3));
    let response = stats_response(&stats, &templates()).ok().unwrap();
    assert_eq!(response.response_identifiers.method.id, 200);
    assert_eq!(response.headers.get("content-type").unwrap(), "text/html");
    assert_eq!(
        String::from_utf8(response.body).unwrap(),
        "2/1/1:\n[2015-05-15 00:00:00|/hello|200|12]\n[2015-05-15 00:00:01.500|/missing|404|3]"
    );
}

#[test]
fn a_time_without_a_date_is_shown_as_nothing() {
    let mut stats = ServerStats::new();
    stats.record(result(200, "/hello", i64::MAX, 0, 12));
    let response = stats_response(&stats, &templates()).ok().unwrap();
    assert_eq!(String::from_utf8(response.body).unwrap(), "1/1/0:\n[|/hello|200|12]");
}

#[test]
fn stat_wrapper_makes_the_entry() {
    let time = Timestamp { secs: 5, nanos: 6 };
    let entry = stat_wrapper(Some((200, "/a".to_string())), time, 7).unwrap();
    assert_eq!(entry.response_code, 200);
    assert_eq!(entry.requested_resource, "/a");
    assert_eq!(entry.time, time);
    assert_eq!(entry.duration, 7);
    assert!(stat_wrapper(None, time, 7).is_none());
}

#[test]
fn error_responses_are_pages_where_the_template_is_there() {
    let with = templates();
    let without = DynamicFiles::new();

    let response = error_response_400("bad".to_string(), &with);
    assert_eq!(response.response_identifiers.method.id, 400);
    assert_eq!(response.body, b"400 Bad Request: bad".to_vec());
    assert_eq!(response.headers.get("content-type").unwrap(), "text/html");

    let response = error_response_404("gone".to_string(), &with);
    assert_eq!(response.response_identifiers.method.id, 404);
    assert_eq!(response.body, b"404 Not Found: gone".to_vec());

    let response = error_response_500("broken".to_string(), &with);
    assert_eq!(response.response_identifiers.method.id, 404);
    assert_eq!(response.body, b"404 Not Found: broken".to_vec());

    let response = error_response_400("bad".to_string(), &without);
    assert_eq!(response.response_identifiers.method.id, 400);
    assert!(response.body.is_empty());
    assert_eq!(response.headers.len(), 0);
}

fn server_files() -> ServerFiles {
    let mut static_files = StaticFiles::new();
    static_files.insert("/hello".to_string(), b"world".to_vec());
    static_files.insert("/page.html".to_string(), b"<p>".to_vec());
    ServerFiles { static_files, dynamic_files: templates() }
}

#[test]
fn file_response_tells_found_from_missing() {
    let files = server_files();
    let response = file_response(&files, "/page.html".to_string()).ok().unwrap();
    assert_eq!(response.response_identifiers.method.id, 200);
    assert_eq!(response.body, b"<p>".to_vec());
    assert_eq!(response.headers.get("content-type").unwrap(), "text/html");

    let response = file_response(&files, "/nope".to_string()).err().unwrap();
    assert_eq!(response.response_identifiers.method.id, 404);
    assert_eq!(
        response.body,
        b"404 Not Found: Requested resource /nope could not be found.".to_vec()
    );
}

#[test]
fn stats_path_is_answered_with_the_page() {
    let files = server_files();
    let mut stats = ServerStats::new();
    stats.record(result(200, "/hello", 0, 0, 1));
    let request = read_request("GET /stats HTTP/1.1\r\n\r\n").unwrap();
    let response = handle_request(&request, &files, &stats);
    assert_eq!(response.response_identifiers.method.id, 200);
    assert_eq!(
        String::from_utf8(response.body).unwrap(),
        "1/1/0:\n[1970-01-01 00:00:00|/hello|200|1]"
    );

    let request = read_request("GET /hello HTTP/1.1\r\n\r\n").unwrap();
    let response = handle_request(&request, &files, &stats);
    assert_eq!(response.body, b"world".to_vec());
}

#[test]
fn stats_path_without_templates_is_a_file_like_any_other() {
    let mut static_files = StaticFiles::new();
    static_files.insert("/stats".to_string(), b"plain".to_vec());
    let files = ServerFiles { static_files, dynamic_files: DynamicFiles::new() };
    let stats = ServerStats::new();
    let request = read_request("GET /stats HTTP/1.1\r\n\r\n").unwrap();
    let response = handle_request(&request, &files, &stats);
    assert_eq!(response.response_identifiers.method.id, 200);
    assert_eq!(response.body, b"plain".to_vec());

    let files = ServerFiles { static_files: StaticFiles::new(), dynamic_files: DynamicFiles::new() };
    let response = handle_request(&request, &files, &stats);
    assert_eq!(response.response_identifiers.method.id, 404);
    assert!(response.body.is_empty());
}

#[test]
fn unreadable_request_gets_the_error_page() {
    let files = server_files();
    let stats = ServerStats::new();
    let served = handle_connection(b"GET /hello\r\n\r\n".to_vec(), &files, &stats);
    assert_eq!(
        String::from_utf8(served.bytes).unwrap(),
        "HTTP/1.1 400 Bad Request\r\ncontent-type: text/html\r\n\r\n400 Bad Request: Could not parse request.http version not specified."
    );
    assert_eq!(served.record, None);
}

#[test]
fn users_files_override_the_packaged_ones() {
    let mut packaged = StaticFiles::new();
    packaged.insert("/a".to_string(), b"packaged a".to_vec());
    packaged.insert("/b".to_string(), b"packaged b".to_vec());
    let mut provided = StaticFiles::new();
    provided.insert("/b".to_string(), b"provided b".to_vec());
    provided.insert("/c".to_string(), b"provided c".to_vec());
    let table = load_static_files(packaged, provided);
    assert_eq!(table.get("/a").unwrap(), &b"packaged a".to_vec());
    assert_eq!(table.get("/b").unwrap(), &b"provided b".to_vec());
    assert_eq!(table.get("/c").unwrap(), &b"provided c".to_vec());
    assert!(table.get("/d").is_none());
    assert!(table.contains_key("/a"));
    assert!(!table.contains_key("a"));
    assert!(!table.contains_key("/A"));
}

#[test]
fn paths_are_made_of_segments_and_slashes() {
    assert_eq!(path_of_file("index.html"), "/index.html");
    assert_eq!(path_in_directory("css", "/main.css"), "/css/main.css");
    assert_eq!(path_in_directory("a", &path_in_directory("b", "/c.txt")), "/a/b/c.txt");
}

#[test]
fn paths_are_counted_in_the_order_they_first_came() {
    let results = vec![
        result(200, "/a", 0, 0, 1),
        result(404, "/b", 0, 0, 2),
        result(204, "/a", 0, 0, 3),
        result(500, "/c", 0, 0, 4),
        result(400, "/a", 0, 0, 5),
        result(400, "/c", 0, 0, 5),
    ];
    let counts = webserver::threaded::controller::path_controller::count_paths(&results);
    let shown: Vec<(&str, i32)> =
        counts.iter().map(|count| (count.path(), count.num_requested())).collect();
    assert_eq!(shown, vec![("/a", 3), ("/b", 1), ("/c", 2)]);
    assert!(webserver::threaded::controller::path_controller::count_paths(&vec![]).is_empty());
}

#[test]
fn request_reads_itself() {
    let request = webserver::request::Request::read_request("GET /a?b HTTP/1.1\r\nK: v\r\n").unwrap();
    let line: webserver::request::StartLine = request.request_identifiers;
    assert_eq!(line.path, "/a");
    assert_eq!(request.headers.get("K").unwrap(), "v");
    assert!(webserver::request::Request::read_request("GET /a").is_err());
}
