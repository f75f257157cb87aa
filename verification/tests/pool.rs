use webserver::file::{DynamicFiles, ServerFiles, StaticFiles};
use webserver::threaded::handle_connection;
use webserver::threaded::server::{PoolError, ServerStats, ThreadPool};

#[test]
fn pool_needs_two_workers() {
    assert_eq!(ThreadPool::<u32>::new(0).err(), Some(PoolError::InvalidPoolSize));
    assert_eq!(ThreadPool::<u32>::new(1).err(), Some(PoolError::InvalidPoolSize));
    assert!(ThreadPool::<u32>::new(2).is_ok());
    assert_eq!(ThreadPool::<u32>::new(8).ok().unwrap().size(), 8);
    assert_eq!(
        PoolError::InvalidPoolSize.to_string(),
        "A thread pool size of 2 or more is required."
    );
}

#[test]
fn jobs_are_claimed_once_and_oldest_first() {
    let mut pool = ThreadPool::new(2).ok().unwrap();
    assert_eq!(pool.claim(), None);
    for job in 0..100u32 {
        pool.execute(job);
    }
    assert_eq!(pool.backlog(), 100);
    let mut claimed = Vec::new();
    while let Some(job) = pool.claim() {
        claimed.push(job);
    }
    assert_eq!(claimed, (0..100u32).collect::<Vec<u32>>());
    assert_eq!(pool.backlog(), 0);
    assert_eq!(pool.claim(), None);
    assert_eq!(pool.size(), 2);
}

#[test]
fn claims_may_come_between_the_jobs() {
    let mut pool = ThreadPool::new(3).ok().unwrap();
    pool.execute("a");
    pool.execute("b");
    assert_eq!(pool.claim(), Some("a"));
    pool.execute("c");
    assert_eq!(pool.claim(), Some("b"));
    assert_eq!(pool.claim(), Some("c"));
    assert_eq!(pool.claim(), None);
    pool.execute("d");
    assert_eq!(pool.claim(), Some("d"));
}

fn hello_files() -> ServerFiles {
    let mut static_files = StaticFiles::new();
    static_files.insert("/hello".to_string(), b"world".to_vec());
    ServerFiles { static_files, dynamic_files: DynamicFiles::new() }
}

#[test]
fn server_with_hello_answers_as_it_should() {
    let files = hello_files();
    let stats = ServerStats::new();

    let served = handle_connection(b"GET /hello HTTP/1.1\r\n\r\n".to_vec(), &files, &stats);
    assert_eq!(served.bytes, b"HTTP/1.1 200 OK\r\ncontent-type: text/plain\r\n\r\nworld".to_vec());
    assert_eq!(served.record, Some((200, "/hello".to_string())));

    let served = handle_connection(b"GET /missing HTTP/1.1\r\n\r\n".to_vec(), &files, &stats);
    assert_eq!(served.bytes, b"HTTP/1.1 404 Not Found\r\n\r\n".to_vec());
    assert_eq!(served.record, Some((404, "/missing".to_string())));

    let served = handle_connection(b"\r\nGET /hello HTTP/1.1\r\n".to_vec(), &files, &stats);
    assert_eq!(served.bytes, b"HTTP/1.1 400 Bad Request\r\n\r\n".to_vec());
    assert_eq!(served.record, None);
}

#[test]
fn two_clients_of_a_pool_of_two_get_their_own_answers() {
    let files = hello_files();
    let stats = ServerStats::new();
    let mut pool = ThreadPool::new(2).ok().unwrap();
    pool.execute(b"GET /hello HTTP/1.1\r\n\r\n".to_vec());
    pool.execute(b"GET /missing HTTP/1.1\r\n\r\n".to_vec());
    let first = pool.claim().unwrap();
    let second = pool.claim().unwrap();
    let second_answer = handle_connection(second, &files, &stats);
    let first_answer = handle_connection(first, &files, &stats);
    assert_eq!(
        first_answer.bytes,
        b"HTTP/1.1 200 OK\r\ncontent-type: text/plain\r\n\r\nworld".to_vec()
    );
    assert_eq!(second_answer.bytes, b"HTTP/1.1 404 Not Found\r\n\r\n".to_vec());
    assert_eq!(pool.claim(), None);
}
