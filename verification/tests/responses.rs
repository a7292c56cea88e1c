use jenkins_remote::error::ClientError;
use jenkins_remote::jenkins::Tree;
use jenkins_remote::log::LogCursor;
use jenkins_remote::response::{accept, collect, drain, Frame, Header, Response};

fn data(text: &str) -> Frame {
    Frame::Data(text.as_bytes().to_vec())
}

fn header(name: &str, value: &str) -> Header {
    Header { name: name.to_string(), value: value.to_string() }
}

fn log_response(size: &str, more: bool, frames: Vec<Frame>) -> Response {
    let mut headers = vec![header("content-type", "text/plain"), header("x-text-size", size)];
    if more {
        headers.push(header("x-more-data", "true"));
    }
    Response { status: 200, headers, frames }
}

#[test]
fn collect_on_404_fails_with_not_found() {
    let response = Response { status: 404, headers: vec![], frames: vec![data("gone")] };
    assert_eq!(collect(&response), Err(ClientError::NotFound));
    assert_eq!(accept(404), Err(ClientError::NotFound));
    assert_eq!(accept(200), Ok(()));
    assert_eq!(accept(500), Ok(()));
}

#[test]
fn collect_joins_the_frames_in_order() {
    let response = Response {
        status: 200,
        headers: vec![],
        frames: vec![data("ab"), data("cd"), data("ef")],
    };
    assert_eq!(collect(&response), Ok(b"abcdef".to_vec()));
}

#[test]
fn collect_passes_over_frames_without_data() {
    let response = Response {
        status: 200,
        headers: vec![],
        frames: vec![data("ab"), Frame::Other, data("cd"), Frame::Other],
    };
    assert_eq!(collect(&response), Ok(b"abcd".to_vec()));
}

#[test]
fn collect_of_no_frames_is_empty() {
    let response = Response { status: 204, headers: vec![], frames: vec![] };
    assert_eq!(collect(&response), Ok(Vec::new()));
}

#[test]
fn a_failed_read_is_a_transfer_error() {
    let response = Response {
        status: 200,
        headers: vec![],
        frames: vec![data("ab"), Frame::Failed, data("cd")],
    };
    assert_eq!(collect(&response), Err(ClientError::TransferError));
    assert_eq!(drain(&vec![Frame::Failed]), Err(ClientError::TransferError));
}

#[test]
fn not_found_comes_before_a_failed_read() {
    let response = Response { status: 404, headers: vec![], frames: vec![Frame::Failed] };
    assert_eq!(collect(&response), Err(ClientError::NotFound));
}

#[test]
fn the_first_header_of_a_name_counts() {
    let response = Response {
        status: 200,
        headers: vec![header("a", "1"), header("b", "2"), header("a", "3")],
        frames: vec![],
    };
    assert_eq!(response.header("a"), Some(&"1".to_string()));
    assert_eq!(response.header("b"), Some(&"2".to_string()));
    assert_eq!(response.header("c"), None);
}

#[test]
fn the_cursor_starts_at_the_beginning() {
    let cursor = LogCursor::new();
    assert_eq!(cursor.offset, 0);
    assert!(!cursor.finished);
    let tree: Tree = cursor.query(17);
    assert_eq!(tree.query, "17/logText/progressiveText?start=0");
}

#[test]
fn the_query_carries_the_offset() {
    let cursor = LogCursor { offset: 4096, finished: false };
    assert_eq!(cursor.query(3).query, "3/logText/progressiveText?start=4096");
}

#[test]
fn a_followed_log_is_emitted_once_and_in_order() {
    let log = b"first line\nsecond line\nthird line\n";
    let mut cursor = LogCursor::new();
    let mut emitted: Vec<u8> = Vec::new();
    let mut offsets = vec![cursor.offset];
    // the server holds more of the log at each poll
    for (size, more) in [(11usize, true), (11, true), (23, true), (34, false)] {
        let part = log[cursor.offset..size].to_vec();
        let response = log_response(&size.to_string(), more, vec![Frame::Data(part)]);
        let fragment = cursor.advance(&response).unwrap();
        if size == *offsets.last().unwrap() {
            assert!(fragment.is_empty());
        }
        emitted.extend_from_slice(&fragment);
        assert!(cursor.offset >= *offsets.last().unwrap());
        offsets.push(cursor.offset);
    }
    assert_eq!(offsets, vec![0, 11, 11, 23, 34]);
    assert!(cursor.finished);
    assert_eq!(emitted, log.to_vec());
    assert_eq!(emitted, log[..cursor.offset].to_vec());
}

#[test]
fn an_empty_body_leaves_the_cursor_in_place() {
    let mut cursor = LogCursor { offset: 5, finished: false };
    let response = log_response("9", true, vec![]);
    assert_eq!(cursor.advance(&response), Ok(Vec::new()));
    assert_eq!(cursor, LogCursor { offset: 5, finished: false });
}

#[test]
fn the_last_fragment_is_emitted_once() {
    let mut cursor = LogCursor { offset: 2, finished: false };
    let response = log_response("5", false, vec![data("end")]);
    assert_eq!(cursor.advance(&response), Ok(b"end".to_vec()));
    assert_eq!(cursor, LogCursor { offset: 5, finished: true });
    assert_eq!(cursor.advance(&response), Ok(Vec::new()));
    assert_eq!(cursor, LogCursor { offset: 5, finished: true });
}

#[test]
fn a_response_without_size_ends_the_session() {
    let mut cursor = LogCursor { offset: 2, finished: false };
    let response = Response {
        status: 200,
        headers: vec![header("x-more-data", "true")],
        frames: vec![data("abc")],
    };
    assert_eq!(cursor.advance(&response), Err(ClientError::ProtocolError));
    assert_eq!(cursor, LogCursor { offset: 2, finished: true });
}

#[test]
fn a_size_that_is_no_number_ends_the_session() {
    for size in ["", "abc", "-1", "1.5", "99999999999999999999999999"] {
        let mut cursor = LogCursor::new();
        let response = log_response(size, true, vec![data("abc")]);
        assert_eq!(cursor.advance(&response), Err(ClientError::ProtocolError));
        assert_eq!(cursor, LogCursor { offset: 0, finished: true });
    }
}

#[test]
fn a_failed_read_ends_the_session() {
    let mut cursor = LogCursor { offset: 7, finished: false };
    let response = log_response("10", true, vec![data("ab"), Frame::Failed]);
    assert_eq!(cursor.advance(&response), Err(ClientError::TransferError));
    assert_eq!(cursor, LogCursor { offset: 7, finished: true });
}

#[test]
fn an_absent_log_is_not_the_end_of_a_log() {
    let mut cursor = LogCursor { offset: 3, finished: false };
    let mut response = log_response("3", false, vec![]);
    response.status = 404;
    assert_eq!(cursor.advance(&response), Err(ClientError::NotFound));
    assert_eq!(cursor, LogCursor { offset: 3, finished: true });
    let mut ended = LogCursor { offset: 3, finished: false };
    assert_eq!(ended.advance(&log_response("3", false, vec![])), Ok(Vec::new()));
    assert_eq!(ended, LogCursor { offset: 3, finished: true });
}

#[test]
fn not_found_comes_before_a_missing_size() {
    let mut cursor = LogCursor::new();
    let response = Response { status: 404, headers: vec![], frames: vec![data("no such build")] };
    assert_eq!(cursor.advance(&response), Err(ClientError::NotFound));
    assert_eq!(cursor, LogCursor { offset: 0, finished: true });
    let mut other = LogCursor::new();
    let failed = Response { status: 404, headers: vec![], frames: vec![Frame::Failed] };
    assert_eq!(other.advance(&failed), Err(ClientError::NotFound));
}
