use minitokio::http_server::{
    process_parsed, process_request, write_response, Connection, ConnectionAction, HttpError,
    Parsed, RequestBuf, BUF_SIZE,
};

const REQUEST: &[u8] = b"GET / HTTP/1.1\r\nHost: localhost\r\n\r\n";
const NOW: &str = "Sat, 09 Nov 2019 12:00:00 +00:00";

fn fill(buf: &mut RequestBuf, data: &[u8]) -> Result<(), HttpError> {
    buf.as_mut()[..data.len()].copy_from_slice(data);
    buf.advance(data.len())
}

fn feed(connection: &mut Connection, data: &[u8]) -> ConnectionAction {
    connection.read_buf()[..data.len()].copy_from_slice(data);
    connection.after_read(data.len(), "1.2.3.4:5")
}

fn page(now: &str) -> String {
    format!(
        "<html>\n<head>\n<title>Test page</title>\n</head>\n<body>\n\
         <p>Hello, your address is {}, current time is {}.</p>\n</body>\n</html>",
        "1.2.3.4:5", now
    )
}

fn full_response(now: &str) -> Vec<u8> {
    format!(
        "HTTP/1.1 200 OK\r\nServer: MyHTTP\r\nContent-Type: text/html\r\n\
         Content-Length: {}\r\nDate: {}\r\n\r\n{}\r\n",
        page(now).len() + 2,
        now,
        page(now)
    )
    .into_bytes()
}

/// The date in a response.
fn date_of(response: &[u8]) -> String {
    let text = String::from_utf8(response.to_vec()).unwrap();
    let (_, rest) = text.split_once("\r\nDate: ").unwrap();
    let (date, _) = rest.split_once("\r\n").unwrap();
    date.to_string()
}

/// The date looks like `NOW`.
fn assert_date(date: &str) {
    assert!((32..=38).contains(&date.len()));
    assert!(date.chars().all(|c| (' '..='~').contains(&c)));
    assert!(["Sun", "Mon", "Tue", "Wed", "Thu", "Fri", "Sat"].contains(&&date[..3]));
    assert_eq!(&date[3..5], ", ");
    assert!((1..=31).contains(&date[5..7].parse::<u32>().unwrap()));
    assert_eq!(&date[7..8], " ");
    assert_eq!(&date[11..12], " ");
}

/// The response is the right one for the date that it holds.
fn assert_response(response: &[u8]) {
    let date = date_of(response);
    assert_date(&date);
    assert_eq!(response, &full_response(&date)[..]);
}

#[test]
fn response_is_the_page() {
    let mut out = b"before".to_vec();
    write_response("1.2.3.4:5", NOW, &mut out);
    assert_eq!(out[..6], b"before"[..]);
    assert_eq!(out[6..], full_response(NOW)[..]);
    let text = String::from_utf8(out).unwrap();
    assert!(text.contains("Content-Length: 162\r\n"));
}

#[test]
fn content_length_is_the_length_of_the_body() {
    for peer in ["", "x", "[::1]:54321", "\u{e9}\u{20ac}"] {
        let mut out = Vec::new();
        write_response(peer, NOW, &mut out);
        let text = String::from_utf8(out).unwrap();
        let (head, body) = text.split_once("\r\n\r\n").unwrap();
        assert!(head.contains(&format!("Content-Length: {}\r\n", body.len())));
    }
}

#[test]
fn complete_request_is_answered() {
    let mut buf = RequestBuf::new();
    let mut out = Vec::new();
    fill(&mut buf, REQUEST).unwrap();
    assert_eq!(process_request(&mut buf, "1.2.3.4:5", &mut out), Ok(true));
    assert_response(&out);
    // Nothing is left: the end of the connection is no error.
    assert_eq!(buf.advance(0), Ok(()));
}

#[test]
fn partial_request_is_kept() {
    let mut buf = RequestBuf::new();
    let mut out = Vec::new();
    fill(&mut buf, &REQUEST[..20]).unwrap();
    assert_eq!(process_request(&mut buf, "1.2.3.4:5", &mut out), Ok(false));
    assert!(out.is_empty());
    assert_eq!(buf.advance(0), Err(HttpError::Incomplete));
    fill(&mut buf, &REQUEST[20..]).unwrap();
    assert_eq!(process_request(&mut buf, "1.2.3.4:5", &mut out), Ok(true));
}

#[test]
fn bad_request_is_refused() {
    let mut buf = RequestBuf::new();
    let mut out = Vec::new();
    fill(&mut buf, b"\x00\x01\x02\r\n\r\n").unwrap();
    let refused = process_request(&mut buf, "1.2.3.4:5", &mut out);
    assert_eq!(refused, Err(HttpError::Unparsable));
    assert!(out.is_empty());
}

#[test]
fn sixteen_headers_are_enough() {
    for (count, outcome) in [(16, Ok(true)), (17, Err(HttpError::Unparsable))] {
        let mut request = b"GET / HTTP/1.1\r\n".to_vec();
        for i in 0..count {
            request.extend_from_slice(format!("H{}: x\r\n", i).as_bytes());
        }
        request.extend_from_slice(b"\r\n");
        let mut buf = RequestBuf::new();
        let mut out = Vec::new();
        fill(&mut buf, &request).unwrap();
        assert_eq!(process_request(&mut buf, "1.2.3.4:5", &mut out), outcome);
    }
}

#[test]
fn parsed_request_is_taken_off_the_front() {
    let mut buf = RequestBuf::new();
    let mut out = Vec::new();
    fill(&mut buf, b"0123456789").unwrap();
    assert_eq!(process_parsed(&mut buf, Parsed::Partial, "p", "n", &mut out), Ok(false));
    assert!(out.is_empty());
    assert_eq!(process_parsed(&mut buf, Parsed::Complete(4), "p", "n", &mut out), Ok(true));
    let mut expected = Vec::new();
    write_response("p", "n", &mut expected);
    assert_eq!(out, expected);
    assert_eq!(buf.advance(0), Err(HttpError::Incomplete));
    assert_eq!(process_parsed(&mut buf, Parsed::Complete(6), "p", "n", &mut out), Ok(true));
    assert_eq!(buf.advance(0), Ok(()));
    let refused = process_parsed(&mut buf, Parsed::Invalid, "p", "n", &mut out);
    assert_eq!(refused, Err(HttpError::Unparsable));
}

#[test]
fn buffer_rewinds_when_it_is_full() {
    let mut buf = RequestBuf::new();
    let mut out = Vec::new();
    assert_eq!(buf.as_mut().len(), BUF_SIZE);
    // Not full yet: nothing moves.
    fill(&mut buf, &[b'a'; 100]).unwrap();
    assert_eq!(buf.rewind(), Ok(()));
    assert_eq!(buf.as_mut().len(), BUF_SIZE - 100);
    // Full, with a part of a request at the end: it moves to the front.
    fill(&mut buf, &[b'b'; BUF_SIZE - 100]).unwrap();
    process_parsed(&mut buf, Parsed::Complete(4000), "p", "n", &mut out).unwrap();
    assert_eq!(buf.rewind(), Ok(()));
    assert_eq!(buf.as_mut().len(), 4000);
    assert_eq!(buf.advance(0), Err(HttpError::Incomplete));
    // Full to the end and processed: the buffer starts anew.
    fill(&mut buf, &[b'c'; 4000]).unwrap();
    process_parsed(&mut buf, Parsed::Complete(BUF_SIZE), "p", "n", &mut out).unwrap();
    assert_eq!(buf.rewind(), Ok(()));
    assert_eq!(buf.as_mut().len(), BUF_SIZE);
}

#[test]
fn request_that_fills_the_buffer_is_too_big() {
    let mut buf = RequestBuf::new();
    fill(&mut buf, &[b'a'; BUF_SIZE]).unwrap();
    assert_eq!(buf.rewind(), Err(HttpError::TooBig));
    assert_eq!(buf.as_mut().len(), 0);
}

#[test]
fn rewinding_keeps_the_pending_bytes() {
    let mut buf = RequestBuf::new();
    let mut out = Vec::new();
    // A request ends in the middle of the buffer, and the next one starts right at its end.
    let half = 20;
    let skipped = BUF_SIZE - half;
    fill(&mut buf, &vec![b'a'; skipped]).unwrap();
    fill(&mut buf, &REQUEST[..half]).unwrap();
    process_parsed(&mut buf, Parsed::Complete(skipped), "p", "n", &mut out).unwrap();
    buf.rewind().unwrap();
    fill(&mut buf, &REQUEST[half..]).unwrap();
    out.clear();
    assert_eq!(process_request(&mut buf, "1.2.3.4:5", &mut out), Ok(true));
    assert_response(&out);
}

#[test]
fn connection_reads_answers_and_closes() {
    let mut connection = Connection::new();
    assert_eq!(feed(&mut connection, &REQUEST[..10]), ConnectionAction::Read);
    assert_eq!(feed(&mut connection, &REQUEST[10..]), ConnectionAction::Write);
    // The response is written in three pieces.
    let mut written = Vec::new();
    for n in [1, 50] {
        written.extend_from_slice(&connection.write_buf()[..n]);
        assert_eq!(connection.after_write(n), ConnectionAction::Write);
    }
    written.extend_from_slice(connection.write_buf());
    let left = connection.write_buf().len();
    assert_eq!(connection.after_write(left), ConnectionAction::Read);
    assert_response(&written);
    assert_eq!(feed(&mut connection, b""), ConnectionAction::Close);
}

#[test]
fn connection_goes_on_after_processing() {
    let mut connection = Connection::new();
    assert_eq!(connection.after_processed(Ok(false)), ConnectionAction::Read);
    assert_eq!(connection.read_buf().len(), BUF_SIZE);
    assert_eq!(connection.after_processed(Ok(true)), ConnectionAction::Write);
    let failed = connection.after_processed(Err(HttpError::Unparsable));
    assert_eq!(failed, ConnectionAction::Fail(HttpError::Unparsable));
}

#[test]
fn connection_fails() {
    let mut connection = Connection::new();
    assert_eq!(feed(&mut connection, &REQUEST[..10]), ConnectionAction::Read);
    assert_eq!(feed(&mut connection, b""), ConnectionAction::Fail(HttpError::Incomplete));

    let mut connection = Connection::new();
    assert_eq!(feed(&mut connection, b"\x7f\r\n"), ConnectionAction::Fail(HttpError::Unparsable));

    let mut connection = Connection::new();
    let mut endless = b"GET /".to_vec();
    endless.resize(BUF_SIZE, b'a');
    assert_eq!(feed(&mut connection, &endless), ConnectionAction::Fail(HttpError::TooBig));
}

#[test]
fn pipelined_requests_are_answered_one_by_one() {
    let mut connection = Connection::new();
    let mut two = REQUEST.to_vec();
    two.extend_from_slice(REQUEST);
    assert_eq!(feed(&mut connection, &two), ConnectionAction::Write);
    assert_response(connection.write_buf());
    let left = connection.write_buf().len();
    assert_eq!(connection.after_write(left), ConnectionAction::Read);
    assert!(!connection.read_buf().is_empty());
    assert_eq!(feed(&mut connection, &REQUEST[..5]), ConnectionAction::Write);
    assert_response(connection.write_buf());
}

#[test]
fn errors_have_messages() {
    assert_eq!(HttpError::Incomplete.message(), "incomplete request");
    assert_eq!(HttpError::TooBig.message(), "request too big");
    assert_eq!(HttpError::Unparsable.message(), "could not parse request");
}
