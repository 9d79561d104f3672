//! A simple HTTP server: the buffer that it reads requests into, the page that it answers with,
//! and what it does on a connection.

use vstd::prelude::*;
use vstd::utf8::{encode_utf8, is_ascii_chars_encode_utf8};

verus! {

/// The size of the buffer for requests: no request may be longer.
pub const BUF_SIZE: usize = 4096;

/// No request may have more headers.
pub const MAX_HEADERS: usize = 16;

/// Why the server gives up a connection.
#[derive(Clone, Copy, Debug, PartialEq, Eq, Structural)]
pub enum HttpError {
    /// The peer closed the connection while bytes were pending: a part of a request, or also a
    /// whole one that came together with an earlier one and was not processed yet.
    Incomplete,
    /// A request does not fit in the buffer.
    TooBig,
    /// What the peer sent is no request.
    Unparsable,
}

impl HttpError {
    /// What to say of the error.
    pub fn message(&self) -> (message: &'static str)
        ensures
            message@ == (match self {
                HttpError::Incomplete => "incomplete request"@,
                HttpError::TooBig => "request too big"@,
                HttpError::Unparsable => "could not parse request"@,
            }),
    {
        match self {
            HttpError::Incomplete => "incomplete request",
            HttpError::TooBig => "request too big",
            HttpError::Unparsable => "could not parse request",
        }
    }
}

/// A buffer at one moment. The bytes from `pos` to `end` were read and not processed yet.
#[verifier::ext_equal]
pub struct Window {
    pub buf: Seq<u8>,
    pub pos: nat,
    pub end: nat,
}

impl Window {
    pub open spec fn wf(self) -> bool {
        self.pos <= self.end <= self.buf.len() == BUF_SIZE
    }

    /// The bytes that were read and not processed yet.
    pub open spec fn pending(self) -> Seq<u8> {
        self.buf.subrange(self.pos as int, self.end as int)
    }

    /// How many bytes can be read.
    pub open spec fn room(self) -> int {
        self.buf.len() - self.end
    }

    /// The buffer with the first `mid` bytes moved to the end.
    pub open spec fn rotated(self, mid: nat) -> Seq<u8> {
        self.buf.skip(mid as int) + self.buf.take(mid as int)
    }

    /// A request fills the whole buffer and goes on.
    pub open spec fn too_big(self) -> bool {
        self.pos == 0 && self.end == self.buf.len()
    }

    /// The buffer with room for the next read.
    pub open spec fn rewound(self) -> Window {
        if self.pos == self.buf.len() {
            Window { buf: self.buf, pos: 0, end: 0 }
        } else if self.end == self.buf.len() {
            Window {
                buf: self.rotated(self.pos),
                pos: 0,
                end: (self.end - self.pos) as nat,
            }
        } else {
            self
        }
    }

    /// The buffer after so many bytes were read into it.
    pub open spec fn advanced(self, nread: nat) -> Window {
        Window { buf: self.buf, pos: self.pos, end: self.end + nread }
    }

    /// The buffer after so many of the pending bytes were processed.
    pub open spec fn consumed(self, n: nat) -> Window {
        Window { buf: self.buf, pos: self.pos + n, end: self.end }
    }
}

/// `<[T]>::rotate_left`: the first `mid` elements move to the end and the others to the front. It
/// panics where there are fewer than `mid`.
pub assume_specification<Item>[ <[Item]>::rotate_left ](slice: &mut [Item], mid: usize)
    requires
        mid <= old(slice)@.len(),
    ensures
        final(slice)@ == old(slice)@.skip(mid as int) + old(slice)@.take(mid as int),
;

/// A reusable buffer for reading several pipelined requests.
pub struct RequestBuf {
    buf: Vec<u8>,
    pos: usize,
    end: usize,
}

impl View for RequestBuf {
    type V = Window;

    closed spec fn view(&self) -> Window {
        Window { buf: self.buf@, pos: self.pos as nat, end: self.end as nat }
    }
}

impl RequestBuf {
    pub open spec fn wf(&self) -> bool {
        self@.wf()
    }

    /// An empty buffer.
    pub fn new() -> (made: RequestBuf)
        ensures
            made.wf(),
            made@ == (Window { buf: Seq::new(BUF_SIZE as nat, |i: int| 0u8), pos: 0, end: 0 }),
    {
        let made = RequestBuf { buf: vec![0u8; BUF_SIZE], pos: 0, end: 0 };
        assert(made.buf@ =~= Seq::new(BUF_SIZE as nat, |i: int| 0u8));
        made
    }

    /// So many bytes were read. Where none were, the peer has closed the connection, which is an
    /// error while bytes are pending.
    pub fn advance(&mut self, nread: usize) -> (done: Result<(), HttpError>)
        requires
            old(self).wf(),
            nread <= old(self)@.room(),
        ensures
            final(self).wf(),
            if nread == 0 && old(self)@.pos != old(self)@.end {
                &&& done == Err::<(), HttpError>(HttpError::Incomplete)
                &&& final(self)@ == old(self)@
            } else {
                &&& done is Ok
                &&& final(self)@ == old(self)@.advanced(nread as nat)
            },
    {
        if nread == 0 && self.pos != self.end {
            return Err(HttpError::Incomplete);
        }
        self.end = self.end + nread;
        Ok(())
    }

    /// Make room for the next read if the buffer is filled to the end.
    pub fn rewind(&mut self) -> (done: Result<(), HttpError>)
        requires
            old(self).wf(),
        ensures
            final(self).wf(),
            if old(self)@.too_big() {
                &&& done == Err::<(), HttpError>(HttpError::TooBig)
                &&& final(self)@ == old(self)@
            } else {
                &&& done is Ok
                &&& final(self)@ == old(self)@.rewound()
            },
    {
        if self.pos == self.buf.len() {
            // The full request was read and it ended exactly at the end of the buffer.
            self.pos = 0;
            self.end = 0;
        } else if self.end == self.buf.len() {
            if self.pos == 0 {
                return Err(HttpError::TooBig);
            } else {
                // Part of the request was read: it goes to the beginning of the buffer, so that
                // the rest can be read.
                self.buf.as_mut_slice().rotate_left(self.pos);
                self.end = self.end - self.pos;
                self.pos = 0;
            }
        }
        Ok(())
    }

    /// The part of the buffer for the next read.
    pub fn as_mut(&mut self) -> (tail: &mut [u8])
        requires
            old(self).wf(),
        ensures
            tail@ == old(self)@.buf.skip(old(self)@.end as int),
            final(tail)@.len() == tail@.len() ==> final(self).wf(),
            final(self)@ == (Window {
                buf: old(self)@.buf.take(old(self)@.end as int) + final(tail)@,
                pos: old(self)@.pos,
                end: old(self)@.end,
            }),
    {
        let (head, tail) = self.buf.as_mut_slice().split_at_mut(self.end);
        tail
    }
}

/// What a parser made of the bytes at the start of the buffer.
#[derive(Clone, Copy, Debug, PartialEq, Eq, Structural)]
pub enum Parsed {
    /// They start with a request of this length.
    Complete(usize),
    /// They are the beginning of a request.
    Partial,
    /// They are no request.
    Invalid,
}

/// What `httparse` makes of these bytes, with room for so many headers.
pub uninterp spec fn http_parse(bytes: Seq<u8>, max_headers: nat) -> Parsed;

/// `httparse::Request::parse`: depends on nothing but the bytes and the room for headers. Where it
/// finds a request, it returns the offset at which the request ends, which is not beyond the last
/// byte; no request is empty. The room for headers is bounded so that it can always be allocated.
#[verifier::external_body]
fn parse(bytes: &[u8], max_headers: usize) -> (parsed: Parsed)
    requires
        max_headers <= 1024,
    ensures
        parsed == http_parse(bytes@, max_headers as nat),
        parsed matches Parsed::Complete(n) ==> 0 < n <= bytes@.len(),
{
    let mut headers = vec![httparse::EMPTY_HEADER; max_headers];
    match httparse::Request::new(&mut headers).parse(bytes) {
        Ok(httparse::Status::Complete(n)) => Parsed::Complete(n),
        Ok(httparse::Status::Partial) => Parsed::Partial,
        Err(_) => Parsed::Invalid,
    }
}

/// A date as the server writes it: the day of the week, the day, the month, the year, the time and
/// the offset from UTC, all in printable ASCII characters, as in `Sat, 09 Nov 2019 12:00:00
/// +00:00`. The year may need a sign and more digits, and the offset may have seconds.
pub open spec fn is_date(date: Seq<char>) -> bool {
    &&& 32 <= date.len() <= 38
    &&& forall|i: int| 0 <= i < date.len() ==> ' ' <= #[trigger] date[i] <= '~'
    &&& '0' <= date[5] <= '3' && '0' <= date[6] <= '9'
    &&& date[3] == ',' && date[4] == ' ' && date[7] == ' ' && date[11] == ' '
}

/// `chrono::Local::now` and `chrono::DateTime::format`, which reads the clock and the time zone of
/// the machine: some date. Two calls may give different ones. Other formats are left out, because
/// writing out one that `chrono` does not know panics. So does reading a clock that stands before
/// 1970 or beyond the last year of `chrono`, and a time zone whose rules cannot be applied: that
/// rests on the machine, and no argument decides it.
#[verifier::external_body]
fn local_time(format: &str) -> (now: String)
    requires
        format@ == "%a, %d %b %Y %T %Z"@,
    ensures
        is_date(now@),
{
    chrono::Local::now().format(format).to_string()
}

/// A number in decimal digits.
pub open spec fn decimal(n: nat) -> Seq<u8>
    decreases n,
{
    if n < 10 {
        seq![(48 + n) as u8]
    } else {
        decimal(n / 10).push((48 + n % 10) as u8)
    }
}

/// The page for this peer at this time.
pub open spec fn payload(peer_addr: Seq<char>, now: Seq<char>) -> Seq<u8> {
    encode_utf8(
        "<html>\n<head>\n<title>Test page</title>\n</head>\n<body>\n<p>Hello, your address is "@,
    ) + encode_utf8(peer_addr) + encode_utf8(", current time is "@) + encode_utf8(now)
        + encode_utf8(".</p>\n</body>\n</html>"@)
}

/// The head of a response with a body of this length.
pub open spec fn head(length: nat, now: Seq<char>) -> Seq<u8> {
    encode_utf8(
        "HTTP/1.1 200 OK\r\nServer: MyHTTP\r\nContent-Type: text/html\r\nContent-Length: "@,
    ) + decimal(length) + encode_utf8("\r\nDate: "@) + encode_utf8(now) + encode_utf8(
        "\r\n\r\n"@,
    )
}

/// The body of the response: the page and the end of its last line.
pub open spec fn body(peer_addr: Seq<char>, now: Seq<char>) -> Seq<u8> {
    payload(peer_addr, now) + encode_utf8("\r\n"@)
}

/// The response to a request.
pub open spec fn response(peer_addr: Seq<char>, now: Seq<char>) -> Seq<u8> {
    head(payload(peer_addr, now).len() + 2, now) + body(peer_addr, now)
}

/// These are short enough for the length of the body to fit in a `usize`.
pub open spec fn fits(peer_addr: Seq<char>, now: Seq<char>) -> bool {
    encode_utf8(peer_addr).len() + encode_utf8(now).len() <= usize::MAX - 1024
}

/// This is short enough to fit with every date.
pub open spec fn fits_any_date(peer_addr: Seq<char>) -> bool {
    encode_utf8(peer_addr).len() <= usize::MAX - 2048
}

/// How long the page is.
proof fn lemma_payload_len(peer_addr: Seq<char>, now: Seq<char>)
    ensures
        payload(peer_addr, now).len() == encode_utf8(peer_addr).len() + encode_utf8(now).len()
            + 119,
        encode_utf8("\r\n"@).len() == 2,
{
    reveal_strlit(
        "<html>\n<head>\n<title>Test page</title>\n</head>\n<body>\n<p>Hello, your address is ",
    );
    is_ascii_chars_encode_utf8(
        "<html>\n<head>\n<title>Test page</title>\n</head>\n<body>\n<p>Hello, your address is "@,
    );
    reveal_strlit(", current time is ");
    is_ascii_chars_encode_utf8(", current time is "@);
    reveal_strlit(".</p>\n</body>\n</html>");
    is_ascii_chars_encode_utf8(".</p>\n</body>\n</html>"@);
    reveal_strlit("\r\n");
    is_ascii_chars_encode_utf8("\r\n"@);
}

/// The length that the head of a response announces is the length of its body.
pub proof fn law_content_length(peer_addr: Seq<char>, now: Seq<char>)
    ensures
        response(peer_addr, now) == head(body(peer_addr, now).len(), now) + body(peer_addr, now),
{
    lemma_payload_len(peer_addr, now);
}

fn push_str(out: &mut Vec<u8>, s: &str)
    ensures
        final(out)@ == old(out)@ + encode_utf8(s@),
{
    out.extend_from_slice(s.as_bytes());
    assert(out@ =~= old(out)@ + encode_utf8(s@));
}

fn push_decimal(out: &mut Vec<u8>, n: usize)
    ensures
        final(out)@ == old(out)@ + decimal(n as nat),
    decreases n,
{
    if n >= 10 {
        push_decimal(out, n / 10);
    }
    let digit: u8 = 48 + (n % 10) as u8;
    out.push(digit);
    assert(out@ =~= old(out)@ + decimal(n as nat));
}

/// Add the response to a request of this peer at this time.
pub fn write_response(peer_addr: &str, now: &str, out_buf: &mut Vec<u8>)
    requires
        fits(peer_addr@, now@),
    ensures
        final(out_buf)@ == old(out_buf)@ + response(peer_addr@, now@),
{
    proof {
        lemma_payload_len(peer_addr@, now@);
    }
    let mut page: Vec<u8> = Vec::new();
    push_str(
        &mut page,
        "<html>\n<head>\n<title>Test page</title>\n</head>\n<body>\n<p>Hello, your address is ",
    );
    push_str(&mut page, peer_addr);
    push_str(&mut page, ", current time is ");
    push_str(&mut page, now);
    push_str(&mut page, ".</p>\n</body>\n</html>");
    assert(page@ =~= payload(peer_addr@, now@));

    push_str(
        out_buf,
        "HTTP/1.1 200 OK\r\nServer: MyHTTP\r\nContent-Type: text/html\r\nContent-Length: ",
    );
    push_decimal(out_buf, page.len() + 2);
    push_str(out_buf, "\r\nDate: ");
    push_str(out_buf, now);
    push_str(out_buf, "\r\n\r\n");
    out_buf.append(&mut page);
    push_str(out_buf, "\r\n");
    assert(out_buf@ =~= old(out_buf)@ + response(peer_addr@, now@));
}

/// The outcome of processing what was parsed: whether a request was processed.
pub open spec fn outcome(parsed: Parsed) -> Result<bool, HttpError> {
    match parsed {
        Parsed::Complete(_) => Ok(true),
        Parsed::Partial => Ok(false),
        Parsed::Invalid => Err(HttpError::Unparsable),
    }
}

/// The buffer after what was parsed was processed.
pub open spec fn after_parsed(window: Window, parsed: Parsed) -> Window {
    match parsed {
        Parsed::Complete(n) => window.consumed(n as nat),
        _ => window,
    }
}

/// What is written for what was parsed.
pub open spec fn answer(parsed: Parsed, peer_addr: Seq<char>, now: Seq<char>) -> Seq<u8> {
    match parsed {
        Parsed::Complete(_) => response(peer_addr, now),
        _ => Seq::empty(),
    }
}

/// What was written, where `before` was there and then `after`: the response with some date, where
/// there was a request, and else nothing.
pub open spec fn answered(
    before: Seq<u8>,
    after: Seq<u8>,
    parsed: Parsed,
    peer_addr: Seq<char>,
) -> bool {
    match parsed {
        Parsed::Complete(_) => exists|now: Seq<char>| #[trigger]
            is_date(now) && after == before + response(peer_addr, now),
        _ => after == before,
    }
}

/// Process what was parsed at the start of the pending bytes, and write out the response. Returns
/// `Ok(true)` if a request was actually processed.
pub fn process_parsed(
    in_buf: &mut RequestBuf,
    parsed: Parsed,
    peer_addr: &str,
    now: &str,
    out_buf: &mut Vec<u8>,
) -> (processed: Result<bool, HttpError>)
    requires
        old(in_buf).wf(),
        parsed matches Parsed::Complete(n) ==> n <= old(in_buf)@.pending().len(),
        fits(peer_addr@, now@),
    ensures
        final(in_buf).wf(),
        processed == outcome(parsed),
        final(in_buf)@ == after_parsed(old(in_buf)@, parsed),
        final(out_buf)@ == old(out_buf)@ + answer(parsed, peer_addr@, now@),
{
    match parsed {
        Parsed::Complete(n) => {
            in_buf.pos = in_buf.pos + n;
            write_response(peer_addr, now, out_buf);
            Ok(true)
        },
        Parsed::Partial => {
            assert(out_buf@ =~= old(out_buf)@ + Seq::<u8>::empty());
            Ok(false)
        },
        Parsed::Invalid => {
            assert(out_buf@ =~= old(out_buf)@ + Seq::<u8>::empty());
            Err(HttpError::Unparsable)
        },
    }
}

/// Try to parse and process a request at the start of the pending bytes, and write out the
/// response. Returns `Ok(true)` if the request was actually processed.
pub fn process_request(
    in_buf: &mut RequestBuf,
    peer_addr: &str,
    out_buf: &mut Vec<u8>,
) -> (processed: Result<bool, HttpError>)
    requires
        old(in_buf).wf(),
        fits_any_date(peer_addr@),
    ensures
        final(in_buf).wf(),
        ({
            let parsed = http_parse(old(in_buf)@.pending(), MAX_HEADERS as nat);
            &&& processed == outcome(parsed)
            &&& final(in_buf)@ == after_parsed(old(in_buf)@, parsed)
            &&& answered(old(out_buf)@, final(out_buf)@, parsed, peer_addr@)
        }),
{
    let parsed = parse(&in_buf.buf.as_slice()[in_buf.pos..in_buf.end], MAX_HEADERS);
    let now: String = match parsed {
        Parsed::Complete(_) => local_time("%a, %d %b %Y %T %Z"),
        _ => String::new(),
    };
    proof {
        is_ascii_chars_encode_utf8(now@);
    }
    process_parsed(in_buf, parsed, peer_addr, now.as_str(), out_buf)
}

/// What the server does next on a connection.
#[derive(Clone, Copy, Debug, PartialEq, Eq, Structural)]
pub enum ConnectionAction {
    /// Read into the rest of the buffer.
    Read,
    /// Write what is left of the response.
    Write,
    /// The peer has closed the connection: leave it.
    Close,
    /// Give up the connection.
    Fail(HttpError),
}

/// A connection at one moment.
#[verifier::ext_equal]
pub struct ConnectionView {
    pub window: Window,
    /// The last response.
    pub resp: Seq<u8>,
    /// How much of it was written.
    pub written: nat,
}

impl ConnectionView {
    /// What is left to be written.
    pub open spec fn unwritten(self) -> Seq<u8> {
        self.resp.skip(self.written as int)
    }

    /// What the server does after it has written the response, or has none to write.
    pub open spec fn next_action(self) -> ConnectionAction {
        if self.window.too_big() {
            ConnectionAction::Fail(HttpError::TooBig)
        } else {
            ConnectionAction::Read
        }
    }

    /// The connection then: there is room to read.
    pub open spec fn next(self) -> ConnectionView {
        if self.window.too_big() {
            self
        } else {
            ConnectionView { window: self.window.rewound(), resp: self.resp, written: self.written }
        }
    }

    /// The connection after a read, and after processing what was parsed, which gave this
    /// response.
    pub open spec fn processed(self, nread: nat, parsed: Parsed, resp: Seq<u8>) -> ConnectionView {
        ConnectionView {
            window: after_parsed(self.window.advanced(nread), parsed),
            resp,
            written: 0,
        }
    }

    /// What the server does after a read that gave `nread` bytes, with what was then parsed.
    pub open spec fn read_action(self, nread: nat, parsed: Parsed) -> ConnectionAction {
        if nread == 0 {
            if self.window.pos != self.window.end {
                ConnectionAction::Fail(HttpError::Incomplete)
            } else {
                ConnectionAction::Close
            }
        } else {
            self.processed(nread, parsed, Seq::empty()).processed_action(outcome(parsed))
        }
    }

    /// The connection after that, where processing gave this response.
    pub open spec fn after_read(self, nread: nat, parsed: Parsed, resp: Seq<u8>) -> ConnectionView {
        if nread == 0 {
            self
        } else {
            self.processed(nread, parsed, resp).after_processed(outcome(parsed))
        }
    }

    /// What the server does after processing came out like this.
    pub open spec fn processed_action(
        self,
        processed: Result<bool, HttpError>,
    ) -> ConnectionAction {
        match processed {
            Ok(true) => ConnectionAction::Write,
            Ok(false) => self.next_action(),
            Err(e) => ConnectionAction::Fail(e),
        }
    }

    /// The connection after that.
    pub open spec fn after_processed(self, processed: Result<bool, HttpError>) -> ConnectionView {
        if processed == Ok::<bool, HttpError>(false) {
            self.next()
        } else {
            self
        }
    }

    /// The connection after so many bytes of the response were written.
    pub open spec fn after_write(self, nwritten: nat) -> ConnectionView {
        let wrote = ConnectionView {
            window: self.window,
            resp: self.resp,
            written: self.written + nwritten,
        };
        if wrote.written < wrote.resp.len() {
            wrote
        } else {
            wrote.next()
        }
    }

    /// What the server does then.
    pub open spec fn write_action(self, nwritten: nat) -> ConnectionAction {
        if self.written + nwritten < self.resp.len() {
            ConnectionAction::Write
        } else {
            self.next_action()
        }
    }
}

/// Making room for the next read keeps the pending bytes, and there is room then.
pub proof fn law_rewind_keeps_pending(w: Window)
    requires
        w.wf(),
        !w.too_big(),
    ensures
        w.rewound().wf(),
        w.rewound().pending() == w.pending(),
        w.rewound().room() > 0,
{
    assert(w.rewound().pending() =~= w.pending());
}

/// What is read into the buffer is added to the pending bytes, and a request that is processed is
/// taken off their front: every byte that was read is pending until it is processed.
pub proof fn law_bytes_stay_in_order(w: Window, data: Seq<u8>, rest: Seq<u8>, n: nat)
    requires
        w.wf(),
        data.len() + rest.len() == w.room(),
        n <= w.pending().len() + data.len(),
    ensures
        ({
            let read = Window { buf: w.buf.take(w.end as int) + data + rest, ..w }.advanced(
                data.len(),
            );
            &&& read.wf()
            &&& read.pending() == w.pending() + data
            &&& read.consumed(n).wf()
            &&& read.consumed(n).pending() == (w.pending() + data).skip(n as int)
        }),
{
    let read = Window { buf: w.buf.take(w.end as int) + data + rest, ..w }.advanced(data.len());
    assert(read.pending() =~= w.pending() + data);
    assert(read.consumed(n).pending() =~= (w.pending() + data).skip(n as int));
}

/// A request is too big when, and only when, a read has filled the whole buffer with the beginning
/// of it. After a response there is always room for the next one.
pub proof fn law_too_big(c: ConnectionView, nread: nat, parsed: Parsed, resp: Seq<u8>)
    requires
        c.window.wf(),
        nread <= c.window.room(),
        parsed matches Parsed::Complete(n) ==> 0 < n <= c.window.advanced(nread).pending().len(),
    ensures
        c.read_action(nread, parsed) == ConnectionAction::Fail(HttpError::TooBig) <==> {
            &&& nread > 0
            &&& parsed is Partial
            &&& c.window.advanced(nread).pending().len() == BUF_SIZE
        },
        parsed is Complete ==> c.processed(nread, parsed, resp).next_action() is Read,
{
}

/// When the server reads, there is room to read, so that a read of no bytes means that the peer
/// has closed the connection.
pub proof fn law_read_has_room(
    c: ConnectionView,
    nread: nat,
    parsed: Parsed,
    resp: Seq<u8>,
    nwritten: nat,
)
    requires
        c.window.wf(),
        nread <= c.window.room(),
        parsed matches Parsed::Complete(n) ==> n <= c.window.advanced(nread).pending().len(),
    ensures
        c.read_action(nread, parsed) is Read ==> c.after_read(nread, parsed, resp).window.room()
            > 0,
        c.write_action(nwritten) is Read ==> c.after_write(nwritten).window.room() > 0,
{
    if !c.window.too_big() {
        law_rewind_keeps_pending(c.window);
    }
    let p = c.processed(nread, parsed, resp).window;
    if !p.too_big() {
        law_rewind_keeps_pending(p);
    }
}

/// A response is written from its first byte to its last: each write takes what it wrote off the
/// front of what is left, until nothing is.
pub proof fn law_response_is_written_in_order(c: ConnectionView, nwritten: nat)
    requires
        nwritten <= c.unwritten().len(),
        c.written <= c.resp.len(),
    ensures
        c.after_write(nwritten).unwritten() == c.unwritten().skip(nwritten as int),
        c.write_action(nwritten) is Write <==> nwritten < c.unwritten().len(),
{
    assert(c.after_write(nwritten).unwritten() =~= c.unwritten().skip(nwritten as int));
}

/// A connection with a peer.
pub struct Connection {
    in_buf: RequestBuf,
    resp: Vec<u8>,
    written: usize,
}

impl View for Connection {
    type V = ConnectionView;

    closed spec fn view(&self) -> ConnectionView {
        ConnectionView {
            window: self.in_buf@,
            resp: self.resp@,
            written: self.written as nat,
        }
    }
}

impl Connection {
    pub open spec fn wf(&self) -> bool {
        self@.window.wf() && self@.written <= self@.resp.len()
    }

    /// A new connection. The server reads first.
    pub fn new() -> (made: Connection)
        ensures
            made.wf(),
            made@ == (ConnectionView {
                window: Window { buf: Seq::new(BUF_SIZE as nat, |i: int| 0u8), pos: 0, end: 0 },
                resp: Seq::empty(),
                written: 0,
            }),
            made@.next_action() is Read,
            made@.next() == made@,
    {
        Connection { in_buf: RequestBuf::new(), resp: Vec::new(), written: 0 }
    }

    /// The part of the buffer to read into.
    pub fn read_buf(&mut self) -> (tail: &mut [u8])
        requires
            old(self).wf(),
        ensures
            tail@ == old(self)@.window.buf.skip(old(self)@.window.end as int),
            final(tail)@.len() == tail@.len() ==> final(self).wf(),
            final(self)@ == (ConnectionView {
                window: Window {
                    buf: old(self)@.window.buf.take(old(self)@.window.end as int) + final(tail)@,
                    pos: old(self)@.window.pos,
                    end: old(self)@.window.end,
                },
                resp: old(self)@.resp,
                written: old(self)@.written,
            }),
    {
        self.in_buf.as_mut()
    }

    /// The part of the response to write.
    pub fn write_buf(&self) -> (rest: &[u8])
        requires
            self.wf(),
        ensures
            rest@ == self@.unwritten(),
    {
        let rest = &self.resp.as_slice()[self.written..self.resp.len()];
        assert(rest@ =~= self@.unwritten());
        rest
    }

    fn next(&mut self) -> (action: ConnectionAction)
        requires
            old(self).wf(),
        ensures
            final(self).wf(),
            action == old(self)@.next_action(),
            final(self)@ == old(self)@.next(),
    {
        match self.in_buf.rewind() {
            Ok(_) => ConnectionAction::Read,
            Err(e) => ConnectionAction::Fail(e),
        }
    }

    /// So many bytes were read into the buffer.
    pub fn after_read(&mut self, nread: usize, peer_addr: &str) -> (action: ConnectionAction)
        requires
            old(self).wf(),
            nread <= old(self)@.window.room(),
            fits_any_date(peer_addr@),
        ensures
            final(self).wf(),
            ({
                let parsed = http_parse(
                    old(self)@.window.advanced(nread as nat).pending(),
                    MAX_HEADERS as nat,
                );
                let resp = final(self)@.resp;
                &&& action == old(self)@.read_action(nread as nat, parsed)
                &&& final(self)@ == old(self)@.after_read(nread as nat, parsed, resp)
                &&& nread > 0 ==> answered(Seq::empty(), resp, parsed, peer_addr@)
            }),
    {
        if let Err(e) = self.in_buf.advance(nread) {
            return ConnectionAction::Fail(e);
        }
        if nread == 0 {
            return ConnectionAction::Close;
        }
        self.resp.clear();
        self.written = 0;
        let processed = process_request(&mut self.in_buf, peer_addr, &mut self.resp);
        self.after_processed(processed)
    }

    /// Processing what was read came out like this, and the response, if any, is there.
    pub fn after_processed(&mut self, processed: Result<bool, HttpError>) -> (action:
        ConnectionAction)
        requires
            old(self).wf(),
        ensures
            final(self).wf(),
            action == old(self)@.processed_action(processed),
            final(self)@ == old(self)@.after_processed(processed),
    {
        match processed {
            Ok(true) => ConnectionAction::Write,
            Ok(false) => self.next(),
            Err(e) => ConnectionAction::Fail(e),
        }
    }

    /// So many bytes of the response were written.
    pub fn after_write(&mut self, nwritten: usize) -> (action: ConnectionAction)
        requires
            old(self).wf(),
            nwritten <= old(self)@.unwritten().len(),
        ensures
            final(self).wf(),
            action == old(self)@.write_action(nwritten as nat),
            final(self)@ == old(self)@.after_write(nwritten as nat),
    {
        assert(self.written + nwritten <= self.resp.len());
        self.written = self.written + nwritten;
        if self.written < self.resp.len() {
            ConnectionAction::Write
        } else {
            self.next()
        }
    }
}

} // verus!
