//! What the HTTP server does, call by call.
//!
//! `call_ensures(f, arguments, result)` says that a call of `f` with these arguments can give this
//! result. Where an argument is a mutable reference `r`, `old(r)` is the value before the call and
//! `final(r)` the value after it.

use crate::http_server::{
    decimal, http_parse, is_date, process_parsed, process_request, write_response, Connection,
    ConnectionAction, HttpError, Parsed, RequestBuf, Window,
};
use vstd::prelude::*;
use vstd::utf8::encode_utf8;

verus! {

/// Each error has a message of its own.
pub proof fn law_error_messages(error: &HttpError, message: &'static str)
    requires
        call_ensures(HttpError::message, (error,), message),
    ensures
        error is Incomplete ==> message@ == "incomplete request"@,
        error is TooBig ==> message@ == "request too big"@,
        error is Unparsable ==> message@ == "could not parse request"@,
{
}

/// A new buffer has 4096 bytes, none of them read yet.
pub proof fn law_new_buffer_is_empty(made: RequestBuf)
    requires
        call_ensures(RequestBuf::new, (), made),
    ensures
        made@.buf.len() == 4096,
        made@.pos == 0,
        made@.end == 0,
        made.wf(),
{
}

/// The bytes of a buffer from its position to the end of what was read.
pub open spec fn unprocessed(window: Window) -> Seq<u8> {
    window.buf.subrange(window.pos as int, window.end as int)
}

/// The bytes that were read are pending behind the ones before them. To read nothing is an error
/// if, and only if, there are bytes pending; an error changes nothing.
pub proof fn law_advance_adds_what_was_read(
    buf: &mut RequestBuf,
    nread: usize,
    done: Result<(), HttpError>,
)
    requires
        old(buf).wf(),
        nread <= old(buf)@.buf.len() - old(buf)@.end,
        call_ensures(RequestBuf::advance, (buf, nread), done),
    ensures
        done is Err <==> nread == 0 && old(buf)@.pos < old(buf)@.end,
        done is Err ==> done->Err_0 is Incomplete && final(buf)@ == old(buf)@,
        done is Ok ==> {
            &&& final(buf)@.buf == old(buf)@.buf
            &&& final(buf)@.pos == old(buf)@.pos
            &&& final(buf)@.end == old(buf)@.end + nread
            &&& unprocessed(final(buf)@) == unprocessed(old(buf)@) + old(buf)@.buf.subrange(
                old(buf)@.end as int,
                old(buf)@.end + nread,
            )
        },
{
    if done is Ok {
        assert(unprocessed(final(buf)@) =~= unprocessed(old(buf)@) + old(buf)@.buf.subrange(
            old(buf)@.end as int,
            old(buf)@.end + nread,
        ));
    }
}

/// A request is too big if, and only if, its beginning fills the buffer; that changes nothing.
/// Otherwise there is room to read afterwards, and the pending bytes are what they were. They move
/// to the front where the buffer is full, and nothing moves where it is not.
pub proof fn law_rewind_makes_room(buf: &mut RequestBuf, done: Result<(), HttpError>)
    requires
        old(buf).wf(),
        call_ensures(RequestBuf::rewind, (buf,), done),
    ensures
        done is Err <==> old(buf)@.pos == 0 && old(buf)@.end == 4096,
        done is Err ==> done->Err_0 is TooBig && final(buf)@ == old(buf)@,
        done is Ok ==> {
            &&& final(buf)@.end < 4096
            &&& final(buf)@.buf.len() == 4096
            &&& unprocessed(final(buf)@) == unprocessed(old(buf)@)
        },
        old(buf)@.end < 4096 ==> final(buf)@ == old(buf)@,
        done is Ok && old(buf)@.end == 4096 ==> final(buf)@.pos == 0,
{
    if done is Ok {
        assert(unprocessed(final(buf)@) =~= unprocessed(old(buf)@));
    }
}

/// What is read goes behind the bytes that were read before: these stay, and the rest of the
/// buffer is what the reader makes of it.
pub proof fn law_reads_go_behind_what_was_read(buf: &mut RequestBuf, tail: &mut [u8])
    requires
        old(buf).wf(),
        call_ensures(RequestBuf::as_mut, (buf,), tail),
        final(tail)@.len() == old(tail)@.len(),
    ensures
        old(tail)@ == old(buf)@.buf.subrange(old(buf)@.end as int, 4096),
        final(buf)@.buf.len() == 4096,
        final(buf)@.buf.subrange(0, old(buf)@.end as int) == old(buf)@.buf.subrange(
            0,
            old(buf)@.end as int,
        ),
        final(buf)@.buf.subrange(old(buf)@.end as int, 4096) == final(tail)@,
        final(buf)@.pos == old(buf)@.pos,
        final(buf)@.end == old(buf)@.end,
{
    assert(old(tail)@ =~= old(buf)@.buf.subrange(old(buf)@.end as int, 4096));
    assert(final(buf)@.buf.subrange(0, old(buf)@.end as int) =~= old(buf)@.buf.subrange(
        0,
        old(buf)@.end as int,
    ));
    assert(final(buf)@.buf.subrange(old(buf)@.end as int, 4096) =~= final(tail)@);
}

/// The number that decimal digits stand for.
pub open spec fn value_of(digits: Seq<u8>) -> int
    decreases digits.len(),
{
    if digits.len() == 0 {
        0
    } else {
        10 * value_of(digits.drop_last()) + digits.last() - 48
    }
}

/// These are decimal digits, without a zero in front of others.
pub open spec fn are_digits(digits: Seq<u8>) -> bool {
    &&& digits.len() > 0
    &&& forall|i: int| 0 <= i < digits.len() ==> 48 <= #[trigger] digits[i] <= 57
    &&& digits.len() > 1 ==> digits[0] != 48
}

/// A number that is written in decimal digits reads as the same number.
pub proof fn law_decimal_reads_back(n: nat)
    ensures
        are_digits(decimal(n)),
        value_of(decimal(n)) == n,
        n > 0 ==> decimal(n)[0] != 48,
    decreases n,
{
    if n < 10 {
        assert(decimal(n).drop_last() =~= Seq::<u8>::empty());
        assert(value_of(decimal(n).drop_last()) == 0);
    } else {
        law_decimal_reads_back(n / 10);
        assert(decimal(n).drop_last() =~= decimal(n / 10));
    }
}

/// This is the page for this peer at this time.
pub open spec fn is_page(page: Seq<u8>, peer_addr: Seq<char>, now: Seq<char>) -> bool {
    page == encode_utf8(
        "<html>\n<head>\n<title>Test page</title>\n</head>\n<body>\n<p>Hello, your address is "@,
    ) + encode_utf8(peer_addr) + encode_utf8(", current time is "@) + encode_utf8(now)
        + encode_utf8(".</p>\n</body>\n</html>"@)
}

/// This is a response with this page, which announces in `length` how long its body is.
pub open spec fn is_response(
    text: Seq<u8>,
    page: Seq<u8>,
    length: Seq<u8>,
    now: Seq<char>,
) -> bool {
    &&& text == encode_utf8(
        "HTTP/1.1 200 OK\r\nServer: MyHTTP\r\nContent-Type: text/html\r\nContent-Length: "@,
    ) + length + encode_utf8("\r\nDate: "@) + encode_utf8(now) + encode_utf8("\r\n\r\n"@) + (page
        + encode_utf8("\r\n"@))
    &&& are_digits(length)
    &&& value_of(length) == (page + encode_utf8("\r\n"@)).len()
}

/// These bytes answer this peer at this time.
pub open spec fn answers(text: Seq<u8>, peer_addr: Seq<char>, now: Seq<char>) -> bool {
    exists|page: Seq<u8>, length: Seq<u8>| #[trigger]
        is_page(page, peer_addr, now) && #[trigger] is_response(text, page, length, now)
}

proof fn lemma_response_answers(peer_addr: Seq<char>, now: Seq<char>)
    ensures
        answers(crate::http_server::response(peer_addr, now), peer_addr, now),
        crate::http_server::response(peer_addr, now).len() > 0,
{
    let page = crate::http_server::payload(peer_addr, now);
    let body = crate::http_server::body(peer_addr, now);
    let text = crate::http_server::response(peer_addr, now);
    crate::http_server::law_content_length(peer_addr, now);
    let length = decimal(body.len());
    law_decimal_reads_back(body.len());
    assert(is_page(page, peer_addr, now));
    assert(is_response(text, page, length, now));
}

/// A response is added behind what was there. It holds the page for the peer and the time, and
/// announces the length of its body in decimal digits.
pub proof fn law_response_holds_the_page(
    peer_addr: &str,
    now: &str,
    out: &mut Vec<u8>,
)
    requires
        call_ensures(write_response, (peer_addr, now, out), ()),
    ensures
        final(out)@.len() > old(out)@.len(),
        final(out)@.subrange(0, old(out)@.len() as int) == old(out)@,
        answers(
            final(out)@.subrange(old(out)@.len() as int, final(out)@.len() as int),
            peer_addr@,
            now@,
        ),
{
    lemma_response_answers(peer_addr@, now@);
    let text = crate::http_server::response(peer_addr@, now@);
    assert(final(out)@.subrange(0, old(out)@.len() as int) =~= old(out)@);
    assert(final(out)@.subrange(old(out)@.len() as int, final(out)@.len() as int) =~= text);
}

/// Wherever a parser finds a complete request, of any length, that request and nothing more is
/// taken off the pending bytes, the response is written out, and the request counts as processed.
/// The beginning of a request is kept, and bytes that are no request are an error; nothing is
/// written for either.
pub proof fn law_complete_request_is_processed(
    buf: &mut RequestBuf,
    parsed: Parsed,
    peer_addr: &str,
    now: &str,
    out: &mut Vec<u8>,
    processed: Result<bool, HttpError>,
)
    requires
        call_ensures(process_parsed, (buf, parsed, peer_addr, now, out), processed),
    ensures
        parsed is Complete <==> processed == Ok::<bool, HttpError>(true),
        parsed is Partial <==> processed == Ok::<bool, HttpError>(false),
        parsed is Invalid <==> processed == Err::<bool, HttpError>(HttpError::Unparsable),
        parsed is Complete ==> {
            &&& final(buf)@.buf == old(buf)@.buf
            &&& final(buf)@.pos == old(buf)@.pos + parsed->Complete_0
            &&& final(buf)@.end == old(buf)@.end
            &&& final(out)@.len() > old(out)@.len()
            &&& final(out)@.subrange(0, old(out)@.len() as int) == old(out)@
            &&& answers(
                final(out)@.subrange(old(out)@.len() as int, final(out)@.len() as int),
                peer_addr@,
                now@,
            )
        },
        !(parsed is Complete) ==> final(buf)@ == old(buf)@ && final(out)@ == old(out)@,
{
    if parsed is Complete {
        lemma_response_answers(peer_addr@, now@);
        let text = crate::http_server::response(peer_addr@, now@);
        assert(final(out)@.subrange(0, old(out)@.len() as int) =~= old(out)@);
        assert(final(out)@.subrange(old(out)@.len() as int, final(out)@.len() as int) =~= text);
    } else {
        assert(final(out)@ =~= old(out)@);
    }
}

/// What is processed is what the parser finds at the start of the pending bytes, with room for
/// sixteen headers: a complete request is taken off and answered with some date, the beginning of
/// one is kept, and anything else is an error.
pub proof fn law_pending_request_is_processed(
    buf: &mut RequestBuf,
    peer_addr: &str,
    out: &mut Vec<u8>,
    processed: Result<bool, HttpError>,
)
    requires
        call_ensures(process_request, (buf, peer_addr, out), processed),
    ensures
        ({
            let parsed = http_parse(
                old(buf)@.buf.subrange(old(buf)@.pos as int, old(buf)@.end as int),
                16,
            );
            &&& parsed is Complete <==> processed == Ok::<bool, HttpError>(true)
            &&& parsed is Partial <==> processed == Ok::<bool, HttpError>(false)
            &&& parsed is Invalid <==> processed == Err::<bool, HttpError>(HttpError::Unparsable)
            &&& parsed is Complete ==> {
                &&& final(buf)@.buf == old(buf)@.buf
                &&& final(buf)@.pos == old(buf)@.pos + parsed->Complete_0
                &&& final(buf)@.end == old(buf)@.end
                &&& final(out)@.len() > old(out)@.len()
                &&& final(out)@.subrange(0, old(out)@.len() as int) == old(out)@
                &&& exists|now: Seq<char>| #[trigger]
                    is_date(now) && answers(
                        final(out)@.subrange(old(out)@.len() as int, final(out)@.len() as int),
                        peer_addr@,
                        now,
                    )
            }
            &&& !(parsed is Complete) ==> final(buf)@ == old(buf)@ && final(out)@ == old(out)@
        }),
{
    let parsed = http_parse(
        old(buf)@.buf.subrange(old(buf)@.pos as int, old(buf)@.end as int),
        16,
    );
    if parsed is Complete {
        let now = choose|now: Seq<char>| #[trigger]
            is_date(now) && final(out)@ == old(out)@ + crate::http_server::response(
                peer_addr@,
                now,
            );
        lemma_response_answers(peer_addr@, now);
        let text = crate::http_server::response(peer_addr@, now);
        assert(final(out)@.subrange(0, old(out)@.len() as int) =~= old(out)@);
        assert(final(out)@.subrange(old(out)@.len() as int, final(out)@.len() as int) =~= text);
    }
}

/// There is room to read into `after`, which has the pending bytes of `before`, moved to the front
/// if, and only if, the buffer was full.
pub open spec fn has_made_room(before: Window, after: Window) -> bool {
    &&& after.end < 4096
    &&& after.buf.len() == 4096
    &&& after.buf.subrange(after.pos as int, after.end as int) == before.buf.subrange(
        before.pos as int,
        before.end as int,
    )
    &&& before.end < 4096 ==> after == before
    &&& before.end == 4096 ==> after.pos == 0
}

/// A new connection has an empty buffer and nothing to write.
pub proof fn law_new_connection_reads(made: Connection)
    requires
        call_ensures(Connection::new, (), made),
    ensures
        made@.window.buf.len() == 4096,
        made@.window.pos == 0,
        made@.window.end == 0,
        made@.resp.len() == 0,
        made@.written == 0,
        made.wf(),
{
}

/// Where nothing was read the peer has closed the connection, and the server leaves it, which is a
/// failure if, and only if, bytes are pending. Nothing changes.
pub proof fn law_closed_connection_is_left(
    connection: &mut Connection,
    peer_addr: &str,
    action: ConnectionAction,
)
    requires
        old(connection).wf(),
        call_ensures(Connection::after_read, (connection, 0, peer_addr), action),
    ensures
        old(connection)@.window.pos == old(connection)@.window.end <==> action is Close,
        old(connection)@.window.pos < old(connection)@.window.end <==> action
            == ConnectionAction::Fail(HttpError::Incomplete),
        final(connection)@ == old(connection)@,
{
}

/// Whenever a read makes a request complete, of whatever length, the server writes, and the whole
/// response is there to be written. It reads on only after the beginning of a request that does
/// not fill the buffer; a beginning that fills it is too big, and bytes that are no request are
/// given up.
pub proof fn law_complete_request_is_answered(
    connection: &mut Connection,
    nread: usize,
    peer_addr: &str,
    action: ConnectionAction,
)
    requires
        old(connection).wf(),
        0 < nread <= old(connection)@.window.buf.len() - old(connection)@.window.end,
        call_ensures(Connection::after_read, (connection, nread, peer_addr), action),
    ensures
        ({
            let before = old(connection)@.window;
            let after = final(connection)@.window;
            let parsed = http_parse(before.buf.subrange(before.pos as int, before.end + nread), 16);
            let full = before.pos == 0 && before.end + nread == 4096;
            &&& parsed is Complete <==> action is Write
            &&& parsed is Partial && !full <==> action is Read
            &&& parsed is Partial && full <==> action == ConnectionAction::Fail(HttpError::TooBig)
            &&& parsed is Invalid <==> action == ConnectionAction::Fail(HttpError::Unparsable)
            &&& parsed is Complete ==> {
                &&& after.buf == before.buf
                &&& after.pos == before.pos + parsed->Complete_0
                &&& after.end == before.end + nread
                &&& final(connection)@.resp.len() > 0
                &&& exists|now: Seq<char>| #[trigger]
                    is_date(now) && answers(final(connection)@.resp, peer_addr@, now)
            }
            &&& action is Read ==> has_made_room(
                Window { buf: before.buf, pos: before.pos, end: (before.end + nread) as nat },
                after,
            )
            &&& action is Fail ==> {
                &&& after.buf == before.buf
                &&& after.pos == before.pos
                &&& after.end == before.end + nread
            }
            &&& !(action is Write) ==> final(connection)@.resp.len() == 0
            &&& final(connection)@.written == 0
        }),
{
    let before = old(connection)@.window;
    let after = final(connection)@.window;
    let parsed = http_parse(before.buf.subrange(before.pos as int, before.end + nread), 16);
    if parsed is Complete {
        let now = choose|now: Seq<char>| #[trigger]
            is_date(now) && final(connection)@.resp == Seq::<u8>::empty()
                + crate::http_server::response(peer_addr@, now);
        lemma_response_answers(peer_addr@, now);
        assert(final(connection)@.resp =~= crate::http_server::response(peer_addr@, now));
    }
    if action is Read {
        assert(after.buf.subrange(after.pos as int, after.end as int) =~= before.buf.subrange(
            before.pos as int,
            before.end + nread,
        ));
    }
}

/// The server writes after a request was processed, gives up after an error, and otherwise makes
/// room and reads on, unless the beginning of a request fills the buffer. What was to be written
/// stays.
pub proof fn law_processing_decides_what_follows(
    connection: &mut Connection,
    processed: Result<bool, HttpError>,
    action: ConnectionAction,
)
    requires
        old(connection).wf(),
        call_ensures(Connection::after_processed, (connection, processed), action),
    ensures
        ({
            let before = old(connection)@.window;
            let full = before.pos == 0 && before.end == 4096;
            &&& processed == Ok::<bool, HttpError>(true) <==> action is Write
            &&& processed == Ok::<bool, HttpError>(false) && !full <==> action is Read
            &&& processed == Ok::<bool, HttpError>(false) && full ==> action
                == ConnectionAction::Fail(HttpError::TooBig)
            &&& processed is Err ==> action == ConnectionAction::Fail(processed->Err_0)
            &&& action is Read ==> has_made_room(before, final(connection)@.window)
            &&& !(action is Read) ==> final(connection)@.window == before
        }),
        final(connection)@.resp == old(connection)@.resp,
        final(connection)@.written == old(connection)@.written,
{
    if action is Read {
        let before = old(connection)@.window;
        let after = final(connection)@.window;
        assert(after.buf.subrange(after.pos as int, after.end as int) =~= before.buf.subrange(
            before.pos as int,
            before.end as int,
        ));
    }
}

/// The server goes on to write, and nothing but its position in the response changes, until the
/// response is written to its end. Then it makes room and reads on, unless the beginning of a
/// request fills the buffer.
pub proof fn law_response_is_written_to_its_end(
    connection: &mut Connection,
    nwritten: usize,
    action: ConnectionAction,
)
    requires
        old(connection).wf(),
        nwritten <= old(connection)@.resp.len() - old(connection)@.written,
        call_ensures(Connection::after_write, (connection, nwritten), action),
    ensures
        ({
            let before = old(connection)@.window;
            let left = old(connection)@.resp.len() - old(connection)@.written - nwritten;
            let full = before.pos == 0 && before.end == 4096;
            &&& left > 0 <==> action is Write
            &&& left == 0 && !full <==> action is Read
            &&& left == 0 && full <==> action == ConnectionAction::Fail(HttpError::TooBig)
            &&& action is Read ==> has_made_room(before, final(connection)@.window)
            &&& !(action is Read) ==> final(connection)@.window == before
        }),
        final(connection)@.resp == old(connection)@.resp,
        final(connection)@.written == old(connection)@.written + nwritten,
{
    if action is Read {
        let before = old(connection)@.window;
        let after = final(connection)@.window;
        assert(after.buf.subrange(after.pos as int, after.end as int) =~= before.buf.subrange(
            before.pos as int,
            before.end as int,
        ));
    }
}

/// What is offered to be written is what is left of the response, from the first byte that was not
/// written to the last.
pub proof fn law_rest_of_the_response_is_offered(connection: &Connection, rest: &[u8])
    requires
        connection.wf(),
        call_ensures(Connection::write_buf, (connection,), rest),
    ensures
        rest@ == connection@.resp.subrange(
            connection@.written as int,
            connection@.resp.len() as int,
        ),
{
    assert(rest@ =~= connection@.resp.subrange(
        connection@.written as int,
        connection@.resp.len() as int,
    ));
}

/// What is offered to be read into is the part of the buffer behind the bytes that were read; they
/// and the response stay.
pub proof fn law_rest_of_the_buffer_is_offered(connection: &mut Connection, tail: &mut [u8])
    requires
        old(connection).wf(),
        call_ensures(Connection::read_buf, (connection,), tail),
        final(tail)@.len() == old(tail)@.len(),
    ensures
        ({
            let before = old(connection)@.window;
            let after = final(connection)@.window;
            &&& old(tail)@ == before.buf.subrange(before.end as int, 4096)
            &&& after.buf.len() == 4096
            &&& after.buf.subrange(0, before.end as int) == before.buf.subrange(
                0,
                before.end as int,
            )
            &&& after.buf.subrange(before.end as int, 4096) == final(tail)@
            &&& after.pos == before.pos
            &&& after.end == before.end
        }),
        final(connection)@.resp == old(connection)@.resp,
        final(connection)@.written == old(connection)@.written,
{
    let before = old(connection)@.window;
    let after = final(connection)@.window;
    assert(old(tail)@ =~= before.buf.subrange(before.end as int, 4096));
    assert(after.buf.subrange(0, before.end as int) =~= before.buf.subrange(0, before.end as int));
    assert(after.buf.subrange(before.end as int, 4096) =~= final(tail)@);
}

/// A buffer is well formed if what is pending lies within its 4096 bytes, and a connection if its
/// buffer is and no more was written than there is.
pub proof fn law_well_formed_connection(buf: &RequestBuf, connection: &Connection)
    ensures
        buf.wf() <==> buf@.pos <= buf@.end <= 4096 && buf@.buf.len() == 4096,
        connection.wf() <==> {
            &&& connection@.window.pos <= connection@.window.end <= 4096
            &&& connection@.window.buf.len() == 4096
            &&& connection@.written <= connection@.resp.len()
        },
{
}

/// A buffer takes every read that fits, and every request that a parser finds in what is pending,
/// from every peer whose address leaves room for the page.
pub proof fn law_every_read_is_accepted(
    buf: &mut RequestBuf,
    nread: usize,
    parsed: Parsed,
    peer_addr: &str,
    now: &str,
    out: &mut Vec<u8>,
)
    requires
        old(buf)@.pos <= old(buf)@.end <= 4096,
        old(buf)@.buf.len() == 4096,
        encode_utf8(peer_addr@).len() + encode_utf8(now@).len() <= usize::MAX - 2048,
    ensures
        nread <= 4096 - old(buf)@.end ==> call_requires(RequestBuf::advance, (buf, nread)),
        call_requires(RequestBuf::rewind, (buf,)),
        call_requires(RequestBuf::as_mut, (buf,)),
        call_requires(write_response, (peer_addr, now, out)),
        (parsed is Complete ==> parsed->Complete_0 <= old(buf)@.end - old(buf)@.pos)
            ==> call_requires(process_parsed, (buf, parsed, peer_addr, now, out)),
        call_requires(process_request, (buf, peer_addr, out)),
{
}

/// A connection takes every read that fits in its buffer, every outcome of processing, and every
/// write of no more than is left.
pub proof fn law_every_connection_event_is_accepted(
    connection: &mut Connection,
    same: &Connection,
    nread: usize,
    peer_addr: &str,
    processed: Result<bool, HttpError>,
    nwritten: usize,
)
    requires
        old(connection)@.window.pos <= old(connection)@.window.end <= 4096,
        old(connection)@.window.buf.len() == 4096,
        old(connection)@.written <= old(connection)@.resp.len(),
        encode_utf8(peer_addr@).len() <= usize::MAX - 2048,
        same@ == old(connection)@,
    ensures
        nread <= 4096 - old(connection)@.window.end ==> call_requires(
            Connection::after_read,
            (connection, nread, peer_addr),
        ),
        call_requires(Connection::after_processed, (connection, processed)),
        nwritten <= old(connection)@.resp.len() - old(connection)@.written ==> call_requires(
            Connection::after_write,
            (connection, nwritten),
        ),
        call_requires(Connection::read_buf, (connection,)),
        call_requires(Connection::write_buf, (same,)),
{
}

/// Every operation keeps a buffer or a connection well formed.
pub proof fn law_operations_keep_connection_well_formed(
    buf: &mut RequestBuf,
    nread: usize,
    done: Result<(), HttpError>,
    parsed: Parsed,
    peer_addr: &str,
    now: &str,
    out: &mut Vec<u8>,
    processed: Result<bool, HttpError>,
    connection: &mut Connection,
    action: ConnectionAction,
)
    ensures
        call_ensures(RequestBuf::advance, (buf, nread), done) ==> final(buf).wf(),
        call_ensures(RequestBuf::rewind, (buf,), done) ==> final(buf).wf(),
        call_ensures(process_parsed, (buf, parsed, peer_addr, now, out), processed) ==> {
            final(buf).wf()
        },
        call_ensures(process_request, (buf, peer_addr, out), processed) ==> final(buf).wf(),
        call_ensures(Connection::after_read, (connection, nread, peer_addr), action) ==> {
            final(connection).wf()
        },
        call_ensures(Connection::after_processed, (connection, processed), action) ==> {
            final(connection).wf()
        },
        call_ensures(Connection::after_write, (connection, nread), action) ==> {
            final(connection).wf()
        },
{
}

} // verus!
