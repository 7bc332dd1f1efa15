use vstd::prelude::*;
use crate::request::get_req;
use crate::request::request_text;
use crate::request::utf8_lossy;
use crate::request::decode_lossy;
use vstd::utf8::valid_utf8;
use vstd::utf8::decode_utf8;

verus! {

/// What happens to an HTTP `GET` future, as its driver reports it. A read
/// that fails otherwise is not reported: the driver gives up with the error.
pub enum HttpEvent {
    /// The future is polled.
    Poll,
    /// The request the future asked for was written and the stream
    /// registered for readiness.
    Sent,
    /// A read from the stream gave these bytes; none at all means the
    /// server closed the stream.
    Data(Vec<u8>),
    /// A read from the stream would block: nothing to read yet.
    WouldBlock,
    /// A read from the stream was interrupted before it read anything.
    Interrupted,
}

/// What the driver of an HTTP `GET` future is to do next.
pub enum HttpAction {
    /// Connect, write these bytes and register the stream, then report `Sent`.
    WriteRequest(String),
    /// Read from the stream and report what came.
    Read,
    /// The response is complete; this is its text.
    Ready(String),
    /// Nothing more can happen until the stream is readable again.
    Pending,
}

/// `HttpAction` with its strings taken by their characters.
#[verifier::ext_equal]
pub enum ActionView {
    WriteRequest(Seq<char>),
    Read,
    Ready(Seq<char>),
    Pending,
}

impl View for HttpAction {
    type V = ActionView;

    open spec fn view(&self) -> ActionView {
        match self {
            HttpAction::WriteRequest(r) => ActionView::WriteRequest(r@),
            HttpAction::Read => ActionView::Read,
            HttpAction::Ready(t) => ActionView::Ready(t@),
            HttpAction::Pending => ActionView::Pending,
        }
    }
}

/// The state of an HTTP `GET` future: the path it fetches, whether its
/// request has been sent, and the bytes of the response received so far.
pub struct HttpModel {
    pub path: Seq<char>,
    pub sent: bool,
    pub buffer: Seq<u8>,
}

/// A future that has not sent anything yet.
pub open spec fn fresh_future(path: Seq<char>) -> HttpModel {
    HttpModel { path, sent: false, buffer: Seq::empty() }
}

/// One step of an HTTP `GET` future: the state it moves to and what its
/// driver is to do, given what happened.
pub open spec fn http_step(m: HttpModel, ev: HttpEvent) -> (HttpModel, ActionView) {
    match ev {
        HttpEvent::Poll => if m.sent {
            (m, ActionView::Read)
        } else {
            (m, ActionView::WriteRequest(request_text(m.path)))
        },
        HttpEvent::Sent => (HttpModel { sent: true, ..m }, ActionView::Read),
        HttpEvent::Data(bytes) => if bytes@.len() == 0 {
            (m, ActionView::Ready(utf8_lossy(m.buffer)))
        } else {
            (HttpModel { buffer: m.buffer + bytes@, ..m }, ActionView::Read)
        },
        HttpEvent::WouldBlock => (m, ActionView::Pending),
        HttpEvent::Interrupted => (m, ActionView::Read),
    }
}

/// The future's state after reading each of `chunks`, in order.
pub open spec fn read_chunks(m: HttpModel, chunks: Seq<Vec<u8>>) -> HttpModel
    decreases chunks.len(),
{
    if chunks.len() == 0 {
        m
    } else {
        read_chunks(
            http_step(m, HttpEvent::Data(chunks[0])).0,
            chunks.drop_first(),
        )
    }
}

/// The bytes of `chunks`, one after the other.
pub open spec fn concat_chunks(chunks: Seq<Vec<u8>>) -> Seq<u8>
    decreases chunks.len(),
{
    if chunks.len() == 0 {
        Seq::empty()
    } else {
        chunks[0]@ + concat_chunks(chunks.drop_first())
    }
}

/// The entry point of HTTP requests.
pub struct Http;

impl Http {
    /// A future that fetches `path` with a `GET` request.
    pub fn get(path: &str) -> (fut: HttpGetFuture)
        ensures
            fut@ == fresh_future(path@),
    {
        HttpGetFuture::new(path)
    }
}

/// A future that fetches one path over HTTP; its driver performs the I/O it
/// asks for and reports back.
pub struct HttpGetFuture {
    sent: bool,
    buffer: Vec<u8>,
    path: String,
}

impl View for HttpGetFuture {
    type V = HttpModel;

    closed spec fn view(&self) -> HttpModel {
        HttpModel { path: self.path@, sent: self.sent, buffer: self.buffer@ }
    }
}

impl HttpGetFuture {
    /// A future for `path` that has sent nothing yet.
    pub fn new(path: &str) -> (fut: Self)
        ensures
            fut@ == fresh_future(path@),
    {
        HttpGetFuture { sent: false, buffer: Vec::new(), path: path.to_owned() }
    }

    /// The request this future sends.
    pub fn write_request(&self) -> (req: String)
        ensures
            req@ == request_text(self@.path),
    {
        get_req(self.path.as_str())
    }

    /// Takes one step: on a poll, it asks for its request to be written the
    /// first time and for a read afterwards; it gathers the bytes read, and
    /// when the server closes the stream it is ready with their text. A read
    /// that would block leaves it pending and an interrupted one is retried.
    pub fn poll(&mut self, ev: HttpEvent) -> (act: HttpAction)
        ensures
            final(self)@ == http_step(old(self)@, ev).0,
            act@ == http_step(old(self)@, ev).1,
            act is Ready && valid_utf8(old(self)@.buffer) ==> act->Ready_0@ == decode_utf8(
                old(self)@.buffer,
            ),
    {
        match ev {
            HttpEvent::Poll => {
                if self.sent {
                    HttpAction::Read
                } else {
                    HttpAction::WriteRequest(self.write_request())
                }
            },
            HttpEvent::Sent => {
                self.sent = true;
                HttpAction::Read
            },
            HttpEvent::Data(mut bytes) => {
                if bytes.len() == 0 {
                    HttpAction::Ready(decode_lossy(self.buffer.as_slice()))
                } else {
                    self.buffer.append(&mut bytes);
                    HttpAction::Read
                }
            },
            HttpEvent::WouldBlock => HttpAction::Pending,
            HttpEvent::Interrupted => HttpAction::Read,
        }
    }
}

/// Once its request is sent, a future never asks for it to be sent again,
/// whatever happens.
pub proof fn law_request_sent_once(m: HttpModel, ev: HttpEvent)
    requires
        m.sent,
    ensures
        http_step(m, ev).0.sent,
        http_step(m, ev).0.path == m.path,
        !(http_step(m, ev).1 is WriteRequest),
{
}

/// What each event does to a future, told event by event: it keeps the path
/// it fetches; a poll changes nothing and asks for the request until it is
/// sent, for a read after; a sent request is recorded; bytes read are added
/// at the end of the response and another read is asked for; the server
/// closing the stream makes it ready with the text of everything read; a
/// read that would block leaves it pending and an interrupted one is
/// retried. So it is ready only when the stream closes.
pub proof fn law_http_step_by_event(m: HttpModel, ev: HttpEvent)
    ensures
        http_step(m, ev).0.path == m.path,
        http_step(m, ev).1 is Ready ==> (ev is Data && ev->Data_0@.len() == 0),
        ev is Poll ==> http_step(m, ev).0 == m && http_step(m, ev).1 == (if m.sent {
            ActionView::Read
        } else {
            ActionView::WriteRequest(request_text(m.path))
        }),
        ev is Sent ==> http_step(m, ev).0 == (HttpModel { sent: true, ..m }) && http_step(m, ev).1
            == ActionView::Read,
        ev is Data && ev->Data_0@.len() > 0 ==> http_step(m, ev).0 == (HttpModel {
            buffer: m.buffer + ev->Data_0@,
            ..m
        }) && http_step(m, ev).1 == ActionView::Read,
        ev is Data && ev->Data_0@.len() == 0 ==> http_step(m, ev).0 == m && http_step(
            m,
            ev,
        ).1 == ActionView::Ready(utf8_lossy(m.buffer)),
        ev is WouldBlock ==> http_step(m, ev).0 == m && http_step(m, ev).1 == ActionView::Pending,
        ev is Interrupted ==> http_step(m, ev).0 == m && http_step(m, ev).1 == ActionView::Read,
{
}

/// Until its request is sent, a polled future asks for exactly the `GET`
/// request of its path.
pub proof fn law_first_poll_writes_request(path: Seq<char>)
    ensures
        http_step(fresh_future(path), HttpEvent::Poll).1 == ActionView::WriteRequest(
            request_text(path),
        ),
{
}

/// The text a future is ready with is the decoding of every byte read, in
/// the order read: reading non-empty chunks and then seeing the stream close
/// yields the decoding of the chunks one after the other.
pub proof fn law_response_is_everything_read(m: HttpModel, chunks: Seq<Vec<u8>>, eof: Vec<u8>)
    requires
        forall|i: int| 0 <= i < chunks.len() ==> #[trigger] chunks[i]@.len() > 0,
        eof@.len() == 0,
    ensures
        http_step(read_chunks(m, chunks), HttpEvent::Data(eof)).1
            == ActionView::Ready(utf8_lossy(m.buffer + concat_chunks(chunks))),
        read_chunks(m, chunks).buffer == m.buffer + concat_chunks(chunks),
    decreases chunks.len(),
{
    if chunks.len() > 0 {
        let m1 = http_step(m, HttpEvent::Data(chunks[0])).0;
        assert(chunks[0]@.len() > 0);
        let rest = chunks.drop_first();
        assert forall|i: int| 0 <= i < rest.len() implies #[trigger] rest[i]@.len() > 0 by {
            assert(rest[i] == chunks[i + 1]);
        }
        law_response_is_everything_read(m1, rest, eof);
        assert(m1.buffer + concat_chunks(rest) =~= m.buffer + concat_chunks(chunks));
    } else {
        assert(m.buffer + concat_chunks(chunks) =~= m.buffer);
    }
}

} // verus!
