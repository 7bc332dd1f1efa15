use vstd::prelude::*;
use crate::request::utf8_lossy;
use crate::request::decode_lossy;
use vstd::utf8::valid_utf8;
use vstd::utf8::decode_utf8;

verus! {

/// What one read from a non-blocking stream gave.
pub enum ReadResult {
    /// The bytes read; none at all means the peer closed the stream.
    Data(Vec<u8>),
    /// Nothing to read yet: the read would block.
    WouldBlock,
    /// The read was interrupted by a signal before it read anything.
    Interrupted,
    /// Any other error.
    Failed,
}

/// What the event loop is to do after one read from the stream of an event.
pub enum ReadStep {
    /// Print this text, which just arrived, and read the same stream again.
    Print(String),
    /// Go on with the next event.
    NextEvent,
    /// Give up with the stream's error.
    Fail,
}

/// `ReadStep` with its text taken by its characters.
#[verifier::ext_equal]
pub enum ReadStepView {
    Print(Seq<char>),
    NextEvent,
    Fail,
}

impl View for ReadStep {
    type V = ReadStepView;

    open spec fn view(&self) -> ReadStepView {
        match self {
            ReadStep::Print(t) => ReadStepView::Print(t@),
            ReadStep::NextEvent => ReadStepView::NextEvent,
            ReadStep::Fail => ReadStepView::Fail,
        }
    }
}

/// Whether a read tells that the server closed the stream: the response is
/// then complete and the event handled.
pub open spec fn closes(r: ReadResult) -> bool {
    r matches ReadResult::Data(bytes) && bytes@.len() == 0
}

/// How many of the reads `rs` tell that a stream closed: the events that a
/// pass making these reads counts as handled.
pub open spec fn closed_count(rs: Seq<ReadResult>) -> nat
    decreases rs.len(),
{
    if rs.len() == 0 {
        0
    } else {
        (if closes(rs[0]) { 1nat } else { 0nat }) + closed_count(rs.drop_first())
    }
}

/// The tally adds up across batches: the reads of two passes, one after the
/// other, count as many handled events as the two passes count together.
pub proof fn law_tally_adds_up(a: Seq<ReadResult>, b: Seq<ReadResult>)
    ensures
        closed_count(a + b) == closed_count(a) + closed_count(b),
    decreases a.len(),
{
    if a.len() == 0 {
        assert(a + b =~= b);
    } else {
        law_tally_adds_up(a.drop_first(), b);
        assert((a + b).drop_first() =~= a.drop_first() + b);
        assert((a + b)[0] == a[0]);
    }
}

/// What the event loop does after the read `r`: a complete response counts
/// as handled, bytes are printed and the stream read again, a read that
/// would block moves on to the next event, and any error ends the loop.
pub open spec fn read_step(r: ReadResult) -> ReadStepView {
    match r {
        ReadResult::Data(bytes) => if bytes@.len() == 0 {
            ReadStepView::NextEvent
        } else {
            ReadStepView::Print(utf8_lossy(bytes@))
        },
        ReadResult::WouldBlock => ReadStepView::NextEvent,
        ReadResult::Interrupted => ReadStepView::Fail,
        ReadResult::Failed => ReadStepView::Fail,
    }
}

/// The reads `s` followed by `r` count one more closed stream exactly when
/// `r` tells of one.
proof fn lemma_closed_count_push(s: Seq<ReadResult>, r: ReadResult)
    ensures
        closed_count(s.push(r)) == closed_count(s) + if closes(r) { 1nat } else { 0nat },
{
    law_tally_adds_up(s, seq![r]);
    assert(s + seq![r] =~= s.push(r));
    assert(seq![r].drop_first() =~= Seq::<ReadResult>::empty());
    assert(closed_count(Seq::<ReadResult>::empty()) == 0);
    assert(seq![r][0] == r);
    assert(closed_count(seq![r]) == (if closes(r) { 1nat } else { 0nat }) + closed_count(
        seq![r].drop_first(),
    ));
}

/// What the event loop does after each kind of read, told read by read:
/// bytes read are printed, all of them, as their lossy decoding, and the
/// stream is read again; a closed stream or a read that would block moves on
/// to the next event, and only a closed stream counts as handled; any error
/// ends the loop.
pub proof fn law_read_step_by_result(r: ReadResult)
    ensures
        r is Data && r->Data_0@.len() > 0 ==> read_step(r) == ReadStepView::Print(
            utf8_lossy(r->Data_0@),
        ) && !closes(r),
        r is Data && r->Data_0@.len() == 0 ==> read_step(r) == ReadStepView::NextEvent && closes(r),
        r is WouldBlock ==> read_step(r) == ReadStepView::NextEvent && !closes(r),
        r is Interrupted ==> read_step(r) == ReadStepView::Fail && !closes(r),
        r is Failed ==> read_step(r) == ReadStepView::Fail && !closes(r),
        closed_count(seq![r]) == (if r is Data && r->Data_0@.len() == 0 {
            1nat
        } else {
            0nat
        }),
{
    assert(seq![r].drop_first() =~= Seq::<ReadResult>::empty());
    assert(seq![r][0] == r);
    assert(closed_count(Seq::<ReadResult>::empty()) == 0);
    assert(closed_count(seq![r]) == (if closes(r) { 1nat } else { 0nat }) + closed_count(
        seq![r].drop_first(),
    ));
}

/// The tally of the events handled by one pass over a batch of readiness
/// events: an event is handled once its server has closed the stream. It
/// keeps the reads it was given, and its count is always that of the
/// closed streams among them.
pub struct EventBatch {
    handled: usize,
    reads: Ghost<Seq<ReadResult>>,
}

impl EventBatch {
    #[verifier::type_invariant]
    spec fn counts_its_reads(&self) -> bool {
        self.handled == closed_count(self.reads@)
    }

    /// The reads this pass has been given, in order.
    pub closed spec fn reads(&self) -> Seq<ReadResult> {
        self.reads@
    }

    /// A pass that has made no read yet.
    pub fn new() -> (b: Self)
        ensures
            b.reads() == Seq::<ReadResult>::empty(),
    {
        EventBatch { handled: 0, reads: Ghost(Seq::empty()) }
    }

    /// The events handled so far: the closed streams among the reads.
    pub fn handled(&self) -> (n: usize)
        ensures
            n == closed_count(self.reads()),
    {
        proof {
            use_type_invariant(self);
        }
        self.handled
    }

    /// Takes the result of one read and says what to do next (see
    /// `read_step`); the read joins the pass's reads, so the event counts as
    /// handled when the stream closed.
    pub fn handle_read(&mut self, r: ReadResult) -> (step: ReadStep)
        requires
            closed_count(old(self).reads()) < usize::MAX,
        ensures
            step@ == read_step(r),
            final(self).reads() == old(self).reads().push(r),
            r is Data && r->Data_0@.len() > 0 && valid_utf8(r->Data_0@) ==> (step is Print
                && step->Print_0@ == decode_utf8(r->Data_0@)),
    {
        proof {
            use_type_invariant(&*self);
            lemma_closed_count_push(self.reads@, r);
        }
        let ghost seen = self.reads@.push(r);
        let closed = match &r {
            ReadResult::Data(bytes) => bytes.len() == 0,
            _ => false,
        };
        let handled = if closed { self.handled + 1 } else { self.handled };
        *self = EventBatch { handled, reads: Ghost(seen) };
        match r {
            ReadResult::Data(bytes) => {
                if bytes.len() == 0 {
                    ReadStep::NextEvent
                } else {
                    ReadStep::Print(decode_lossy(bytes.as_slice()))
                }
            },
            ReadResult::WouldBlock => ReadStep::NextEvent,
            ReadResult::Interrupted => ReadStep::Fail,
            ReadResult::Failed => ReadStep::Fail,
        }
    }
}

} // verus!
