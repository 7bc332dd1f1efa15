use vstd::prelude::*;
use vstd::string::*;
use crate::http::ActionView;
use crate::http::Http;
use crate::http::HttpAction;
use crate::http::HttpEvent;
use crate::http::HttpGetFuture;
use crate::http::HttpModel;
use crate::http::fresh_future;
use crate::http::http_step;
use crate::request::request_text;

verus! {

/// Where the coroutine stands: not started, awaiting its first or its
/// second request, or done.
enum State {
    Start,
    Wait1(HttpGetFuture),
    Wait2(HttpGetFuture),
    Resolved,
}

/// The coroutine's state, its awaited futures taken by their models.
pub enum CoroutineView {
    Start,
    Wait1(HttpModel),
    Wait2(HttpModel),
    Resolved,
}

/// What the driver of the coroutine is to do next.
pub enum CoroutineAction {
    /// Connect, write these bytes and register the stream, then report
    /// `HttpEvent::Sent`.
    WriteRequest(String),
    /// Read from the stream and report what came.
    Read,
    /// The coroutine waits for its stream to become readable.
    Pending,
    /// The coroutine has finished.
    Ready,
}

/// `CoroutineAction` with its request taken by its characters.
#[verifier::ext_equal]
pub enum CoroutineActionView {
    WriteRequest(Seq<char>),
    Read,
    Pending,
    Ready,
}

impl View for CoroutineAction {
    type V = CoroutineActionView;

    open spec fn view(&self) -> CoroutineActionView {
        match self {
            CoroutineAction::WriteRequest(r) => CoroutineActionView::WriteRequest(r@),
            CoroutineAction::Read => CoroutineActionView::Read,
            CoroutineAction::Pending => CoroutineActionView::Pending,
            CoroutineAction::Ready => CoroutineActionView::Ready,
        }
    }
}

/// The path the coroutine fetches first.
pub open spec fn first_path() -> Seq<char> {
    "/600/HelloWorld1"@
}

/// The path the coroutine fetches second.
pub open spec fn second_path() -> Seq<char> {
    "/400/HelloWorld2"@
}

/// What the coroutine asks of its driver when the awaited future asks `a`
/// (which is not `Ready`).
pub open spec fn forward(a: ActionView) -> CoroutineActionView {
    match a {
        ActionView::WriteRequest(r) => CoroutineActionView::WriteRequest(r),
        ActionView::Read => CoroutineActionView::Read,
        ActionView::Pending => CoroutineActionView::Pending,
        ActionView::Ready(_) => CoroutineActionView::Ready,
    }
}

/// One step of the coroutine: its next state, the lines it prints and what
/// its driver is to do. Starting, it fetches the first path; when that
/// response is complete it prints it and fetches the second; when the second
/// is complete it prints it and is done. A new fetch is polled at once.
#[verifier::opaque]
pub open spec fn coroutine_step(c: CoroutineView, ev: HttpEvent) -> (
    CoroutineView,
    Seq<Seq<char>>,
    CoroutineActionView,
) {
    match c {
        CoroutineView::Start => {
            let (f, a) = http_step(fresh_future(first_path()), HttpEvent::Poll);
            (CoroutineView::Wait1(f), seq!["program starting"@], forward(a))
        },
        CoroutineView::Wait1(f) => {
            let (f1, a) = http_step(f, ev);
            match a {
                ActionView::Ready(text) => {
                    let (g, b) = http_step(fresh_future(second_path()), HttpEvent::Poll);
                    (CoroutineView::Wait2(g), seq!["wait 1 text: "@ + text], forward(b))
                },
                _ => (CoroutineView::Wait1(f1), Seq::empty(), forward(a)),
            }
        },
        CoroutineView::Wait2(f) => {
            let (f1, a) = http_step(f, ev);
            match a {
                ActionView::Ready(text) => (
                    CoroutineView::Resolved,
                    seq!["wait 2 text: "@ + text],
                    CoroutineActionView::Ready,
                ),
                _ => (CoroutineView::Wait2(f1), Seq::empty(), forward(a)),
            }
        },
        CoroutineView::Resolved => (CoroutineView::Resolved, Seq::empty(), CoroutineActionView::Ready),
    }
}

/// The coroutine fetches its two paths one after the other: starting, it
/// announces itself and asks for the first request; when the first response
/// is complete it prints it and asks for the second request at once; when the
/// second is complete it prints it and is done.
pub proof fn law_coroutine_requests_in_order(f: HttpModel, g: HttpModel, ev: HttpEvent, text: Seq<char>)
    requires
        http_step(f, ev).1 == ActionView::Ready(text),
        http_step(g, ev).1 == ActionView::Ready(text),
    ensures
        coroutine_step(CoroutineView::Start, ev).1 == seq!["program starting"@],
        coroutine_step(CoroutineView::Start, ev).2 == CoroutineActionView::WriteRequest(
            crate::request::request_text(first_path()),
        ),
        coroutine_step(CoroutineView::Wait1(f), ev).1 == seq!["wait 1 text: "@ + text],
        coroutine_step(CoroutineView::Wait1(f), ev).2 == CoroutineActionView::WriteRequest(
            crate::request::request_text(second_path()),
        ),
        coroutine_step(CoroutineView::Wait2(g), ev).0 == CoroutineView::Resolved,
        coroutine_step(CoroutineView::Wait2(g), ev).1 == seq!["wait 2 text: "@ + text],
        coroutine_step(CoroutineView::Wait2(g), ev).2 == CoroutineActionView::Ready,
{
    reveal(coroutine_step);
}

/// How far the coroutine has got: not started, awaiting its first request,
/// awaiting its second, done.
pub open spec fn stage(c: CoroutineView) -> int {
    match c {
        CoroutineView::Start => 0,
        CoroutineView::Wait1(_) => 1,
        CoroutineView::Wait2(_) => 2,
        CoroutineView::Resolved => 3,
    }
}

/// The states the coroutine can be in: each awaited future fetches the path
/// that belongs to its stage.
pub open spec fn coroutine_inv(c: CoroutineView) -> bool {
    match c {
        CoroutineView::Wait1(f) => f.path == first_path(),
        CoroutineView::Wait2(g) => g.path == second_path(),
        _ => true,
    }
}

/// The request the coroutine asks for while it is in state `c`.
pub open spec fn stage_request(c: CoroutineView) -> Seq<char> {
    match c {
        CoroutineView::Wait2(_) => request_text(second_path()),
        _ => request_text(first_path()),
    }
}

/// What holds of one step of a run, from the state `prev` to the state and
/// action `next`: the coroutine stays or moves on by one stage, it is ready
/// exactly when it has finished, and any request it asks for is that of the
/// stage it is in.
pub open spec fn step_in_order(prev: CoroutineView, next: (CoroutineView, CoroutineActionView)) -> bool {
    &&& stage(prev) <= stage(next.0) <= stage(prev) + 1
    &&& (next.1 == CoroutineActionView::Ready <==> next.0 is Resolved)
    &&& next.1 matches CoroutineActionView::WriteRequest(r) ==> (next.0 is Wait1 || next.0 is Wait2)
        && r == stage_request(next.0)
}

/// The state a run stood in before its `k`-th step: the starting state
/// `c` before the first one, the state the previous step led to otherwise.
pub open spec fn before(c: CoroutineView, t: Seq<(CoroutineView, CoroutineActionView)>, k: int) -> CoroutineView {
    if k == 0 {
        c
    } else {
        t[k - 1].0
    }
}

/// The states and actions of a run of polls of the coroutine from `c`, one
/// per event.
pub open spec fn trace(c: CoroutineView, evs: Seq<HttpEvent>) -> Seq<(CoroutineView, CoroutineActionView)>
    decreases evs.len(),
{
    if evs.len() == 0 {
        Seq::empty()
    } else {
        let (n, _lines, a) = coroutine_step(c, evs[0]);
        seq![(n, a)] + trace(n, evs.drop_first())
    }
}

/// Whether a run of polls from `c` never polls a finished coroutine.
pub open spec fn polls_ok(c: CoroutineView, evs: Seq<HttpEvent>) -> bool
    decreases evs.len(),
{
    evs.len() == 0 || (!(c is Resolved) && polls_ok(coroutine_step(c, evs[0]).0, evs.drop_first()))
}

/// One step of the coroutine keeps its states reachable, moves forward by
/// at most one stage, is ready exactly when it finishes, prints exactly when
/// it moves on, and asks only for the request of its stage.
pub proof fn law_coroutine_step(c: CoroutineView, ev: HttpEvent)
    requires
        coroutine_inv(c),
        !(c is Resolved),
    ensures
        coroutine_inv(coroutine_step(c, ev).0),
        step_in_order(c, (coroutine_step(c, ev).0, coroutine_step(c, ev).2)),
        coroutine_step(c, ev).1.len() > 0 <==> stage(coroutine_step(c, ev).0) == stage(c) + 1,
{
    reveal(coroutine_step);
}

/// Over any run of polls that never polls it once finished, the coroutine
/// only moves forward, one stage at a time (Start, then the first request,
/// then the second, then done), asks for the first request while awaiting
/// it and for the second only after the first response is complete, and is
/// ready exactly once: at the last poll, when it has finished.
pub proof fn law_coroutine_run(c: CoroutineView, evs: Seq<HttpEvent>)
    requires
        coroutine_inv(c),
        polls_ok(c, evs),
    ensures
        trace(c, evs).len() == evs.len(),
        forall|k: int|
            0 <= k < trace(c, evs).len() ==> #[trigger] step_in_order(
                before(c, trace(c, evs), k),
                trace(c, evs)[k],
            ),
        forall|k: int| 0 <= k < trace(c, evs).len() - 1 ==> !(#[trigger] trace(c, evs)[k].0 is Resolved),
    decreases evs.len(),
{
    if evs.len() > 0 {
        let n = coroutine_step(c, evs[0]).0;
        let a = coroutine_step(c, evs[0]).2;
        let rest = evs.drop_first();
        law_coroutine_step(c, evs[0]);
        law_coroutine_run(n, rest);
        let t = trace(c, evs);
        let u = trace(n, rest);
        assert(t == seq![(n, a)] + u);
        assert forall|k: int| 0 <= k < t.len() implies #[trigger] step_in_order(before(c, t, k), t[k]) by {
            if k > 0 {
                assert(t[k] == u[k - 1]);
                assert(before(c, t, k) == before(n, u, k - 1));
                assert(step_in_order(before(n, u, k - 1), u[k - 1]));
            }
        }
        assert forall|k: int| 0 <= k < t.len() - 1 implies !(#[trigger] t[k].0 is Resolved) by {
            if k > 0 {
                assert(t[k] == u[k - 1]);
            } else {
                assert(polls_ok(n, rest));
                assert(rest.len() > 0);
                assert(t[0].0 == n);
            }
        }
    }
}

/// What the coroutine asks for while the future it awaits is not ready: it
/// stays awaiting that future, as the future moved on, prints nothing, and
/// passes on exactly what the future asks for (the request, a read, or to
/// wait). So an awaited future whose request was sent, once polled, has its
/// stream read.
pub proof fn law_coroutine_forwards_awaited_future(f: HttpModel, ev: HttpEvent)
    ensures
        !(http_step(f, ev).1 is Ready) ==> {
            &&& coroutine_step(CoroutineView::Wait1(f), ev).0 == CoroutineView::Wait1(
                http_step(f, ev).0,
            )
            &&& coroutine_step(CoroutineView::Wait2(f), ev).0 == CoroutineView::Wait2(
                http_step(f, ev).0,
            )
            &&& coroutine_step(CoroutineView::Wait1(f), ev).1.len() == 0
            &&& coroutine_step(CoroutineView::Wait2(f), ev).1.len() == 0
        },
        http_step(f, ev).1 == ActionView::Read ==> coroutine_step(CoroutineView::Wait1(f), ev).2
            == CoroutineActionView::Read && coroutine_step(CoroutineView::Wait2(f), ev).2
            == CoroutineActionView::Read,
        http_step(f, ev).1 == ActionView::Pending ==> coroutine_step(CoroutineView::Wait1(f), ev).2
            == CoroutineActionView::Pending && coroutine_step(CoroutineView::Wait2(f), ev).2
            == CoroutineActionView::Pending,
        http_step(f, ev).1 is WriteRequest ==> coroutine_step(CoroutineView::Wait1(f), ev).2
            == CoroutineActionView::WriteRequest(http_step(f, ev).1->WriteRequest_0)
            && coroutine_step(CoroutineView::Wait2(f), ev).2 == CoroutineActionView::WriteRequest(
            http_step(f, ev).1->WriteRequest_0,
        ),
        f.sent && ev is Poll ==> coroutine_step(CoroutineView::Wait1(f), ev).2
            == CoroutineActionView::Read && coroutine_step(CoroutineView::Wait2(f), ev).2
            == CoroutineActionView::Read,
{
    reveal(coroutine_step);
}

/// A run from a new coroutine asks for the first request at its first poll.
pub proof fn law_coroutine_starts_with_first_request(ev: HttpEvent)
    ensures
        coroutine_step(CoroutineView::Start, ev).2 == CoroutineActionView::WriteRequest(
            request_text(first_path()),
        ),
{
    reveal(coroutine_step);
}

/// A coroutine, written by hand as a state machine, that fetches two paths
/// one after the other and prints each response.
pub struct Coroutine {
    state: State,
}

impl View for Coroutine {
    type V = CoroutineView;

    closed spec fn view(&self) -> CoroutineView {
        match self.state {
            State::Start => CoroutineView::Start,
            State::Wait1(f) => CoroutineView::Wait1(f@),
            State::Wait2(f) => CoroutineView::Wait2(f@),
            State::Resolved => CoroutineView::Resolved,
        }
    }
}

fn forward_action(a: HttpAction) -> (c: CoroutineAction)
    ensures
        c@ == forward(a@),
{
    match a {
        HttpAction::WriteRequest(r) => CoroutineAction::WriteRequest(r),
        HttpAction::Read => CoroutineAction::Read,
        HttpAction::Pending => CoroutineAction::Pending,
        HttpAction::Ready(_) => CoroutineAction::Ready,
    }
}

impl Coroutine {
    /// A coroutine that has not started.
    pub fn new() -> (c: Self)
        ensures
            c@ == CoroutineView::Start,
    {
        Coroutine { state: State::Start }
    }

    /// Whether the coroutine has finished.
    pub fn is_resolved(&self) -> (r: bool)
        ensures
            r == (self@ is Resolved),
    {
        match self.state {
            State::Resolved => true,
            _ => false,
        }
    }

    /// Takes one step (see `coroutine_step`) and returns the lines to print
    /// and what the driver is to do. A finished coroutine must not be polled.
    pub fn poll(&mut self, ev: HttpEvent) -> (out: (Vec<String>, CoroutineAction))
        requires
            !(old(self)@ is Resolved),
        ensures
            final(self)@ == coroutine_step(old(self)@, ev).0,
            out.0@.map_values(|s: String| s@) == coroutine_step(old(self)@, ev).1,
            out.1@ == coroutine_step(old(self)@, ev).2,
    {
        proof {
            reveal(coroutine_step);
        }
        let mut lines: Vec<String> = Vec::new();
        let mut state = State::Resolved;
        std::mem::swap(&mut state, &mut self.state);
        match state {
            State::Start => {
                let mut fut = Http::get("/600/HelloWorld1");
                let a = fut.poll(HttpEvent::Poll);
                self.state = State::Wait1(fut);
                lines.push(String::from_str("program starting"));
                let act = forward_action(a);
                assert(lines@.map_values(|s: String| s@) =~= seq!["program starting"@]);
                (lines, act)
            },
            State::Wait1(mut fut) => {
                let a = fut.poll(ev);
                match a {
                    HttpAction::Ready(text) => {
                        let mut next = Http::get("/400/HelloWorld2");
                        let b = next.poll(HttpEvent::Poll);
                        self.state = State::Wait2(next);
                        lines.push(String::from_str("wait 1 text: ").concat(text.as_str()));
                        assert(lines@.map_values(|s: String| s@) =~= seq!["wait 1 text: "@ + text@]);
                        (lines, forward_action(b))
                    },
                    other => {
                        self.state = State::Wait1(fut);
                        assert(lines@.map_values(|s: String| s@) =~= Seq::<Seq<char>>::empty());
                        (lines, forward_action(other))
                    },
                }
            },
            State::Wait2(mut fut) => {
                let a = fut.poll(ev);
                match a {
                    HttpAction::Ready(text) => {
                        self.state = State::Resolved;
                        lines.push(String::from_str("wait 2 text: ").concat(text.as_str()));
                        assert(lines@.map_values(|s: String| s@) =~= seq!["wait 2 text: "@ + text@]);
                        (lines, CoroutineAction::Ready)
                    },
                    other => {
                        self.state = State::Wait2(fut);
                        assert(lines@.map_values(|s: String| s@) =~= Seq::<Seq<char>>::empty());
                        (lines, forward_action(other))
                    },
                }
            },
            State::Resolved => {
                (lines, CoroutineAction::Ready)
            },
        }
    }
}

} // verus!
