//! The HTTP query bridge: one exchange between the core's server and the
//! host, as a state machine.
//!
//! The server hands the host a query together with three handles. The host
//! answers by initializing the response once and then sending body chunks.
//! Each of these calls is tried on the transport; where the transport can
//! no longer carry it, the host's abort callback is invoked instead and the
//! exchange ends.
use vstd::prelude::*;
use crate::text::{c_text, nul_free, string_callback};

verus! {

/// Where an exchange stands.
#[derive(Clone, Copy, Debug, PartialEq, Eq, Structural)]
pub enum ExchangePhase {
    /// The query was handed to the host; the response is not initialized.
    Pending,
    /// The response is initialized and takes body chunks.
    Streaming,
    /// The host is done with the exchange.
    Complete,
    /// The transport failed; nothing more is produced.
    Aborted,
}

/// The response of an exchange before it is initialized. Initializing the
/// response consumes this handle.
#[derive(Debug, PartialEq, Eq)]
pub struct endb_server_http_response {
    pub exchange: u64,
}

/// The body sender of an exchange. It is lent out for each chunk.
#[derive(Debug, PartialEq, Eq)]
pub struct endb_server_http_sender {
    pub exchange: u64,
}

/// The one-shot completion signal of an exchange. Initializing the response
/// consumes this handle and fires the signal.
#[derive(Debug, PartialEq, Eq)]
pub struct endb_server_one_shot_sender {
    pub exchange: u64,
}

/// One exchange, as the bridge sees it.
#[derive(Clone, Copy, Debug, PartialEq, Eq, Structural)]
pub struct Exchange {
    pub id: u64,
    pub phase: ExchangePhase,
}

/// What the server extracted from a request.
#[derive(Debug, PartialEq, Eq)]
pub struct QueryRequest {
    pub method: Vec<u8>,
    pub media_type: Vec<u8>,
    pub q: Vec<u8>,
    pub p: Vec<u8>,
    pub m: Vec<u8>,
}

/// What the host's query continuation receives: the three handles and the
/// five texts in boundary form.
#[derive(Debug, PartialEq, Eq)]
pub struct QueryCall {
    pub response: endb_server_http_response,
    pub sender: endb_server_http_sender,
    pub tx: endb_server_one_shot_sender,
    pub method: Vec<u8>,
    pub media_type: Vec<u8>,
    pub q: Vec<u8>,
    pub p: Vec<u8>,
    pub m: Vec<u8>,
}

/// A call that the host makes on an exchange. `delivered` tells whether the
/// transport carried what the call asked for.
#[derive(Debug, PartialEq, Eq)]
pub enum HostCall {
    Init {
        response: endb_server_http_response,
        tx: endb_server_one_shot_sender,
        status: u16,
        content_type: Vec<u8>,
        delivered: bool,
    },
    Send { sender: endb_server_http_sender, body: Vec<u8>, delivered: bool },
    Finish,
}

/// What the bridge does in answer to a host call.
#[derive(Debug, PartialEq, Eq)]
pub enum BridgeAction {
    /// The response is initialized with this head. The response handle is
    /// released and the completion signal fires.
    Init { status: u16, content_type: Vec<u8> },
    /// A body chunk goes to the transport.
    Send { body: Vec<u8> },
    /// The host's abort callback is invoked.
    Abort,
}

/// A host call as a mathematical value.
pub enum HostCallView {
    Init { response: u64, tx: u64, status: u16, content_type: Seq<u8>, delivered: bool },
    Send { sender: u64, body: Seq<u8>, delivered: bool },
    Finish,
}

/// A bridge action as a mathematical value.
pub enum BridgeActionView {
    Init { status: u16, content_type: Seq<u8> },
    Send { body: Seq<u8> },
    Abort,
}

impl View for HostCall {
    type V = HostCallView;

    open spec fn view(&self) -> HostCallView {
        match *self {
            HostCall::Init { response, tx, status, content_type, delivered } => HostCallView::Init {
                response: response.exchange,
                tx: tx.exchange,
                status,
                content_type: content_type@,
                delivered,
            },
            HostCall::Send { sender, body, delivered } => HostCallView::Send {
                sender: sender.exchange,
                body: body@,
                delivered,
            },
            HostCall::Finish => HostCallView::Finish,
        }
    }
}

impl View for BridgeAction {
    type V = BridgeActionView;

    open spec fn view(&self) -> BridgeActionView {
        match *self {
            BridgeAction::Init { status, content_type } => BridgeActionView::Init {
                status,
                content_type: content_type@,
            },
            BridgeAction::Send { body } => BridgeActionView::Send { body: body@ },
            BridgeAction::Abort => BridgeActionView::Abort,
        }
    }
}

/// The views of a list of host calls.
pub open spec fn call_views(calls: Seq<HostCall>) -> Seq<HostCallView> {
    calls.map_values(|c: HostCall| c@)
}

/// The views of a list of bridge actions.
pub open spec fn action_views(actions: Seq<BridgeAction>) -> Seq<BridgeActionView> {
    actions.map_values(|a: BridgeAction| a@)
}

/// The exchange as it stands when the query goes to the host.
pub open spec fn pending(id: u64) -> Exchange {
    Exchange { id, phase: ExchangePhase::Pending }
}

/// One host call: the exchange after it, and what the bridge does.
///
/// - Initializing is accepted once, while the exchange is pending, and only
///   with the handles of this exchange. It releases the response handle and
///   fires the completion signal whether or not the transport carries it.
/// - A chunk is accepted while the exchange is streaming, and only through
///   the sender of this exchange.
/// - A transport failure invokes the abort callback and ends the exchange.
///   A chunk offered after that is not sent; the abort callback answers it.
/// - Every other call is dropped.
pub open spec fn step(e: Exchange, call: HostCallView) -> (Exchange, Seq<BridgeActionView>) {
    match call {
        HostCallView::Init { response, tx, status, content_type, delivered } => {
            if e.phase == ExchangePhase::Pending && response == e.id && tx == e.id {
                let init = BridgeActionView::Init { status, content_type };
                if delivered {
                    (Exchange { id: e.id, phase: ExchangePhase::Streaming }, seq![init])
                } else {
                    (
                        Exchange { id: e.id, phase: ExchangePhase::Aborted },
                        seq![init, BridgeActionView::Abort],
                    )
                }
            } else {
                (e, Seq::empty())
            }
        },
        HostCallView::Send { sender, body, delivered } => {
            if sender != e.id {
                (e, Seq::empty())
            } else if e.phase == ExchangePhase::Streaming {
                let send = BridgeActionView::Send { body };
                if delivered {
                    (e, seq![send])
                } else {
                    (
                        Exchange { id: e.id, phase: ExchangePhase::Aborted },
                        seq![send, BridgeActionView::Abort],
                    )
                }
            } else if e.phase == ExchangePhase::Aborted {
                (e, seq![BridgeActionView::Abort])
            } else {
                (e, Seq::empty())
            }
        },
        HostCallView::Finish => {
            if e.phase == ExchangePhase::Streaming {
                (Exchange { id: e.id, phase: ExchangePhase::Complete }, Seq::empty())
            } else {
                (e, Seq::empty())
            }
        },
    }
}

/// A series of host calls, one after the other: the exchange after the
/// last, and everything the bridge did, in order.
pub open spec fn run(e: Exchange, calls: Seq<HostCallView>) -> (Exchange, Seq<BridgeActionView>)
    decreases calls.len(),
{
    if calls.len() == 0 {
        (e, Seq::empty())
    } else {
        let before = run(e, calls.drop_last());
        let last = step(before.0, calls.last());
        (last.0, before.1 + last.1)
    }
}

/// How often the completion signal fires in a series of actions.
pub open spec fn signals_fired(actions: Seq<BridgeActionView>) -> nat
    decreases actions.len(),
{
    if actions.len() == 0 {
        0
    } else {
        signals_fired(actions.drop_last()) + if actions.last() is Init {
            1nat
        } else {
            0nat
        }
    }
}

/// No chunk goes to the transport once the abort callback was invoked.
pub open spec fn silent_after_abort(actions: Seq<BridgeActionView>) -> bool {
    forall|i: int, j: int|
        #![trigger actions[i], actions[j]]
        0 <= i < j < actions.len() && actions[i] is Abort ==> !(actions[j] is Send)
}

impl Exchange {
    /// Whether the exchange has ended.
    pub open spec fn is_terminal(self) -> bool {
        self.phase == ExchangePhase::Complete || self.phase == ExchangePhase::Aborted
    }

    /// Whether the host may initialize the response now.
    pub fn accepts_init(&self) -> (ok: bool)
        ensures
            ok == (self.phase == ExchangePhase::Pending),
    {
        self.phase == ExchangePhase::Pending
    }

    /// Whether a chunk offered now would go to the transport.
    pub fn accepts_send(&self) -> (ok: bool)
        ensures
            ok == (self.phase == ExchangePhase::Streaming),
    {
        self.phase == ExchangePhase::Streaming
    }

    /// Takes one host call: moves the exchange on and returns what the
    /// bridge does in answer.
    pub fn on_call(&mut self, call: HostCall) -> (actions: Vec<BridgeAction>)
        ensures
            (*final(self), action_views(actions@)) == step(*old(self), call@),
    {
        let mut actions: Vec<BridgeAction> = Vec::new();
        match call {
            HostCall::Init { response, tx, status, content_type, delivered } => {
                if self.phase == ExchangePhase::Pending && response.exchange == self.id
                    && tx.exchange == self.id {
                    actions.push(BridgeAction::Init { status, content_type });
                    if delivered {
                        self.phase = ExchangePhase::Streaming;
                    } else {
                        actions.push(BridgeAction::Abort);
                        self.phase = ExchangePhase::Aborted;
                    }
                }
            },
            HostCall::Send { sender, body, delivered } => {
                if sender.exchange == self.id {
                    if self.phase == ExchangePhase::Streaming {
                        actions.push(BridgeAction::Send { body });
                        if !delivered {
                            actions.push(BridgeAction::Abort);
                            self.phase = ExchangePhase::Aborted;
                        }
                    } else if self.phase == ExchangePhase::Aborted {
                        actions.push(BridgeAction::Abort);
                    }
                }
            },
            HostCall::Finish => {
                if self.phase == ExchangePhase::Streaming {
                    self.phase = ExchangePhase::Complete;
                }
            },
        }
        assert(action_views(actions@) =~= step(*old(self), call@).1);
        actions
    }
}

/// Prepares the call of the host's query continuation for a new exchange:
/// the exchange itself, pending, and the three handles with the five texts
/// in boundary form.
pub fn on_query(id: u64, request: QueryRequest) -> (out: (Exchange, QueryCall))
    requires
        nul_free(request.method@),
        nul_free(request.media_type@),
        nul_free(request.q@),
        nul_free(request.p@),
        nul_free(request.m@),
    ensures
        out.0 == pending(id),
        out.1.response.exchange == id,
        out.1.sender.exchange == id,
        out.1.tx.exchange == id,
        out.1.method@ == c_text(request.method@),
        out.1.media_type@ == c_text(request.media_type@),
        out.1.q@ == c_text(request.q@),
        out.1.p@ == c_text(request.p@),
        out.1.m@ == c_text(request.m@),
{
    let call = QueryCall {
        response: endb_server_http_response { exchange: id },
        sender: endb_server_http_sender { exchange: id },
        tx: endb_server_one_shot_sender { exchange: id },
        method: string_callback(request.method),
        media_type: string_callback(request.media_type),
        q: string_callback(request.q),
        p: string_callback(request.p),
        m: string_callback(request.m),
    };
    (Exchange { id, phase: ExchangePhase::Pending }, call)
}

/// Hands the process configuration, as structured text, to the success
/// continuation in boundary form.
pub fn endb_parse_command_line_to_json(config_json: Vec<u8>) -> (text: Vec<u8>)
    requires
        nul_free(config_json@),
    ensures
        text@ == c_text(config_json@),
{
    string_callback(config_json)
}

/// Serves one exchange: takes the host's calls in the order given, starting
/// from the pending exchange `id`, and returns the exchange as it ends with
/// everything the bridge did, in order.
pub fn endb_start_server(id: u64, calls: Vec<HostCall>) -> (out: (Exchange, Vec<BridgeAction>))
    ensures
        (out.0, action_views(out.1@)) == run(pending(id), call_views(calls@)),
        signals_fired(action_views(out.1@)) <= 1,
        out.0.phase != ExchangePhase::Pending <==> signals_fired(action_views(out.1@)) == 1,
        silent_after_abort(action_views(out.1@)),
{
    let ghost given = calls@;
    let ghost all = call_views(given);
    let mut exchange = Exchange { id, phase: ExchangePhase::Pending };
    let mut done: Vec<BridgeAction> = Vec::new();
    assert(action_views(done@) =~= Seq::empty());
    assert(all.take(0) =~= Seq::empty());
    for call in it: calls
        invariant
            it.seq() == given,
            all == call_views(given),
            (exchange, action_views(done@)) == run(pending(id), all.take(it.index() as int)),
    {
        let ghost before = exchange;
        let ghost before_done = action_views(done@);
        let ghost taken = all.take(it.index() as int);
        let ghost next = all.take(it.index() + 1);
        assert(call@ == all[it.index() as int]);
        let mut actions = exchange.on_call(call);
        done.append(&mut actions);
        proof {
            assert(next.drop_last() =~= taken);
            assert(next.last() == all[it.index() as int]);
            assert(action_views(done@) =~= before_done + step(before, next.last()).1);
        }
    }
    proof {
        assert(all.take(given.len() as int) =~= all);
        lemma_signal_fires_once(pending(id), all);
        lemma_silent_after_abort(pending(id), all);
    }
    (exchange, done)
}

/// Counting signals over two series of actions adds up.
proof fn lemma_signals_fired_concat(a: Seq<BridgeActionView>, b: Seq<BridgeActionView>)
    ensures
        signals_fired(a + b) == signals_fired(a) + signals_fired(b),
    decreases b.len(),
{
    if b.len() == 0 {
        assert(a + b =~= a);
    } else {
        assert((a + b).drop_last() =~= a + b.drop_last());
        assert((a + b).last() == b.last());
        lemma_signals_fired_concat(a, b.drop_last());
    }
}

/// A single step fires the signal exactly when it leaves the pending phase.
proof fn lemma_step_signal(e: Exchange, call: HostCallView)
    ensures
        signals_fired(step(e, call).1) == if e.phase == ExchangePhase::Pending && step(
            e,
            call,
        ).0.phase != ExchangePhase::Pending {
            1nat
        } else {
            0nat
        },
        e.phase != ExchangePhase::Pending ==> step(e, call).0.phase != ExchangePhase::Pending,
        step(e, call).0.id == e.id,
{
    let actions = step(e, call).1;
    reveal_with_fuel(signals_fired, 3);
    if actions.len() == 2 {
        assert(actions.drop_last().len() == 1);
        assert(actions.drop_last().drop_last().len() == 0);
    } else if actions.len() == 1 {
        assert(actions.drop_last().len() == 0);
    }
}

/// The completion signal fires exactly once per exchange: never more than
/// once over any series of host calls, and once as soon as the exchange has
/// left the pending phase, however it goes on from there.
pub proof fn lemma_signal_fires_once(e: Exchange, calls: Seq<HostCallView>)
    requires
        e.phase == ExchangePhase::Pending,
    ensures
        signals_fired(run(e, calls).1) <= 1,
        run(e, calls).0.phase != ExchangePhase::Pending <==> signals_fired(run(e, calls).1) == 1,
        run(e, calls).0.is_terminal() ==> signals_fired(run(e, calls).1) == 1,
        run(e, calls).0.id == e.id,
    decreases calls.len(),
{
    if calls.len() > 0 {
        let before = run(e, calls.drop_last());
        lemma_signal_fires_once(e, calls.drop_last());
        lemma_step_signal(before.0, calls.last());
        lemma_signals_fired_concat(before.1, step(before.0, calls.last()).1);
    }
}

/// Once aborted, an exchange stays aborted, and once the abort callback was
/// invoked the exchange is aborted.
proof fn lemma_abort_is_final(e: Exchange, calls: Seq<HostCallView>)
    requires
        e.phase == ExchangePhase::Pending,
    ensures
        (exists|i: int| 0 <= i < run(e, calls).1.len() && run(e, calls).1[i] is Abort) ==> run(
            e,
            calls,
        ).0.phase == ExchangePhase::Aborted,
    decreases calls.len(),
{
    if calls.len() > 0 {
        let before = run(e, calls.drop_last());
        let last = step(before.0, calls.last());
        let all = run(e, calls).1;
        lemma_abort_is_final(e, calls.drop_last());
        if exists|i: int| 0 <= i < all.len() && all[i] is Abort {
            let i = choose|i: int| 0 <= i < all.len() && all[i] is Abort;
            if i < before.1.len() {
                assert(before.1[i] is Abort);
            } else {
                assert(last.1[i - before.1.len()] is Abort);
            }
        }
    }
}

/// No chunk goes to the transport after an abort on the exchange, whatever
/// the host calls.
pub proof fn lemma_silent_after_abort(e: Exchange, calls: Seq<HostCallView>)
    requires
        e.phase == ExchangePhase::Pending,
    ensures
        silent_after_abort(run(e, calls).1),
    decreases calls.len(),
{
    if calls.len() > 0 {
        let before = run(e, calls.drop_last());
        let last = step(before.0, calls.last());
        let all = run(e, calls).1;
        lemma_silent_after_abort(e, calls.drop_last());
        lemma_abort_is_final(e, calls.drop_last());
        assert forall|i: int, j: int|
            #![trigger all[i], all[j]]
            0 <= i < j < all.len() && all[i] is Abort implies !(all[j] is Send) by {
            if j < before.1.len() {
                assert(before.1[i] is Abort);
                assert(!(before.1[j] is Send));
            } else if i < before.1.len() {
                assert(before.1[i] is Abort);
                assert(before.0.phase == ExchangePhase::Aborted);
                assert(last.1[j - before.1.len()] == all[j]);
            } else {
                assert(last.1[i - before.1.len()] == all[i]);
                assert(last.1[j - before.1.len()] == all[j]);
            }
        }
    }
}

} // verus!
