//! The CST event bridge: a structural parse comes as a flat list of events,
//! which is replayed to the host call by call.
//!
//! A flat, ordered list can be turned into any tree on the host's side, so
//! the bridge never needs to know the shape of that tree. What it must keep
//! is the order of the events and their nesting.
use vstd::prelude::*;

verus! {

/// One step of a structural parse.
#[derive(Debug, PartialEq, Eq)]
pub enum Event {
    /// A node opens.
    Open { label: Vec<u8> },
    /// The node opened last closes.
    Close,
    /// A literal token, with the range of the source that it covers.
    Literal { literal: Vec<u8>, start: usize, end: usize },
    /// A pattern matched the range of the source.
    Pattern { start: usize, end: usize },
    /// The parser noted what it could not match.
    Error { description: Vec<u8> },
}

/// One call of a continuation of the host during a replay.
#[derive(Debug, PartialEq, Eq)]
pub enum CstCall {
    Open { label: Vec<u8> },
    Close,
    Literal { literal: Vec<u8>, start: usize, end: usize },
    Pattern { start: usize, end: usize },
}

/// What the bridge does with the first pass of a structural parse.
#[derive(Debug, PartialEq, Eq)]
pub enum CstOutcome {
    /// The pass accepted the text: these calls go to the host, in order.
    Replay(Vec<CstCall>),
    /// The pass rejected the text: it is parsed again with error tracking,
    /// and the rendered diagnostic goes to the error continuation.
    Diagnose,
}

/// An event as a mathematical value.
pub enum EventView {
    Open { label: Seq<u8> },
    Close,
    Literal { literal: Seq<u8>, start: usize, end: usize },
    Pattern { start: usize, end: usize },
    Error { description: Seq<u8> },
}

/// A call as a mathematical value.
pub enum CstCallView {
    Open { label: Seq<u8> },
    Close,
    Literal { literal: Seq<u8>, start: usize, end: usize },
    Pattern { start: usize, end: usize },
}

impl View for Event {
    type V = EventView;

    open spec fn view(&self) -> EventView {
        match *self {
            Event::Open { label } => EventView::Open { label: label@ },
            Event::Close => EventView::Close,
            Event::Literal { literal, start, end } => EventView::Literal {
                literal: literal@,
                start,
                end,
            },
            Event::Pattern { start, end } => EventView::Pattern { start, end },
            Event::Error { description } => EventView::Error { description: description@ },
        }
    }
}

impl View for CstCall {
    type V = CstCallView;

    open spec fn view(&self) -> CstCallView {
        match *self {
            CstCall::Open { label } => CstCallView::Open { label: label@ },
            CstCall::Close => CstCallView::Close,
            CstCall::Literal { literal, start, end } => CstCallView::Literal {
                literal: literal@,
                start,
                end,
            },
            CstCall::Pattern { start, end } => CstCallView::Pattern { start, end },
        }
    }
}

/// The views of a list of events.
pub open spec fn event_views(events: Seq<Event>) -> Seq<EventView> {
    events.map_values(|e: Event| e@)
}

/// The views of a list of calls.
pub open spec fn call_views(calls: Seq<CstCall>) -> Seq<CstCallView> {
    calls.map_values(|c: CstCall| c@)
}

/// The call that replays an event. An error event is not replayed.
pub open spec fn call_for(e: EventView) -> Option<CstCallView> {
    match e {
        EventView::Open { label } => Some(CstCallView::Open { label }),
        EventView::Close => Some(CstCallView::Close),
        EventView::Literal { literal, start, end } => Some(
            CstCallView::Literal { literal, start, end },
        ),
        EventView::Pattern { start, end } => Some(CstCallView::Pattern { start, end }),
        EventView::Error { description } => None,
    }
}

/// The replay of a list of events: the call for each event in the order of
/// the events, error events left out.
pub open spec fn replayed(events: Seq<EventView>) -> Seq<CstCallView>
    decreases events.len(),
{
    if events.len() == 0 {
        Seq::empty()
    } else {
        let before = replayed(events.drop_last());
        match call_for(events.last()) {
            Some(call) => before.push(call),
            None => before,
        }
    }
}

/// By how much an event changes the nesting depth.
pub open spec fn event_delta(e: EventView) -> int {
    match e {
        EventView::Open { .. } => 1,
        EventView::Close => -1,
        _ => 0,
    }
}

/// By how much a call changes the nesting depth.
pub open spec fn call_delta(c: CstCallView) -> int {
    match c {
        CstCallView::Open { .. } => 1,
        CstCallView::Close => -1,
        _ => 0,
    }
}

/// The nesting depth after a list of events: nodes opened less nodes closed.
pub open spec fn depth(events: Seq<EventView>) -> int
    decreases events.len(),
{
    if events.len() == 0 {
        0
    } else {
        depth(events.drop_last()) + event_delta(events.last())
    }
}

/// The nesting depth after a list of calls.
pub open spec fn call_depth(calls: Seq<CstCallView>) -> int
    decreases calls.len(),
{
    if calls.len() == 0 {
        0
    } else {
        call_depth(calls.drop_last()) + call_delta(calls.last())
    }
}

/// The events are balanced and properly nested: the depth never falls below
/// zero and is zero at the end.
pub open spec fn balanced(events: Seq<EventView>) -> bool {
    &&& forall|k: int| 0 <= k <= events.len() ==> depth(#[trigger] events.take(k)) >= 0
    &&& depth(events) == 0
}

/// The calls are balanced and properly nested.
pub open spec fn calls_balanced(calls: Seq<CstCallView>) -> bool {
    &&& forall|k: int| 0 <= k <= calls.len() ==> call_depth(#[trigger] calls.take(k)) >= 0
    &&& call_depth(calls) == 0
}

/// The depth after the first `k + 1` events, from the depth after `k`.
proof fn lemma_depth_take_succ(events: Seq<EventView>, k: int)
    requires
        0 <= k < events.len(),
    ensures
        depth(events.take(k + 1)) == depth(events.take(k)) + event_delta(events[k]),
{
    assert(events.take(k + 1).drop_last() =~= events.take(k));
}

/// The depth never exceeds the number of events.
proof fn lemma_depth_bound(events: Seq<EventView>)
    ensures
        -events.len() <= depth(events) <= events.len(),
    decreases events.len(),
{
    if events.len() > 0 {
        lemma_depth_bound(events.drop_last());
    }
}

/// Whether the events are balanced and properly nested.
pub fn is_balanced(events: &Vec<Event>) -> (ok: bool)
    ensures
        ok == balanced(event_views(events@)),
{
    let ghost all = event_views(events@);
    let mut open: usize = 0;
    let mut i: usize = 0;
    assert(all.take(0) =~= Seq::empty());
    while i < events.len()
        invariant
            i <= events.len(),
            all == event_views(events@),
            open == depth(all.take(i as int)),
            forall|k: int| 0 <= k <= i ==> depth(#[trigger] all.take(k)) >= 0,
        decreases events.len() - i,
    {
        proof {
            lemma_depth_take_succ(all, i as int);
            lemma_depth_bound(all.take(i as int));
        }
        match &events[i] {
            Event::Open { .. } => {
                open += 1;
            },
            Event::Close => {
                if open == 0 {
                    assert(depth(all.take(i + 1)) < 0);
                    return false;
                }
                open -= 1;
            },
            _ => {},
        }
        i += 1;
    }
    assert(all.take(events.len() as int) =~= all);
    open == 0
}

/// Replays the events: the call for each, in order, error events left out.
pub fn replay(events: Vec<Event>) -> (calls: Vec<CstCall>)
    ensures
        call_views(calls@) == replayed(event_views(events@)),
{
    let ghost given = events@;
    let ghost all = event_views(given);
    let mut calls: Vec<CstCall> = Vec::new();
    assert(call_views(calls@) =~= Seq::empty());
    assert(all.take(0) =~= Seq::empty());
    for event in it: events
        invariant
            it.seq() == given,
            all == event_views(given),
            call_views(calls@) == replayed(all.take(it.index() as int)),
    {
        let ghost before = call_views(calls@);
        let ghost next = all.take(it.index() + 1);
        assert(next.drop_last() =~= all.take(it.index() as int));
        assert(next.last() == event@);
        match event {
            Event::Open { label } => {
                calls.push(CstCall::Open { label });
            },
            Event::Close => {
                calls.push(CstCall::Close);
            },
            Event::Literal { literal, start, end } => {
                calls.push(CstCall::Literal { literal, start, end });
            },
            Event::Pattern { start, end } => {
                calls.push(CstCall::Pattern { start, end });
            },
            Event::Error { .. } => {},
        }
        assert(call_views(calls@) =~= replayed(next));
    }
    assert(all.take(given.len() as int) =~= all);
    calls
}

/// Decides what follows the first pass of a structural parse. Where the
/// pass accepted the text, its events are replayed; where it rejected the
/// text, its events are dropped and a diagnostic is due.
pub fn endb_parse_sql_cst(accepted: bool, events: Vec<Event>) -> (out: CstOutcome)
    ensures
        accepted ==> (out matches CstOutcome::Replay(calls) && call_views(calls@) == replayed(
            event_views(events@),
        )),
        !accepted ==> out is Diagnose,
{
    if accepted {
        CstOutcome::Replay(replay(events))
    } else {
        CstOutcome::Diagnose
    }
}

/// The close of the node opened at `i`, looked for from `k` on, where the
/// depth has stayed above the depth before `i` up to `k`.
proof fn lemma_find_close(events: Seq<EventView>, i: int, k: int) -> (j: int)
    requires
        balanced(events),
        0 <= i < k <= events.len(),
        forall|m: int| i < m <= k ==> depth(#[trigger] events.take(m)) > depth(events.take(i)),
    ensures
        k <= j < events.len(),
        events[j] is Close,
        depth(events.take(j + 1)) == depth(events.take(i)),
        forall|m: int| i < m <= j ==> depth(#[trigger] events.take(m)) > depth(events.take(i)),
    decreases events.len() - k,
{
    let before = depth(events.take(i));
    assert(before >= 0);
    if k == events.len() {
        assert(events.take(k) =~= events);
        k
    } else {
        lemma_depth_take_succ(events, k);
        if depth(events.take(k + 1)) == before {
            k
        } else {
            lemma_find_close(events, i, k + 1)
        }
    }
}

/// In balanced events every node that opens closes later, at the depth at
/// which it opened, and everything in between lies deeper.
pub proof fn lemma_open_has_matching_close(events: Seq<EventView>, i: int) -> (j: int)
    requires
        balanced(events),
        0 <= i < events.len(),
        events[i] is Open,
    ensures
        i < j < events.len(),
        events[j] is Close,
        depth(events.take(j + 1)) == depth(events.take(i)),
        forall|m: int| i < m <= j ==> depth(#[trigger] events.take(m)) > depth(events.take(i)),
{
    lemma_depth_take_succ(events, i);
    lemma_find_close(events, i, i + 1)
}

/// A replay leaves the nesting depth as it is.
pub proof fn lemma_replay_keeps_depth(events: Seq<EventView>)
    ensures
        call_depth(replayed(events)) == depth(events),
    decreases events.len(),
{
    if events.len() > 0 {
        lemma_replay_keeps_depth(events.drop_last());
        let before = replayed(events.drop_last());
        match call_for(events.last()) {
            Some(call) => {
                assert(before.push(call).drop_last() =~= before);
            },
            None => {},
        }
    }
}

/// Every beginning of a replay is the replay of a beginning of the events.
pub proof fn lemma_replay_prefix(events: Seq<EventView>, k: int) -> (j: int)
    requires
        0 <= k <= replayed(events).len(),
    ensures
        0 <= j <= events.len(),
        replayed(events.take(j)) == replayed(events).take(k),
    decreases events.len(),
{
    if k == replayed(events).len() {
        assert(events.take(events.len() as int) =~= events);
        assert(replayed(events).take(k) =~= replayed(events));
        events.len() as int
    } else {
        let before = replayed(events.drop_last());
        assert(replayed(events).take(k) =~= before.take(k));
        let j = lemma_replay_prefix(events.drop_last(), k);
        assert(events.drop_last().take(j) =~= events.take(j));
        j
    }
}

/// A replay keeps the calls in the order of the events: of two calls, the
/// earlier one answers the earlier event.
pub proof fn lemma_replay_keeps_order(events: Seq<EventView>, k: int) -> (j: int)
    requires
        0 <= k < replayed(events).len(),
    ensures
        0 <= j < events.len(),
        call_for(events[j]) == Some(replayed(events)[k]),
        replayed(events.take(j)) == replayed(events).take(k),
    decreases events.len(),
{
    let before = replayed(events.drop_last());
    if k < before.len() {
        let j = lemma_replay_keeps_order(events.drop_last(), k);
        assert(events.drop_last().take(j) =~= events.take(j));
        assert(replayed(events).take(k) =~= before.take(k));
        j
    } else {
        let j = events.len() - 1;
        assert(events.take(j) =~= events.drop_last());
        assert(replayed(events).take(k) =~= before);
        j
    }
}

/// Balanced events replay as balanced calls: the depth of the calls never
/// falls below zero and is zero at the end.
pub proof fn lemma_replay_balanced(events: Seq<EventView>)
    requires
        balanced(events),
    ensures
        calls_balanced(replayed(events)),
{
    let calls = replayed(events);
    lemma_replay_keeps_depth(events);
    assert forall|k: int| 0 <= k <= calls.len() implies call_depth(#[trigger] calls.take(k))
        >= 0 by {
        let j = lemma_replay_prefix(events, k);
        lemma_replay_keeps_depth(events.take(j));
    }
}

} // verus!
