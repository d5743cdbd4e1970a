//! The filesystem watch loop and its shutdown protocol.
//!
//! A watch task's background loop blocks on a channel and handles one
//! message at a time; a blocking receive cannot be cancelled directly,
//! so killing a task enqueues one synthetic wake-up message to unblock
//! it. The loop's running flag is cleared when that wake-up is received,
//! and the channel is ordered, so messages queued ahead of the wake-up
//! are drained, in order, before the loop exits: shutdown is not
//! instantaneous, it is drain-then-stop. The decision for each received
//! message lives here; the caller owns the channel, performs the
//! returned action, and joins the task after the wake-up is sent.

use vstd::prelude::*;

verus! {

/// One message observed by the watch loop's receiver.
#[derive(Debug, PartialEq, Eq)]
pub enum WatchMessage {
    /// A real filesystem change event, rendered as text.
    Change(String),
    /// An error delivered over the event channel.
    TransportError(String),
    /// The synthetic wake-up enqueued by the shutdown protocol after the
    /// running flag has been cleared; its payload is never inspected.
    Shutdown,
}

/// What the loop does with one received message.
#[derive(Debug, PartialEq, Eq, Clone, Copy)]
pub enum WatchAction {
    /// Hand the change event to the notification hook.
    Forward,
    /// Absorb the message (channel errors are swallowed).
    Ignore,
    /// Leave the loop; no further message is received.
    Stop,
}

/// The action taken for one message under the given running flag.
pub open spec fn step_action(running: bool, msg: WatchMessage) -> WatchAction {
    if !running {
        WatchAction::Stop
    } else {
        match msg {
            WatchMessage::Change(_) => WatchAction::Forward,
            WatchMessage::TransportError(_) => WatchAction::Ignore,
            WatchMessage::Shutdown => WatchAction::Stop,
        }
    }
}

/// The running flag after one message: cleared by the shutdown wake-up,
/// never set again once cleared.
pub open spec fn step_running(running: bool, msg: WatchMessage) -> bool {
    running && !(msg matches WatchMessage::Shutdown)
}

/// The processing state of one watch task's background loop.
pub struct WatchLoop {
    running: bool,
}

impl WatchLoop {
    /// Whether the loop has not yet observed a stop request.
    pub closed spec fn is_running(&self) -> bool {
        self.running
    }

    /// A freshly started loop is running.
    pub fn new() -> (r: WatchLoop)
        ensures
            r.is_running(),
    {
        WatchLoop { running: true }
    }

    /// Decides what to do with one received message, before acting on it.
    pub fn step(&mut self, msg: &WatchMessage) -> (a: WatchAction)
        ensures
            a == step_action(old(self).is_running(), *msg),
            final(self).is_running() == step_running(old(self).is_running(), *msg),
    {
        if !self.running {
            return WatchAction::Stop;
        }
        match msg {
            WatchMessage::Change(_) => WatchAction::Forward,
            WatchMessage::TransportError(_) => WatchAction::Ignore,
            WatchMessage::Shutdown => {
                self.running = false;
                WatchAction::Stop
            },
        }
    }
}

/// What a freshly started loop does with a queue of messages: the change
/// events it forwards, in order, and whether it observed a stop request.
pub open spec fn drain_result(msgs: Seq<WatchMessage>) -> (Seq<WatchMessage>, bool)
    decreases msgs.len(),
{
    if msgs.len() == 0 {
        (Seq::<WatchMessage>::empty(), false)
    } else {
        match msgs[0] {
            WatchMessage::Shutdown => (Seq::<WatchMessage>::empty(), true),
            WatchMessage::Change(_) => {
                let rest = drain_result(msgs.skip(1));
                (seq![msgs[0]] + rest.0, rest.1)
            },
            WatchMessage::TransportError(_) => drain_result(msgs.skip(1)),
        }
    }
}

/// Runs a fresh loop over a finite queue of messages, forwarding change
/// events until the queue is empty or a stop request is observed.
///
/// The loop terminates for every finite queue, so a kill that enqueues
/// the shutdown wake-up is always answered.
pub fn drain(msgs: Vec<WatchMessage>) -> (r: (Vec<WatchMessage>, bool))
    ensures
        r.0@ == drain_result(msgs@).0,
        r.1 == drain_result(msgs@).1,
{
    let ghost all: Seq<WatchMessage> = msgs@;
    let mut state = WatchLoop::new();
    let mut forwarded: Vec<WatchMessage> = Vec::new();
    let mut remaining = msgs;
    let mut stopped = false;
    while remaining.len() > 0
        invariant_except_break
            state.is_running(),
            !stopped,
            drain_result(all).0 == forwarded@ + drain_result(remaining@).0,
            drain_result(all).1 == drain_result(remaining@).1,
        ensures
            forwarded@ == drain_result(all).0,
            stopped == drain_result(all).1,
        decreases remaining.len(),
    {
        let ghost before: Seq<WatchMessage> = remaining@;
        let msg = remaining.remove(0);
        proof {
            assert(before.remove(0) =~= before.skip(1));
        }
        let action = state.step(&msg);
        match action {
            WatchAction::Forward => {
                forwarded.push(msg);
                proof {
                    assert(drain_result(all).0 =~= forwarded@ + drain_result(remaining@).0);
                }
            },
            WatchAction::Ignore => {},
            WatchAction::Stop => {
                stopped = true;
                proof {
                    assert(drain_result(all).0 =~= forwarded@);
                }
                break ;
            },
        }
    }
    (forwarded, stopped)
}

/// A queued stop request is always answered: the loop stops exactly when
/// a shutdown wake-up is somewhere in the queue.
pub proof fn lemma_stop_iff_shutdown(msgs: Seq<WatchMessage>)
    ensures
        drain_result(msgs).1 <==> msgs.contains(WatchMessage::Shutdown),
    decreases msgs.len(),
{
    if msgs.len() == 0 {
    } else {
        match msgs[0] {
            WatchMessage::Shutdown => {
                assert(msgs.contains(WatchMessage::Shutdown));
            },
            _ => {
                lemma_stop_iff_shutdown(msgs.skip(1));
                if msgs.skip(1).contains(WatchMessage::Shutdown) {
                    let i = choose|i: int|
                        0 <= i < msgs.skip(1).len() && msgs.skip(1)[i] == WatchMessage::Shutdown;
                    assert(msgs[i + 1] == WatchMessage::Shutdown);
                    assert(msgs.contains(WatchMessage::Shutdown));
                }
                if msgs.contains(WatchMessage::Shutdown) {
                    let i = choose|i: int|
                        0 <= i < msgs.len() && msgs[i] == WatchMessage::Shutdown;
                    assert(i != 0);
                    assert(msgs.skip(1)[i - 1] == WatchMessage::Shutdown);
                    assert(msgs.skip(1).contains(WatchMessage::Shutdown));
                }
            },
        }
    }
}

/// Drain-before-stop: with change events queued ahead of the shutdown
/// wake-up, the loop forwards all of them, in order, before it stops —
/// whatever else sits behind the wake-up in the queue.
pub proof fn lemma_drain_before_stop(events: Seq<String>, tail: Seq<WatchMessage>)
    ensures
        ({
            let queued = events.map_values(|e: String| WatchMessage::Change(e));
            let msgs = queued + seq![WatchMessage::Shutdown] + tail;
            drain_result(msgs).0 == queued && drain_result(msgs).1
        }),
    decreases events.len(),
{
    let queued = events.map_values(|e: String| WatchMessage::Change(e));
    let msgs = queued + seq![WatchMessage::Shutdown] + tail;
    if events.len() == 0 {
        assert(msgs[0] == WatchMessage::Shutdown);
        assert(drain_result(msgs).0 =~= queued);
    } else {
        lemma_drain_before_stop(events.skip(1), tail);
        let queued1 = events.skip(1).map_values(|e: String| WatchMessage::Change(e));
        let msgs1 = queued1 + seq![WatchMessage::Shutdown] + tail;
        assert(msgs[0] == queued[0]);
        assert(queued[0] == WatchMessage::Change(events[0]));
        assert forall|i: int| 0 <= i < msgs.skip(1).len() implies msgs.skip(1)[i] == msgs1[i] by {
            if i < queued1.len() {
                assert(msgs1[i] == WatchMessage::Change(events.skip(1)[i]));
                assert(msgs.skip(1)[i] == queued[i + 1]);
                assert(queued[i + 1] == WatchMessage::Change(events[i + 1]));
            }
        };
        assert(msgs.skip(1) =~= msgs1);
        assert(drain_result(msgs).0 == seq![msgs[0]] + drain_result(msgs1).0);
        assert forall|i: int| 0 <= i < queued.len() implies (seq![msgs[0]] + queued1)[i]
            == queued[i] by {
            if i > 0 {
                assert(queued1[i - 1] == WatchMessage::Change(events.skip(1)[i - 1]));
                assert(queued[i] == WatchMessage::Change(events[i]));
            }
        };
        assert(drain_result(msgs).0 =~= queued);
    }
}

} // verus!
