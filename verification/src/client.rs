//! The RPC client core: request building, response validation, the
//! dispatcher and subscriber bookkeeping of call, subscribe and unsubscribe,
//! and the receive loop's demultiplexing decision. Sending, awaiting and
//! timers are the embedder's.
use vstd::prelude::*;

use crate::dispatcher::MessageDispatcher;
use crate::rpc_message::{Notification, Request, Response};
use crate::subscriber::Subscriber;
use crate::Error;

verus! {

/// The client's shared state: its optional timeout in milliseconds, the
/// pending-request table, and the subscription streams.
pub struct Client {
    pub timeout: Option<u64>,
    pub dispatcher: MessageDispatcher,
    pub subscriber: Subscriber,
}

/// What the wait for a response ended with: the dispatched response, the
/// configured timeout, or the delivery channel closing under teardown.
pub enum WaitOutcome {
    Delivered(Response),
    TimedOut,
    ChannelClosed,
}

/// What one frame of the receive loop parsed into: a response, a
/// notification, or neither.
pub enum RpcInbound {
    Reply(Response),
    Notify(Notification),
    Malformed,
}

impl Client {
    pub open spec fn wf(&self) -> bool {
        self.dispatcher.wf() && self.subscriber.wf()
    }

    /// Builds a client with empty tables.
    pub fn new(timeout: Option<u64>, notification_buffer_size: usize) -> (r: Client)
        requires
            notification_buffer_size >= 1,
        ensures
            r.wf(),
            r.timeout == timeout,
            r.dispatcher.ids@.len() == 0,
            r.subscriber.subs@.len() == 0,
            r.subscriber.buffer_size == notification_buffer_size,
    {
        Client {
            timeout,
            dispatcher: MessageDispatcher::new(),
            subscriber: Subscriber::new(notification_buffer_size),
        }
    }

    /// Builds the request that a call sends, around a fresh id.
    pub fn make_request(&self, id: u32, method: String, params: Option<serde_json::Value>) -> (r:
        Request)
        ensures
            r.id == id,
            r.method@ == method@,
            r.params == params,
    {
        Request { id, method, params }
    }

    /// Registers a fresh pending request before its response is awaited. A
    /// colliding id is a caller's error and is surfaced.
    pub fn begin_request(&mut self, id: u32) -> (r: Result<(), Error>)
        requires
            old(self).wf(),
        ensures
            final(self).wf(),
            final(self).timeout == old(self).timeout,
            final(self).subscriber == old(self).subscriber,
            old(self).dispatcher.is_pending(id) ==> (r matches Err(Error::InvalidMsg(_)))
                && final(self).dispatcher == old(self).dispatcher,
            !old(self).dispatcher.is_pending(id) ==> (r is Ok) && final(self).dispatcher.ids@
                == old(self).dispatcher.ids@.push(id),
    {
        self.dispatcher.register(id)
    }

    /// Settles the wait for the response to `id`. However it ended — the
    /// response delivered, the timeout observed, or the connection torn down
    /// — the dispatcher holds no entry for the id afterwards: a delivered
    /// response was removed by dispatch, and the two failure paths
    /// unregister here.
    pub fn await_response(&mut self, id: u32, outcome: WaitOutcome) -> (r: Result<Response, Error>)
        requires
            old(self).wf(),
            outcome matches WaitOutcome::Delivered(_) ==> !old(self).dispatcher.is_pending(id),
        ensures
            final(self).wf(),
            final(self).timeout == old(self).timeout,
            final(self).subscriber == old(self).subscriber,
            !final(self).dispatcher.is_pending(id),
            forall|other: u32|
                other != id ==> final(self).dispatcher.is_pending(other) == old(self).dispatcher.is_pending(other),
            outcome matches WaitOutcome::Delivered(resp) ==> (r matches Ok(out) && out == resp),
            outcome is TimedOut ==> r == Err::<Response, Error>(Error::Timeout),
            outcome is ChannelClosed ==> r == Err::<Response, Error>(Error::ChannelClosed),
    {
        match outcome {
            WaitOutcome::Delivered(resp) => Ok(resp),
            WaitOutcome::TimedOut => {
                self.dispatcher.unregister(id);
                Err(Error::Timeout)
            },
            WaitOutcome::ChannelClosed => {
                self.dispatcher.unregister(id);
                Err(Error::ChannelClosed)
            },
        }
    }

    /// Validates a delivered response against the id it answers: a carried
    /// error is surfaced as a call error, and the response id must equal the
    /// request id, or the response is invalid.
    pub fn finish_request(&self, req_id: u32, response: Response) -> (r: Result<Response, Error>)
        ensures
            response.error matches Some(e) ==> (r matches Err(Error::CallError(c, m)) && c
                == e.code && m@ == e.message@),
            response.error is None && response.id != Some(req_id) ==> (r matches Err(
                Error::InvalidMsg(s),
            ) && s@ == "Invalid response id"@),
            response.error is None && response.id == Some(req_id) ==> (r matches Ok(out) && out
                == response),
    {
        let Response { id, result, error } = response;
        if let Some(e) = error {
            return Err(Error::CallError(e.code, e.message));
        }
        let matches_id = match id {
            Some(i) => i == req_id,
            None => false,
        };
        if !matches_id {
            return Err(Error::InvalidMsg("Invalid response id"));
        }
        Ok(Response { id, result, error: None })
    }

    /// Hands a call its result: the response must carry one.
    pub fn call_result(&self, response: Response) -> (r: Result<serde_json::Value, Error>)
        ensures
            response.result matches Some(v) ==> (r matches Ok(out) && out == v),
            response.result is None ==> (r matches Err(Error::InvalidMsg(s)) && s@
                == "Invalid response result"@),
    {
        match response.result {
            Some(v) => Ok(v),
            None => Err(Error::InvalidMsg("Invalid response result")),
        }
    }

    /// Finishes a subscribe call: reads the response's result as the
    /// server-issued subscription id and opens its stream. A result that is
    /// no unsigned 32-bit integer is invalid; what the read returns is the
    /// JSON value's alone.
    pub fn finish_subscribe(&mut self, response: Response) -> (r: Result<u32, Error>)
        requires
            old(self).wf(),
        ensures
            final(self).wf(),
            final(self).timeout == old(self).timeout,
            final(self).dispatcher == old(self).dispatcher,
            response.result is None ==> (r matches Err(Error::InvalidMsg(_))),
            response.result matches Some(v) ==> (match crate::rpc_message::spec_as_u64(v) {
                Some(n) => {
                    &&& (n <= 0xffff_ffff && !old(self).subscriber.has_sub(n as u32) ==> r
                        == Ok::<u32, Error>(n as u32))
                    &&& (n <= 0xffff_ffff && old(self).subscriber.has_sub(n as u32) ==> (
                    r matches Err(Error::InvalidMsg(_))))
                    &&& (n > 0xffff_ffff ==> (r matches Err(Error::InvalidMsg(_))))
                },
                None => (r matches Err(Error::InvalidMsg(_))),
            }),
            r matches Ok(sub_id) ==> !old(self).subscriber.has_sub(sub_id) && final(self).subscriber.has_sub(sub_id)
                && final(self).subscriber.subs@.len() == old(self).subscriber.subs@.len() + 1
                && final(self).subscriber.subs@.last()@ == (crate::subscriber::SubView {
                id: sub_id,
                capacity: old(self).subscriber.buffer_size as nat,
                queue: Seq::empty(),
            }) && (forall|j: int|
                0 <= j < old(self).subscriber.subs@.len() ==> final(self).subscriber.subs@[j]
                    == old(self).subscriber.subs@[j]),
            r is Err ==> final(self).subscriber == old(self).subscriber,
    {
        let result = match response.result {
            Some(v) => v,
            None => {
                return Err(Error::InvalidMsg("Invalid subscription id"));
            },
        };
        let sub_id_u64 = match result.as_u64() {
            Some(n) => n,
            None => {
                return Err(Error::InvalidMsg("Invalid subscription id"));
            },
        };
        if sub_id_u64 > 0xffff_ffffu64 {
            return Err(Error::InvalidMsg("Invalid subscription id"));
        }
        let sub_id = sub_id_u64 as u32;
        match self.subscriber.subscribe(sub_id) {
            Ok(_) => {
                assert(self.subscriber.has_sub(sub_id)) by {
                    assert(self.subscriber.subs@.last()@.id == sub_id);
                    assert(self.subscriber.subs@[self.subscriber.subs@.len() - 1]@.id == sub_id);
                };
                Ok(sub_id)
            },
            Err(e) => Err(e),
        }
    }

    /// Finishes an unsubscribe call: closes the stream of `sub_id`.
    pub fn finish_unsubscribe(&mut self, sub_id: u32)
        requires
            old(self).wf(),
        ensures
            final(self).wf(),
            final(self).timeout == old(self).timeout,
            final(self).dispatcher == old(self).dispatcher,
            !final(self).subscriber.has_sub(sub_id),
            forall|other: u32|
                other != sub_id ==> final(self).subscriber.has_sub(other) == old(self).subscriber.has_sub(other),
    {
        self.subscriber.unsubscribe(sub_id);
    }

    /// Demultiplexes one received frame: a response goes to its pending
    /// call's channel, a notification to its subscription stream, and
    /// anything else is refused. An unknown response id or subscription id
    /// is refused without any change.
    pub fn handle_msg(&mut self, msg: RpcInbound) -> (r: Result<(), Error>)
        requires
            old(self).wf(),
        ensures
            final(self).wf(),
            final(self).timeout == old(self).timeout,
            msg matches RpcInbound::Reply(resp) ==> final(self).subscriber == old(self).subscriber
                && (match resp.id {
                Some(i) => {
                    &&& (old(self).dispatcher.is_pending(i) ==> (r is Ok) && !final(self).dispatcher.is_pending(i))
                    &&& (!old(self).dispatcher.is_pending(i) ==> (r matches Err(
                        Error::InvalidMsg(s),
                    ) && s@ == "Unknown response id"@) && final(self).dispatcher == old(
                        self,
                    ).dispatcher)
                    &&& (forall|other: u32|
                        other != i ==> final(self).dispatcher.is_pending(other) == old(self).dispatcher.is_pending(other))
                },
                None => (r matches Err(Error::InvalidMsg(_))) && final(self).dispatcher == old(self).dispatcher,
            }),
            msg matches RpcInbound::Notify(n) ==> final(self).dispatcher == old(self).dispatcher
                && (old(self).subscriber.has_sub(n.subscription) ==> (r is Ok) && exists|i: int|
                    0 <= i < old(self).subscriber.subs@.len()
                        && (#[trigger] old(self).subscriber.subs@[i]@).id == n.subscription
                        && final(self).subscriber.subs@.len() == old(self).subscriber.subs@.len()
                        && final(self).subscriber.subs@[i]@.queue == crate::subscriber::spec_pushed(
                        old(self).subscriber.subs@[i]@.queue,
                        old(self).subscriber.subs@[i]@.capacity,
                        n.result,
                    )) && (!old(self).subscriber.has_sub(n.subscription) ==> (r matches Err(
                    Error::InvalidMsg(s),
                ) && s@ == "Unknown subscription id"@) && final(self).subscriber == old(
                    self,
                ).subscriber),
            msg is Malformed ==> (r matches Err(Error::InvalidMsg(s)) && s@ == "Unexpected msg"@)
                && *final(self) == *old(self),
    {
        match msg {
            RpcInbound::Reply(resp) => {
                match resp.id {
                    Some(i) => self.dispatcher.dispatch(i),
                    None => Err(Error::InvalidMsg("Unknown response id")),
                }
            },
            RpcInbound::Notify(n) => self.subscriber.notify(n.subscription, n.result),
            RpcInbound::Malformed => Err(Error::InvalidMsg("Unexpected msg")),
        }
    }

    /// The receive loop ended, by error or cancellation: every subscription
    /// stream closes, and every pending call is dropped, so a later call
    /// fails cleanly rather than leaking an entry.
    pub fn on_receive_loop_exit(&mut self)
        requires
            old(self).wf(),
        ensures
            final(self).wf(),
            final(self).timeout == old(self).timeout,
            final(self).subscriber.subs@.len() == 0,
            final(self).dispatcher.ids@.len() == 0,
            forall|id: u32| !final(self).dispatcher.is_pending(id),
            forall|id: u32| !final(self).subscriber.has_sub(id),
    {
        self.subscriber.drop_all();
        self.dispatcher.clear();
    }
}

/// Draws the fresh random id of one request.
/// Relies on rand's random: a uniformly drawn 32-bit integer; nothing can be
/// promised of random output.
#[verifier::external_body]
pub fn random_request_id() -> u32 {
    rand::random::<u32>()
}

} // verus!
