//! The two transport backends' decision cores.
//!
//! Both backends expose one capability surface: enqueue a message for
//! asynchronous delivery, register a callback per message kind, and — on
//! the persistent socket backend only — observe reconnect notifications.
//! The I/O itself (socket writes, stream frames, task scheduling) happens
//! outside; these cores hold the queues, the registry and the rules: what
//! a send may do, what a transmit result does to the queue, and how an
//! inbound message is dispatched.

use vstd::prelude::*;

verus! {

use crate::errors::CapacityError;
use crate::json::json_parse;
use crate::json::spec_json_parse;
use crate::messages::MessageBase;
use crate::messages::decode_envelope;
use crate::messages::spec_envelope_kind;
use crate::messages::lemma_envelope_kind_model;
use crate::registry::CallbackRegistry;
use crate::registry::Handler;

/// How many messages the stream backend's outbound queue holds before it
/// rejects a send.
pub const STREAM_QUEUE_CAPACITY: usize = 1000;

/// Outcome of handling one inbound message.
#[derive(Clone, Copy, Debug, PartialEq, Eq, Structural)]
pub enum DispatchOutcome {
    /// The envelope decoded and a handler took the message.
    Dispatched,
    /// The envelope decoded but no handler is registered for its kind;
    /// the message is dropped with a warning, not an error.
    NoHandler,
    /// The bytes did not decode to an envelope; the message is dropped
    /// and the read loop continues.
    DecodeFailed,
}

/// What handling one inbound message must come to, judged from the
/// bytes alone: undecodable bytes are dropped, a decoded envelope is
/// dispatched exactly when a handler is registered for its kind.
pub open spec fn spec_reader_outcome<H>(data: Seq<u8>, callbacks: Map<Seq<char>, H>) -> DispatchOutcome {
    match spec_json_parse(data) {
        Err(_) => DispatchOutcome::DecodeFailed,
        Ok(j) => match spec_envelope_kind(j) {
            Err(_) => DispatchOutcome::DecodeFailed,
            Ok(kind) => if callbacks.contains_key(kind) {
                DispatchOutcome::Dispatched
            } else {
                DispatchOutcome::NoHandler
            },
        },
    }
}

/// A first-in-first-out queue of encoded messages with a fixed capacity
/// bound: a full queue rejects the newest send instead of blocking.
pub struct BoundedQueue {
    items: Vec<Vec<u8>>,
    capacity: usize,
}

impl View for BoundedQueue {
    type V = Seq<Seq<u8>>;

    closed spec fn view(&self) -> Seq<Seq<u8>> {
        self.items@.map_values(|b: Vec<u8>| b@)
    }
}

impl BoundedQueue {
    /// The bound the queue was created with.
    pub closed spec fn cap(self) -> nat {
        self.capacity as nat
    }

    /// An empty queue bounded at `capacity`.
    pub fn new(capacity: usize) -> (r: Self)
        ensures
            r@ == Seq::<Seq<u8>>::empty(),
            r.cap() == capacity,
    {
        let r = BoundedQueue { items: Vec::new(), capacity };
        proof {
            assert(r@ =~= Seq::<Seq<u8>>::empty());
        }
        r
    }

    /// Accept `message` at the back, or reject it exactly when the queue
    /// is at capacity, leaving the queue as it was.
    pub fn try_send(&mut self, message: Vec<u8>) -> (r: Result<(), CapacityError>)
        ensures
            final(self).cap() == old(self).cap(),
            old(self)@.len() < old(self).cap() ==> r is Ok && final(self)@ == old(self)@.push(
                message@,
            ),
            old(self)@.len() >= old(self).cap() ==> r == Err::<(), CapacityError>(CapacityError)
                && final(self)@ == old(self)@,
    {
        if self.items.len() >= self.capacity {
            return Err(CapacityError);
        }
        let ghost pre = self@;
        self.items.push(message);
        proof {
            assert(self@ =~= pre.push(self.items@.last()@));
        }
        Ok(())
    }

    /// Remove and return the oldest message, if any.
    pub fn pop(&mut self) -> (r: Option<Vec<u8>>)
        ensures
            final(self).cap() == old(self).cap(),
            old(self)@.len() == 0 ==> r is None && final(self)@ == old(self)@,
            old(self)@.len() > 0 ==> (r matches Some(m) && m@ == old(self)@[0] && final(self)@
                == old(self)@.drop_first()),
    {
        if self.items.len() == 0 {
            return None;
        }
        let ghost pre = self@;
        let m = self.items.remove(0);
        proof {
            assert(self@ =~= pre.drop_first());
        }
        Some(m)
    }

    /// How many messages wait in the queue.
    pub fn len(&self) -> (r: usize)
        ensures
            r == self@.len(),
    {
        self.items.len()
    }
}

/// Backend A — the reconnecting duplex socket's core.  The outbound
/// queue is unbounded: signaling volume is low, and never dropping a
/// message is preferred over bounding memory.  The writer task peeks the
/// front message, transmits, and only a confirmed transmit removes it,
/// so a failed transmit is retried after reconnection and order is kept.
pub struct SocketTransportCore<H> {
    registry: CallbackRegistry<H>,
    outbound: Vec<Vec<u8>>,
    reconnect_count: u64,
}

impl<H> SocketTransportCore<H> {
    /// The queued messages, oldest first.
    pub closed spec fn queue(self) -> Seq<Seq<u8>> {
        self.outbound@.map_values(|b: Vec<u8>| b@)
    }

    /// The registered handlers.
    pub closed spec fn callbacks(self) -> Map<Seq<char>, H> {
        self.registry@
    }

    /// How many reconnect notifications have fired; the very first
    /// connect is not one.
    pub closed spec fn reconnects(self) -> u64 {
        self.reconnect_count
    }

    /// A fresh core: nothing queued, nothing registered, no reconnect
    /// seen.
    pub fn new() -> (r: Self)
        ensures
            r.queue() == Seq::<Seq<u8>>::empty(),
            r.callbacks() == Map::<Seq<char>, H>::empty(),
            r.reconnects() == 0,
    {
        let r = SocketTransportCore {
            registry: CallbackRegistry::new(),
            outbound: Vec::new(),
            reconnect_count: 0,
        };
        proof {
            assert(r.queue() =~= Seq::<Seq<u8>>::empty());
        }
        r
    }

    /// Enqueue an encoded message.  The queue is unbounded, so a send
    /// never fails and never blocks on the network.
    pub fn send_message(&mut self, message: Vec<u8>)
        ensures
            final(self).queue() == old(self).queue().push(message@),
            final(self).callbacks() == old(self).callbacks(),
            final(self).reconnects() == old(self).reconnects(),
    {
        let ghost pre = self.queue();
        self.outbound.push(message);
        proof {
            assert(self.queue() =~= pre.push(self.outbound@.last()@));
        }
    }

    /// Bind `handler` to a message kind, replacing any previous one.
    pub fn register_callback(&mut self, payload_type: String, handler: H)
        ensures
            final(self).callbacks() == old(self).callbacks().insert(payload_type@, handler),
            final(self).queue() == old(self).queue(),
            final(self).reconnects() == old(self).reconnects(),
    {
        self.registry.register(payload_type, handler);
    }

    /// The message the writer task must transmit next, oldest first.
    pub fn next_outbound(&self) -> (r: Option<&Vec<u8>>)
        ensures
            self.queue().len() == 0 ==> r is None,
            self.queue().len() > 0 ==> (r matches Some(m) && m@ == self.queue()[0]),
    {
        if self.outbound.len() == 0 {
            None
        } else {
            Some(&self.outbound[0])
        }
    }

    /// A transmit was confirmed: the front message leaves the queue;
    /// everything behind it keeps its order.
    pub fn on_transmit_ok(&mut self)
        requires
            old(self).queue().len() > 0,
        ensures
            final(self).queue() == old(self).queue().drop_first(),
            final(self).callbacks() == old(self).callbacks(),
            final(self).reconnects() == old(self).reconnects(),
    {
        let ghost pre = self.queue();
        let _ = self.outbound.remove(0);
        proof {
            assert(self.queue() =~= pre.drop_first());
        }
    }

    /// A transmit failed: the message stays at the front, to be retried
    /// as-is once the link is restored — at-least-once delivery, with no
    /// reordering across a reconnect.
    pub fn on_transmit_failed(&mut self)
        ensures
            final(self).queue() == old(self).queue(),
            final(self).callbacks() == old(self).callbacks(),
            final(self).reconnects() == old(self).reconnects(),
    {
    }

    /// A reconnect succeeded: the notification fires exactly once.
    pub fn on_reconnected(&mut self)
        requires
            old(self).reconnects() < u64::MAX,
        ensures
            final(self).reconnects() == old(self).reconnects() + 1,
            final(self).queue() == old(self).queue(),
            final(self).callbacks() == old(self).callbacks(),
    {
        self.reconnect_count = self.reconnect_count + 1;
    }
}

impl<H: Handler> SocketTransportCore<H> {
    /// Dispatch a message whose envelope is already decoded: the handler
    /// registered for its kind gets the raw bytes, and a missing handler
    /// only drops the message.
    pub fn dispatch_envelope(&self, envelope: &MessageBase, data: Vec<u8>) -> (r: DispatchOutcome)
        ensures
            r == DispatchOutcome::Dispatched <==> self.callbacks().contains_key(
                envelope.payload_type@,
            ),
            r == DispatchOutcome::Dispatched || r == DispatchOutcome::NoHandler,
    {
        if self.registry.dispatch(envelope.payload_type.as_str(), data) {
            DispatchOutcome::Dispatched
        } else {
            DispatchOutcome::NoHandler
        }
    }

    /// The reader task's step: decode the envelope of one inbound
    /// message and dispatch on its discriminant.  The outcome is fixed
    /// by the bytes and the registered handlers: undecodable bytes are
    /// dropped and the loop goes on, a decoded envelope reaches the
    /// handler for its kind exactly when one is registered.
    pub fn handle_incoming(&self, data: Vec<u8>) -> (r: DispatchOutcome)
        ensures
            r == spec_reader_outcome(data@, self.callbacks()),
    {
        let parsed = match json_parse(&data) {
            Ok(v) => v,
            Err(_) => {
                return DispatchOutcome::DecodeFailed;
            },
        };
        let ghost pv = parsed;
        proof {
            lemma_envelope_kind_model(pv);
        }
        let envelope = match decode_envelope(parsed) {
            Ok(m) => m,
            Err(_) => {
                return DispatchOutcome::DecodeFailed;
            },
        };
        self.dispatch_envelope(&envelope, data)
    }
}

/// Backend B — the stream transport's core.  One multiplexed byte
/// stream, the framed codec on top, and a bounded outbound queue: a full
/// queue rejects the newest send at once rather than blocking the caller
/// or the reader.  There is no reconnection: a failed read or write ends
/// the session.
pub struct StreamTransportCore<H> {
    registry: CallbackRegistry<H>,
    outbound: BoundedQueue,
}

impl<H> StreamTransportCore<H> {
    /// The queued messages, oldest first.
    pub closed spec fn queue(self) -> Seq<Seq<u8>> {
        self.outbound@
    }

    /// The queue's capacity bound.
    pub closed spec fn cap(self) -> nat {
        self.outbound.cap()
    }

    /// The registered handlers.
    pub closed spec fn callbacks(self) -> Map<Seq<char>, H> {
        self.registry@
    }

    /// A fresh core over an opened stream: empty queue at the fixed
    /// capacity, no handlers.
    pub fn new() -> (r: Self)
        ensures
            r.queue() == Seq::<Seq<u8>>::empty(),
            r.cap() == STREAM_QUEUE_CAPACITY,
            r.callbacks() == Map::<Seq<char>, H>::empty(),
    {
        StreamTransportCore {
            registry: CallbackRegistry::new(),
            outbound: BoundedQueue::new(STREAM_QUEUE_CAPACITY),
        }
    }

    /// Enqueue an encoded message, or fail with `CapacityError` exactly
    /// when the queue is full — one send is rejected, the transport
    /// stays up, and the queue is untouched.
    pub fn send_message(&mut self, message: Vec<u8>) -> (r: Result<(), CapacityError>)
        ensures
            final(self).cap() == old(self).cap(),
            final(self).callbacks() == old(self).callbacks(),
            old(self).queue().len() < old(self).cap() ==> r is Ok && final(self).queue()
                == old(self).queue().push(message@),
            old(self).queue().len() >= old(self).cap() ==> r == Err::<(), CapacityError>(
                CapacityError,
            ) && final(self).queue() == old(self).queue(),
    {
        self.outbound.try_send(message)
    }

    /// Bind `handler` to a message kind, replacing any previous one.
    pub fn register_callback(&mut self, payload_type: String, handler: H)
        ensures
            final(self).callbacks() == old(self).callbacks().insert(payload_type@, handler),
            final(self).queue() == old(self).queue(),
            final(self).cap() == old(self).cap(),
    {
        self.registry.register(payload_type, handler);
    }

    /// The writer task's step: take the oldest message to frame and
    /// write.
    pub fn pop_outbound(&mut self) -> (r: Option<Vec<u8>>)
        ensures
            final(self).cap() == old(self).cap(),
            final(self).callbacks() == old(self).callbacks(),
            old(self).queue().len() == 0 ==> r is None && final(self).queue() == old(self).queue(),
            old(self).queue().len() > 0 ==> (r matches Some(m) && m@ == old(self).queue()[0]
                && final(self).queue() == old(self).queue().drop_first()),
    {
        self.outbound.pop()
    }
}

impl<H: Handler> StreamTransportCore<H> {
    /// Dispatch a frame whose envelope is already decoded, exactly as
    /// the socket backend does.
    pub fn dispatch_envelope(&self, envelope: &MessageBase, data: Vec<u8>) -> (r: DispatchOutcome)
        ensures
            r == DispatchOutcome::Dispatched <==> self.callbacks().contains_key(
                envelope.payload_type@,
            ),
            r == DispatchOutcome::Dispatched || r == DispatchOutcome::NoHandler,
    {
        if self.registry.dispatch(envelope.payload_type.as_str(), data) {
            DispatchOutcome::Dispatched
        } else {
            DispatchOutcome::NoHandler
        }
    }

    /// The reader task's step on one received frame payload: decode the
    /// envelope, dispatch on its discriminant.  The outcome is fixed by
    /// the bytes and the registered handlers: an undecodable frame is
    /// dropped and the loop goes on, a decoded envelope reaches the
    /// handler for its kind exactly when one is registered.
    pub fn handle_frame(&self, data: Vec<u8>) -> (r: DispatchOutcome)
        ensures
            r == spec_reader_outcome(data@, self.callbacks()),
    {
        let parsed = match json_parse(&data) {
            Ok(v) => v,
            Err(_) => {
                return DispatchOutcome::DecodeFailed;
            },
        };
        let ghost pv = parsed;
        proof {
            lemma_envelope_kind_model(pv);
        }
        let envelope = match decode_envelope(parsed) {
            Ok(m) => m,
            Err(_) => {
                return DispatchOutcome::DecodeFailed;
            },
        };
        self.dispatch_envelope(&envelope, data)
    }
}

} // verus!
