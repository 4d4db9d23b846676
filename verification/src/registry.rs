//! Maps a message-type discriminant to one handler.
//!
//! The registry's view is a map from discriminant to handler: the last
//! registration for a key wins, and dispatch hands the raw bytes of a
//! message to the handler registered for its kind, if any — a missing
//! handler is an outcome, not a fault.

use vstd::prelude::*;

verus! {

/// What the registry invokes.  Users supply the handlers, typically as
/// closures over the raw bytes of one message.
pub trait Handler {
    fn handle(&self, data: Vec<u8>);
}

/// A handler wrapping one function over message bytes.  The function
/// must accept any bytes, which is what lets the registry call it on
/// whatever arrives.
pub struct Callback<F: Fn(Vec<u8>) -> ()> {
    f: F,
}

impl<F: Fn(Vec<u8>) -> ()> Callback<F> {
    #[verifier::type_invariant]
    spec fn wf(self) -> bool {
        forall|d: Vec<u8>| self.f.requires((d,))
    }

    /// Wrap a function that accepts any message bytes.
    pub fn new(f: F) -> (r: Self)
        requires
            forall|d: Vec<u8>| f.requires((d,)),
    {
        Callback { f }
    }

    /// Invoke the wrapped function on one message's bytes.
    pub fn call(&self, data: Vec<u8>) {
        proof {
            use_type_invariant(self);
        }
        (self.f)(data)
    }
}

impl<F: Fn(Vec<u8>) -> ()> Handler for Callback<F> {
    fn handle(&self, data: Vec<u8>) {
        self.call(data)
    }
}

/// The map a run of registrations denotes: later entries shadow earlier
/// ones for the same key.
pub open spec fn spec_registry_map<H>(entries: Seq<(String, H)>) -> Map<Seq<char>, H>
    decreases entries.len(),
{
    if entries.len() == 0 {
        Map::empty()
    } else {
        spec_registry_map(entries.drop_last()).insert(entries.last().0@, entries.last().1)
    }
}

/// One handler per message kind; registration replaces, dispatch reads.
pub struct CallbackRegistry<H> {
    entries: Vec<(String, H)>,
}

impl<H> View for CallbackRegistry<H> {
    type V = Map<Seq<char>, H>;

    closed spec fn view(&self) -> Map<Seq<char>, H> {
        spec_registry_map(self.entries@)
    }
}

impl<H> CallbackRegistry<H> {
    /// An empty registry.
    pub fn new() -> (r: Self)
        ensures
            r@ == Map::<Seq<char>, H>::empty(),
    {
        CallbackRegistry { entries: Vec::new() }
    }

    /// Bind `handler` to `payload_type`, replacing any handler bound to
    /// it before.
    pub fn register(&mut self, payload_type: String, handler: H)
        ensures
            final(self)@ == old(self)@.insert(payload_type@, handler),
    {
        let ghost pre = self.entries@;
        self.entries.push((payload_type, handler));
        proof {
            assert(self.entries@.drop_last() =~= pre);
        }
    }

    /// The handler bound to `payload_type`, if one was registered.
    pub fn lookup<'a>(&'a self, payload_type: &str) -> (r: Option<&'a H>)
        ensures
            match r {
                Some(h) => self@.contains_key(payload_type@) && *h == self@[payload_type@],
                None => !self@.contains_key(payload_type@),
            },
    {
        let mut i: usize = self.entries.len();
        proof {
            assert(self.entries@.subrange(0, i as int) =~= self.entries@);
        }
        while i > 0
            invariant
                i <= self.entries@.len(),
                spec_registry_map(self.entries@).contains_key(payload_type@)
                    == spec_registry_map(self.entries@.subrange(0, i as int)).contains_key(
                    payload_type@,
                ),
                spec_registry_map(self.entries@).contains_key(payload_type@)
                    ==> spec_registry_map(self.entries@)[payload_type@] == spec_registry_map(
                    self.entries@.subrange(0, i as int),
                )[payload_type@],
            decreases i,
        {
            i = i - 1;
            proof {
                assert(self.entries@.subrange(0, i + 1).drop_last() =~= self.entries@.subrange(
                    0,
                    i as int,
                ));
                assert(self.entries@.subrange(0, i + 1).last() == self.entries@[i as int]);
            }
            if crate::json::str_eq(self.entries[i].0.as_str(), payload_type) {
                return Some(&self.entries[i].1);
            }
        }
        proof {
            assert(self.entries@.subrange(0, 0).len() == 0);
        }
        None
    }
}

impl<H: Handler> CallbackRegistry<H> {
    /// Hand `data` to the handler registered for `payload_type`.  Says
    /// whether a handler was there; a missing one only means the message
    /// is dropped.
    pub fn dispatch(&self, payload_type: &str, data: Vec<u8>) -> (r: bool)
        ensures
            r == self@.contains_key(payload_type@),
    {
        match self.lookup(payload_type) {
            Some(h) => {
                h.handle(data);
                true
            },
            None => false,
        }
    }
}

/// Registry replace semantics: after two registrations for one kind, the
/// map holds exactly the second handler for it, so a dispatch for that
/// kind reaches only the second.
pub proof fn lemma_register_replaces<H>(m: Map<Seq<char>, H>, key: Seq<char>, h1: H, h2: H)
    ensures
        m.insert(key, h1).insert(key, h2)[key] == h2,
        m.insert(key, h1).insert(key, h2).contains_key(key),
{
}

} // verus!
