//! The registry of messaging adapters.
use crate::message::InboundMessage;
use crate::text::cat3;
use crate::text_map::TextMap;
use vstd::prelude::*;

verus! {

/// Manages all messaging adapters. Each is known by its name and by the handle
/// of the task that runs it.
pub struct MessagingManager {
    pub adapters: TextMap<u64>,
    /// The merged stream of inbound messages was handed out.
    pub started: bool,
}

/// The message of a missing adapter.
pub open spec fn no_adapter(name: Seq<char>) -> Seq<char> {
    "no messaging adapter named '"@ + name + "'"@
}

impl MessagingManager {
    /// No adapters.
    pub fn new() -> (r: Self)
        ensures
            r.adapters.wf(),
            r.adapters@ == Map::<Seq<char>, u64>::empty(),
            !r.started,
    {
        MessagingManager { adapters: TextMap::new(), started: false }
    }

    /// Registers an adapter, in place of one of the same name.
    pub fn register(&mut self, name: String, handle: u64)
        requires
            old(self).adapters.wf(),
        ensures
            final(self).adapters.wf(),
            final(self).adapters@ == old(self).adapters@.insert(name@, handle),
            final(self).started == old(self).started,
    {
        self.adapters.insert(name, handle);
    }

    /// Returns true if an adapter with this name is currently registered.
    pub fn has_adapter(&self, name: &str) -> (r: bool)
        ensures
            r == self.adapters@.contains_key(name@),
    {
        self.adapters.contains_key(name)
    }

    /// Hands out the merged stream, which can be taken once.
    pub fn start(&mut self) -> (r: Result<(), String>)
        ensures
            match r {
                Ok(_) => !old(self).started,
                Err(e) => old(self).started && e@ == "start() already called"@,
            },
            final(self).started,
            final(self).adapters == old(self).adapters,
    {
        if self.started {
            return Err("start() already called".to_owned());
        }
        self.started = true;
        Ok(())
    }

    /// The adapter with a name.
    pub fn adapter(&self, name: &str) -> (r: Result<u64, String>)
        ensures
            match r {
                Ok(h) => self.adapters@.contains_key(name@) && h == self.adapters@[name@],
                Err(e) => !self.adapters@.contains_key(name@) && e@ == no_adapter(name@),
            },
    {
        match self.adapters.get(name) {
            Some(h) => Ok(*h),
            None => Err(cat3("no messaging adapter named '", name, "'")),
        }
    }

    /// The adapter that answers a message: the one of the platform that the
    /// message came from.
    pub fn route(&self, m: &InboundMessage) -> (r: Result<u64, String>)
        ensures
            match r {
                Ok(h) => self.adapters@.contains_key(m.source@) && h == self.adapters@[m.source@],
                Err(e) => !self.adapters@.contains_key(m.source@) && e@ == no_adapter(m.source@),
            },
    {
        self.adapter(m.source.as_str())
    }

    /// Removes an adapter, which is to be shut down.
    pub fn remove_adapter(&mut self, name: &str) -> (r: Option<u64>)
        requires
            old(self).adapters.wf(),
        ensures
            final(self).adapters.wf(),
            final(self).adapters@ == old(self).adapters@.remove(name@),
            final(self).started == old(self).started,
            match r {
                Some(h) => old(self).adapters@.contains_key(name@) && h
                    == old(self).adapters@[name@],
                None => !old(self).adapters@.contains_key(name@),
            },
    {
        self.adapters.remove(name)
    }
}

/// A missing adapter is named.
pub proof fn law_missing_adapter_is_named(name: Seq<char>)
    ensures
        no_adapter(name) == "no messaging adapter named '"@ + name + "'"@,
{
}

} // verus!
