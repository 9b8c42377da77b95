use vstd::prelude::*;

use crate::error::Error;
use crate::keyed::KeyedVec;

verus! {

/// Routes requests by environment type: each backend that started registers
/// its handle under its type name.
pub struct EnvRegistry<H> {
    entries: KeyedVec<H>,
}

impl<H> EnvRegistry<H> {
    /// The registered handles, by type name.
    pub closed spec fn handles(&self) -> Map<Seq<char>, H> {
        self.entries.map()
    }

    pub closed spec fn wf(&self) -> bool {
        self.entries.wf()
    }

    pub fn new() -> (r: Self)
        ensures
            r.wf(),
            r.handles() == Map::<Seq<char>, H>::empty(),
    {
        EnvRegistry { entries: KeyedVec::new() }
    }

    /// Registers the handle of a backend under its type name.
    pub fn register(&mut self, env_type: String, handle: H)
        requires
            old(self).wf(),
        ensures
            final(self).wf(),
            final(self).handles() == old(self).handles().insert(env_type@, handle),
    {
        self.entries.put(env_type, handle);
    }

    /// The handle registered under a type name.
    pub fn resolve(&self, env_type: &String) -> (r: Result<&H, Error>)
        requires
            self.wf(),
        ensures
            self.handles().contains_key(env_type@) ==> (r matches Ok(h) && *h == self.handles()[env_type@]),
            !self.handles().contains_key(env_type@) ==> (r matches Err(Error::UnknownEnv(t)) && t@ == env_type@),
    {
        match self.entries.get(env_type) {
            Some(h) => Ok(h),
            None => Err(Error::UnknownEnv(env_type.clone())),
        }
    }
}

} // verus!
