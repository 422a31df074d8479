//! The deployment entry contract: an owner set once by `init`.
use vstd::prelude::*;

use vstd::string::StringSliceAdditionalSpecFns;

use crate::address::{Address, zero_address};

verus! {

/// The entry contract's storage: its owner and whether `init` ran.
pub struct ArbiShield {
    owner: Address,
    initialized: bool,
}

impl ArbiShield {
    /// The storage of a fresh deployment: no owner, not initialized.
    pub fn new() -> (r: ArbiShield)
        ensures
            r.spec_owner() == zero_address(),
            !r.spec_initialized(),
    {
        ArbiShield { owner: Address::zero(), initialized: false }
    }

    /// The owner.
    pub closed spec fn spec_owner(&self) -> Address {
        self.owner
    }

    /// Whether `init` ran.
    pub closed spec fn spec_initialized(&self) -> bool {
        self.initialized
    }

    /// Makes the caller the owner, once; a second call fails with the bytes of
    /// "Already initialized" and changes nothing.
    pub fn init(&mut self, caller: &Address) -> (r: Result<(), Vec<u8>>)
        ensures
            old(self).spec_initialized() ==> {
                &&& r matches Err(e) && e@ == "Already initialized".spec_bytes()
                &&& final(self).spec_owner() == old(self).spec_owner()
                &&& final(self).spec_initialized()
            },
            !old(self).spec_initialized() ==> {
                &&& r is Ok
                &&& final(self).spec_owner() == *caller
                &&& final(self).spec_initialized()
            },
    {
        if self.initialized {
            return Err("Already initialized".as_bytes_vec());
        }
        self.owner = *caller;
        self.initialized = true;
        Ok(())
    }

    /// The owner.
    pub fn owner(&self) -> (r: Address)
        ensures
            r == self.spec_owner(),
    {
        self.owner
    }
}

} // verus!
