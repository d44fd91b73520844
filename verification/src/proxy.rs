//! Upgradeable proxy: an admin, the active implementation, a counter kept
//! across upgrades and an allowlist of verified implementations. Upgrades go
//! only to an allowlisted implementation that is not already active.
//!
//! `Proxy` models the contract's single-valued storage entries; the admin's
//! authorization and the calls into the implementation are made by the
//! contract layer.
use vstd::prelude::*;
use crate::address::{Addr, addr_views, contains_addr, copy_addrs};
use crate::guards::{without, lemma_without_contains};

verus! {

/// Errors of the proxy.
#[derive(Debug, Clone, Copy, PartialEq, Eq, Structural)]
pub enum ProxyError {
    NotInitialized,
    UnverifiedImplementation,
    SelfUpgrade,
    AlreadyVerified,
    NotVerified,
}

/// The proxy's storage.
pub struct Proxy {
    pub admin: Option<Addr>,
    pub implementation: Option<Addr>,
    pub counter: Option<i32>,
    pub verified: Option<Vec<Addr>>,
}

impl Proxy {
    /// The allowlist in effect (empty when none is stored).
    pub open spec fn verified_of(&self) -> Seq<Seq<u8>> {
        match self.verified {
            Some(v) => addr_views(v@),
            None => Seq::empty(),
        }
    }

    /// A proxy whose storage holds nothing yet.
    pub fn new() -> (r: Self)
        ensures
            r.admin is None,
            r.implementation is None,
            r.counter is None,
            r.verified is None,
    {
        Proxy { admin: None, implementation: None, counter: None, verified: None }
    }

    /// Stores the admin and the initial implementation, zeroes the counter
    /// and allowlists the initial implementation. A second initialization is
    /// refused by the caller ("Proxy already initialized").
    pub fn initialize(&mut self, admin: Addr, implementation: Addr)
        requires
            old(self).admin is None,
        ensures
            final(self).admin matches Some(a) && a@ == admin@,
            final(self).implementation matches Some(i) && i@ == implementation@,
            final(self).counter == Some(0i32),
            final(self).verified is Some,
            final(self).verified_of() == seq![implementation@],
    {
        let mut initial: Vec<Addr> = Vec::new();
        initial.push(implementation.duplicate());
        self.admin = Some(admin);
        self.implementation = Some(implementation);
        self.counter = Some(0);
        self.verified = Some(initial);
        assert(self.verified_of() =~= seq![self.implementation.unwrap()@]);
    }

    /// The admin (the proxy must be initialized).
    pub fn get_admin(&self) -> (r: &Addr)
        requires
            self.admin is Some,
        ensures
            self.admin == Some(*r),
    {
        self.admin.as_ref().unwrap()
    }

    /// The active implementation (the proxy must be initialized).
    pub fn get_implementation(&self) -> (r: &Addr)
        requires
            self.implementation is Some,
        ensures
            self.implementation == Some(*r),
    {
        self.implementation.as_ref().unwrap()
    }

    /// Whether `implementation` is on the allowlist.
    pub fn is_verified(&self, implementation: &Addr) -> (r: bool)
        ensures
            r == self.verified_of().contains(implementation@),
    {
        match &self.verified {
            Some(v) => contains_addr(v, implementation),
            None => false,
        }
    }

    /// Admin gate: the proxy must be initialized (the caller then requires
    /// the admin's authorization).
    pub fn guard_admin(&self) -> (r: Result<(), ProxyError>)
        ensures
            r == (if self.admin is Some {
                Ok::<(), ProxyError>(())
            } else {
                Err(ProxyError::NotInitialized)
            }),
    {
        if self.admin.is_none() {
            return Err(ProxyError::NotInitialized);
        }
        Ok(())
    }

    /// Adds `implementation` to the allowlist.
    pub fn register_implementation(&mut self, implementation: Addr) -> (r: Result<(), ProxyError>)
        ensures
            old(self).admin is None ==> r == Err::<(), ProxyError>(ProxyError::NotInitialized),
            old(self).admin is Some && old(self).verified_of().contains(implementation@) ==> r
                == Err::<(), ProxyError>(ProxyError::AlreadyVerified),
            old(self).admin is Some && !old(self).verified_of().contains(implementation@) ==> r
                is Ok && final(self).verified_of() == old(self).verified_of().push(
                implementation@,
            ),
            r is Err ==> final(self).verified_of() == old(self).verified_of(),
            final(self).admin == old(self).admin,
            final(self).implementation == old(self).implementation,
            final(self).counter == old(self).counter,
    {
        self.guard_admin()?;
        if self.is_verified(&implementation) {
            return Err(ProxyError::AlreadyVerified);
        }
        let mut verified: Vec<Addr> = match &self.verified {
            Some(v) => copy_addrs(v),
            None => Vec::new(),
        };
        let ghost before = addr_views(verified@);
        assert(before == old(self).verified_of());
        verified.push(implementation);
        assert(addr_views(verified@) =~= before.push(verified@.last()@));
        self.verified = Some(verified);
        Ok(())
    }

    /// Removes every occurrence of `implementation` from the allowlist. The
    /// active implementation stays active.
    pub fn unregister_implementation(&mut self, implementation: &Addr) -> (r: Result<
        (),
        ProxyError,
    >)
        ensures
            old(self).admin is None ==> r == Err::<(), ProxyError>(ProxyError::NotInitialized),
            old(self).admin is Some && !old(self).verified_of().contains(implementation@) ==> r
                == Err::<(), ProxyError>(ProxyError::NotVerified),
            old(self).admin is Some && old(self).verified_of().contains(implementation@) ==> r
                is Ok && final(self).verified_of() == without(
                old(self).verified_of(),
                implementation@,
            ),
            r is Err ==> final(self).verified_of() == old(self).verified_of(),
            final(self).admin == old(self).admin,
            final(self).implementation == old(self).implementation,
            final(self).counter == old(self).counter,
    {
        self.guard_admin()?;
        if !self.is_verified(implementation) {
            return Err(ProxyError::NotVerified);
        }
        let verified: &Vec<Addr> = match &self.verified {
            Some(v) => v,
            None => {
                assert(false);
                return Err(ProxyError::NotVerified);
            },
        };
        let mut updated: Vec<Addr> = Vec::new();
        let mut i: usize = 0;
        while i < verified.len()
            invariant
                i <= verified@.len(),
                addr_views(updated@) == without(
                    addr_views(verified@).take(i as int),
                    implementation@,
                ),
            decreases verified@.len() - i,
        {
            proof {
                let s = addr_views(verified@);
                assert(s.take(i + 1).drop_last() =~= s.take(i as int));
                assert(s.take(i + 1).last() == verified@[i as int]@);
            }
            if !verified[i].same_as(implementation) {
                let ghost prev = addr_views(updated@);
                updated.push(verified[i].duplicate());
                assert(addr_views(updated@) =~= prev.push(verified@[i as int]@));
            }
            i = i + 1;
        }
        assert(addr_views(verified@).take(verified@.len() as int) =~= addr_views(verified@));
        self.verified = Some(updated);
        Ok(())
    }

    /// A copy of the allowlist.
    pub fn get_verified_implementations(&self) -> (r: Vec<Addr>)
        ensures
            addr_views(r@) == self.verified_of(),
    {
        match &self.verified {
            Some(v) => copy_addrs(v),
            None => {
                let r: Vec<Addr> = Vec::new();
                assert(addr_views(r@) =~= Seq::<Seq<u8>>::empty());
                r
            },
        }
    }

    /// Points the proxy at `implementation`, which must be allowlisted and
    /// not already active.
    pub fn upgrade_to(&mut self, implementation: Addr) -> (r: Result<(), ProxyError>)
        requires
            old(self).admin is Some ==> old(self).implementation is Some,
        ensures
            old(self).admin is None ==> r == Err::<(), ProxyError>(ProxyError::NotInitialized),
            old(self).admin is Some && old(self).implementation.unwrap()@ == implementation@ ==> r
                == Err::<(), ProxyError>(ProxyError::SelfUpgrade),
            old(self).admin is Some && old(self).implementation.unwrap()@ != implementation@
                && !old(self).verified_of().contains(implementation@) ==> r == Err::<
                (),
                ProxyError,
            >(ProxyError::UnverifiedImplementation),
            old(self).admin is Some && old(self).implementation.unwrap()@ != implementation@
                && old(self).verified_of().contains(implementation@) ==> r is Ok
                && (final(self).implementation matches Some(i) && i@ == implementation@),
            r is Err ==> final(self).implementation == old(self).implementation,
            final(self).admin == old(self).admin,
            final(self).verified == old(self).verified,
            final(self).counter == old(self).counter,
    {
        self.guard_admin()?;
        if implementation.same_as(self.get_implementation()) {
            return Err(ProxyError::SelfUpgrade);
        }
        if !self.is_verified(&implementation) {
            return Err(ProxyError::UnverifiedImplementation);
        }
        self.implementation = Some(implementation);
        Ok(())
    }

    /// The counter kept across upgrades (0 when unset).
    pub fn get_value(&self) -> (r: i32)
        ensures
            r == (match self.counter {
                Some(v) => v,
                None => 0i32,
            }),
    {
        match self.counter {
            Some(v) => v,
            None => 0,
        }
    }

    /// Stores the counter.
    pub fn set_value(&mut self, value: i32)
        ensures
            final(self).counter == Some(value),
            final(self).admin == old(self).admin,
            final(self).implementation == old(self).implementation,
            final(self).verified == old(self).verified,
    {
        self.counter = Some(value);
    }
}

/// After unregistering, an implementation is no longer allowlisted (so an
/// upgrade to it is refused), and every other entry keeps its status.
pub proof fn law_unregister_revokes(s: Seq<Seq<u8>>, a: Seq<u8>, other: Seq<u8>)
    requires
        other != a,
    ensures
        !without(s, a).contains(a),
        without(s, a).contains(other) == s.contains(other),
{
    lemma_without_contains(s, a, a);
    lemma_without_contains(s, a, other);
}

} // verus!
