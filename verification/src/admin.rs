//! Capability control shared by the payment products: an owner, a bounded
//! admin list, and a mutability flag that freezing clears.  The products
//! consume it as a yes/no authorization check.

use vstd::prelude::*;

verus! {

/// Hard cap on the admin list, to prevent uncapped arrays.
pub const MAXIMUM_ADMIN_LIST_SIZE: usize = 10;

/// Every way an authorization operation can fail.
#[derive(Clone, Copy, Debug, PartialEq, Eq, Structural)]
pub enum AdminError {
    Unauthorized,
    InvalidParams,
}

/// The owner, the admin accounts, and whether admins may currently act
/// (`mutable`; freezing clears it).
#[derive(Clone, Debug)]
pub struct AdminConfig {
    pub owner: u64,
    pub admins: Vec<u64>,
    pub mutable: bool,
}

impl AdminConfig {
    /// The account is in the admin list.
    pub open spec fn spec_is_admin(&self, addr: u64) -> bool {
        self.admins@.contains(addr)
    }

    pub fn is_admin(&self, addr: u64) -> (r: bool)
        ensures
            r == self.spec_is_admin(addr),
    {
        let n = self.admins.len();
        let mut i: usize = 0;
        while i < n
            invariant
                i <= n,
                n == self.admins@.len(),
                forall|j: int| 0 <= j < i ==> self.admins@[j] != addr,
            decreases n - i,
        {
            if self.admins[i] == addr {
                return true;
            }
            i = i + 1;
        }
        false
    }

    pub fn is_owner(&self, addr: u64) -> (r: bool)
        ensures
            r == (addr == self.owner),
    {
        self.owner == addr
    }
}

/// What the configuration looks like to a caller.
#[derive(Clone, Debug)]
pub struct AdminConfigResponse {
    pub owner: u64,
    pub admins: Vec<u64>,
    pub mutable: bool,
}

impl AdminConfigResponse {
    /// Brings the response to canonical form, so that two responses naming
    /// the same admins in any order and multiplicity compare equal: the
    /// admin list is sorted ascending with duplicates removed.
    pub fn canonical(self) -> (r: AdminConfigResponse)
        ensures
            r.owner == self.owner,
            r.mutable == self.mutable,
            forall|i: int, j: int| 0 <= i < j < r.admins@.len()
                ==> r.admins@[i] < r.admins@[j],
            forall|a: u64| #[trigger] r.admins@.contains(a) <==> self.admins@.contains(a),
    {
        let n = self.admins.len();
        let mut sorted: Vec<u64> = Vec::new();
        let mut i: usize = 0;
        while i < n
            invariant
                i <= n,
                n == self.admins@.len(),
                forall|x: int, y: int| 0 <= x < y < sorted@.len()
                    ==> sorted@[x] < sorted@[y],
                forall|a: u64| #[trigger] sorted@.contains(a)
                    <==> self.admins@.take(i as int).contains(a),
            decreases n - i,
        {
            let v = self.admins[i];
            let m = sorted.len();
            let mut p: usize = 0;
            while p < m && sorted[p] < v
                invariant
                    p <= m,
                    m == sorted@.len(),
                    forall|j: int| 0 <= j < p ==> sorted@[j] < v,
                decreases m - p,
            {
                p = p + 1;
            }
            let ghost before = sorted@;
            if p < m && sorted[p] == v {
                proof {
                    assert(sorted@.contains(v));
                    assert(self.admins@.take(i + 1).drop_last() =~= self.admins@.take(i as int));
                    assert forall|a: u64| #[trigger] sorted@.contains(a)
                        implies self.admins@.take(i + 1).contains(a) by {
                        if a != v {
                            let x = choose|x: int|
                                0 <= x < self.admins@.take(i as int).len()
                                    && self.admins@.take(i as int)[x] == a;
                            assert(self.admins@.take(i + 1)[x] == a);
                        } else {
                            assert(self.admins@.take(i + 1)[i as int] == v);
                        }
                    }
                    assert forall|a: u64| self.admins@.take(i + 1).contains(a)
                        implies #[trigger] sorted@.contains(a) by {
                        let x = choose|x: int|
                            0 <= x < self.admins@.take(i + 1).len()
                                && #[trigger] self.admins@.take(i + 1)[x] == a;
                        if x < i {
                            assert(self.admins@.take(i as int)[x] == a);
                        }
                    }
                }
            } else {
                sorted.insert(p, v);
                proof {
                    assert forall|x: int, y: int| 0 <= x < y < sorted@.len()
                        implies sorted@[x] < sorted@[y] by {
                        if x < p && y > p {
                            assert(sorted@[x] == before[x]);
                            assert(sorted@[y] == before[y - 1]);
                        } else if y == p && x < p {
                            assert(sorted@[x] == before[x]);
                        } else if x == p && y > p {
                            assert(sorted@[y] == before[y - 1]);
                            assert(before[p as int] != v);
                        }
                    }
                    assert(self.admins@.take(i + 1).drop_last() =~= self.admins@.take(i as int));
                    assert forall|a: u64| #[trigger] sorted@.contains(a)
                        implies self.admins@.take(i + 1).contains(a) by {
                        if a == v {
                            assert(self.admins@.take(i + 1)[i as int] == v);
                        } else {
                            let x = choose|x: int|
                                0 <= x < sorted@.len() && #[trigger] sorted@[x] == a;
                            if x < p {
                                assert(before[x] == a);
                            } else {
                                assert(before[x - 1] == a);
                            }
                            assert(before.contains(a));
                            assert(self.admins@.take(i as int).contains(a));
                            let y = choose|y: int|
                                0 <= y < self.admins@.take(i as int).len()
                                    && #[trigger] self.admins@.take(i as int)[y] == a;
                            assert(self.admins@.take(i + 1)[y] == a);
                        }
                    }
                    assert forall|a: u64| self.admins@.take(i + 1).contains(a)
                        implies #[trigger] sorted@.contains(a) by {
                        let x = choose|x: int|
                            0 <= x < self.admins@.take(i + 1).len()
                                && #[trigger] self.admins@.take(i + 1)[x] == a;
                        if x < i {
                            assert(self.admins@.take(i as int)[x] == a);
                            assert(before.contains(a));
                            let y = choose|y: int| 0 <= y < before.len() && before[y] == a;
                            if y < p {
                                assert(sorted@[y] == a);
                            } else {
                                assert(sorted@[y + 1] == a);
                            }
                        } else {
                            assert(sorted@[p as int] == v);
                        }
                    }
                }
            }
            i = i + 1;
        }
        proof {
            assert(self.admins@.take(n as int) =~= self.admins@);
        }
        AdminConfigResponse { owner: self.owner, admins: sorted, mutable: self.mutable }
    }
}

/// Sets up the capability configuration, rejecting an admin list above the
/// hard cap.
pub fn instantiate(owner: u64, admins: Vec<u64>, mutable: bool) -> (r: Result<
    AdminConfig,
    AdminError,
>)
    ensures
        r is Err <==> admins@.len() > MAXIMUM_ADMIN_LIST_SIZE,
        r matches Err(e) ==> e == AdminError::InvalidParams,
        r matches Ok(cfg) ==> cfg.owner == owner && cfg.admins@ == admins@
            && cfg.mutable == mutable,
{
    if admins.len() > MAXIMUM_ADMIN_LIST_SIZE {
        return Err(AdminError::InvalidParams);
    }
    Ok(AdminConfig { owner, admins, mutable })
}

/// Freezes the configuration: admins can no longer act.  Only the owner may
/// freeze.
pub fn execute_freeze(cfg: &mut AdminConfig, sender: u64) -> (r: Result<(), AdminError>)
    ensures
        r is Err <==> sender != old(cfg).owner,
        r matches Err(e) ==> e == AdminError::Unauthorized && *final(cfg) == *old(cfg),
        r is Ok ==> final(cfg).owner == old(cfg).owner && final(cfg).admins@ == old(cfg).admins@ && final(cfg).mutable == false,
{
    if sender != cfg.owner {
        Err(AdminError::Unauthorized)
    } else {
        cfg.mutable = false;
        Ok(())
    }
}

/// Unfreezes the configuration: admins may act again.  Only the owner may
/// unfreeze.
pub fn execute_unfreeze(cfg: &mut AdminConfig, sender: u64) -> (r: Result<(), AdminError>)
    ensures
        r is Err <==> sender != old(cfg).owner,
        r matches Err(e) ==> e == AdminError::Unauthorized && *final(cfg) == *old(cfg),
        r is Ok ==> final(cfg).owner == old(cfg).owner && final(cfg).admins@ == old(cfg).admins@ && final(cfg).mutable == true,
{
    if sender != cfg.owner {
        Err(AdminError::Unauthorized)
    } else {
        cfg.mutable = true;
        Ok(())
    }
}

/// Replaces the admin list.  Only the owner may do so, and the new list
/// must respect the hard cap.
pub fn execute_update_admins(cfg: &mut AdminConfig, sender: u64, admins: Vec<u64>) -> (r: Result<
    (),
    AdminError,
>)
    ensures
        r matches Err(e) ==> *final(cfg) == *old(cfg) && ((e == AdminError::Unauthorized
            && sender != old(cfg).owner) || (e == AdminError::InvalidParams && sender == old(cfg).owner && admins@.len() > MAXIMUM_ADMIN_LIST_SIZE)),
        r is Ok <==> sender == old(cfg).owner && admins@.len() <= MAXIMUM_ADMIN_LIST_SIZE,
        r is Ok ==> final(cfg).owner == old(cfg).owner && final(cfg).mutable == old(cfg).mutable && final(cfg).admins@ == admins@,
{
    if sender != cfg.owner {
        Err(AdminError::Unauthorized)
    } else if admins.len() > MAXIMUM_ADMIN_LIST_SIZE {
        Err(AdminError::InvalidParams)
    } else {
        cfg.admins = admins;
        Ok(())
    }
}

/// Whether `sender` may act through this configuration: the owner always
/// may; an admin may while the configuration is mutable.
pub fn can_execute(cfg: &AdminConfig, sender: u64) -> (can: bool)
    ensures
        can == (sender == cfg.owner || (cfg.spec_is_admin(sender) && cfg.mutable)),
{
    if cfg.is_owner(sender) {
        true
    } else {
        cfg.is_admin(sender) && cfg.mutable
    }
}

/// The owner account.
pub fn query_owner(cfg: &AdminConfig) -> (owner: u64)
    ensures
        owner == cfg.owner,
{
    cfg.owner
}

/// An owned copy of an account list.
pub fn copy_accounts(v: &Vec<u64>) -> (r: Vec<u64>)
    ensures
        r@ == v@,
{
    let n = v.len();
    let mut r: Vec<u64> = Vec::new();
    let mut i: usize = 0;
    while i < n
        invariant
            i <= n,
            n == v@.len(),
            r@ == v@.take(i as int),
        decreases n - i,
    {
        r.push(v[i]);
        proof {
            assert(r@ =~= v@.take(i + 1));
        }
        i = i + 1;
    }
    proof {
        assert(v@.take(n as int) =~= v@);
    }
    r
}

/// The full configuration as a response value.
pub fn query_admin_list(cfg: &AdminConfig) -> (r: AdminConfigResponse)
    ensures
        r.owner == cfg.owner,
        r.admins@ == cfg.admins@,
        r.mutable == cfg.mutable,
{
    AdminConfigResponse {
        owner: cfg.owner,
        admins: copy_accounts(&cfg.admins),
        mutable: cfg.mutable,
    }
}

} // verus!
