//! The job registry that compensates permissionless workers.  Contracts
//! are registered as jobs; each job's owner funds it with native-coin
//! credits, and when a registered contract reports completed work the
//! registry deducts the configured base fee from that contract's credits
//! and pays the worker.

use vstd::prelude::*;
use crate::pagination::{calc_limit, spec_limit, take_at_most};
use crate::streams::Coin;
use crate::table::Table;

verus! {

/// Hard cap on the admin list, to prevent uncapped arrays.
pub const MAXIMUM_ADMIN_LIST_SIZE: usize = 10;

/// Every way a registry operation can fail.
#[derive(Clone, Copy, Debug, PartialEq, Eq, Structural)]
pub enum ContractError {
    Unauthorized,
    JobExist,
    JobNotFound,
    JobNotActive,
    JobInsufficientCredits,
    InvalidParam,
}

/// One registered job: the contract under upkeep, who registered it, its
/// issued id and display name, and whether it is live.
#[derive(Clone, Debug)]
pub struct Job {
    pub owner: u64,
    pub name: String,
    pub contract: u64,
    pub active: bool,
    pub job_id: u64,
}

/// Registry settings: the owner, the admins, and the base fee a completed
/// work receipt pays out.
#[derive(Clone, Debug)]
pub struct Config {
    pub owner: u64,
    pub admins: Vec<u64>,
    pub base_fee: Vec<Coin>,
}

impl Config {
    pub fn is_owner(&self, addr: u64) -> (r: bool)
        ensures
            r == (addr == self.owner),
    {
        self.owner == addr
    }

    /// The account is in the admin list.
    pub open spec fn spec_is_admin(&self, addr: u64) -> bool {
        self.admins@.contains(addr)
    }

    pub fn is_admin(&self, addr: u64) -> (r: bool)
        ensures
            r == self.spec_is_admin(addr),
    {
        let n = self.admins.len();
        let mut i: usize = 0;
        while i < n
            invariant
                i <= n,
                n == self.admins@.len(),
                forall|j: int| 0 <= j < i ==> self.admins@[j] != addr,
            decreases n - i,
        {
            if self.admins[i] == addr {
                return true;
            }
            i = i + 1;
        }
        false
    }
}

/// A bank transfer of native coins to one account.
#[derive(Clone, Debug)]
pub struct BankSend {
    pub to_address: u64,
    pub amount: Vec<Coin>,
}

/// What a successful registry operation hands back: the payouts to make.
#[derive(Clone, Debug)]
pub struct Response {
    pub messages: Vec<BankSend>,
}

/// The number of jobs ever registered.
#[derive(Clone, Copy, Debug, PartialEq, Eq, Structural)]
pub struct CountResponse {
    pub count: u64,
}

/// One job as a caller sees it.
#[derive(Clone, Debug)]
pub struct JobInfo {
    pub is_active: bool,
    pub contract_address: u64,
    pub job_id: u64,
    pub owner: u64,
    pub name: String,
}

impl JobInfo {
    /// The stored job, re-shaped for callers.
    pub fn from_job(job: &Job) -> (r: JobInfo)
        ensures
            r.is_active == job.active,
            r.contract_address == job.contract,
            r.job_id == job.job_id,
            r.owner == job.owner,
            r.name == job.name,
    {
        JobInfo {
            is_active: job.active,
            contract_address: job.contract,
            job_id: job.job_id,
            owner: job.owner,
            name: job.name.clone(),
        }
    }
}

/// One page of live jobs.
#[derive(Clone, Debug)]
pub struct AllJobsResponse {
    pub jobs: Vec<JobInfo>,
}

/// An empty registry owned by the instantiating sender, with no admins, no
/// base fee and zero jobs registered.
pub fn instantiate(sender: u64) -> (r: (Config, u64))
    ensures
        r.0.owner == sender,
        r.0.admins@ == Seq::<u64>::empty(),
        r.0.base_fee@ == Seq::<Coin>::empty(),
        r.1 == 0,
{
    (Config { owner: sender, admins: Vec::new(), base_fee: Vec::new() }, 0)
}

/// Merging coin deposits into a balance, one coin at a time: an existing
/// denomination's amount grows, a new one is appended.  `None` when an
/// amount would no longer fit.
pub open spec fn spec_add_coins(balance: Seq<Coin>, funds: Seq<Coin>) -> Option<Seq<Coin>>
    decreases funds.len(),
{
    if funds.len() == 0 {
        Some(balance)
    } else {
        match spec_add_one(balance, funds[0]) {
            Some(b) => spec_add_coins(b, funds.skip(1)),
            None => None,
        }
    }
}

/// One coin merged into a balance.
pub open spec fn spec_add_one(balance: Seq<Coin>, c: Coin) -> Option<Seq<Coin>>
    decreases balance.len(),
{
    if balance.len() == 0 {
        Some(seq![c])
    } else if balance[0].denom == c.denom {
        if balance[0].amount + c.amount <= u128::MAX {
            Some(
                balance.update(0, Coin { denom: c.denom, amount: (balance[0].amount + c.amount) as u128 }),
            )
        } else {
            None
        }
    } else {
        match spec_add_one(balance.skip(1), c) {
            Some(b) => Some(seq![balance[0]] + b),
            None => None,
        }
    }
}

/// Deducting a fee from a balance, one coin at a time: each fee coin's
/// amount comes off the matching denomination.  `None` when a
/// denomination is missing or short.
pub open spec fn spec_sub_coins(balance: Seq<Coin>, fee: Seq<Coin>) -> Option<Seq<Coin>>
    decreases fee.len(),
{
    if fee.len() == 0 {
        Some(balance)
    } else {
        match spec_sub_one(balance, fee[0]) {
            Some(b) => spec_sub_coins(b, fee.skip(1)),
            None => None,
        }
    }
}

/// One coin deducted from a balance; a denomination drained to zero drops
/// out of the balance entirely.
pub open spec fn spec_sub_one(balance: Seq<Coin>, c: Coin) -> Option<Seq<Coin>>
    decreases balance.len(),
{
    if balance.len() == 0 {
        None
    } else if balance[0].denom == c.denom {
        if balance[0].amount == c.amount {
            Some(balance.skip(1))
        } else if balance[0].amount > c.amount {
            Some(
                balance.update(0, Coin { denom: c.denom, amount: (balance[0].amount - c.amount) as u128 }),
            )
        } else {
            None
        }
    } else {
        match spec_sub_one(balance.skip(1), c) {
            Some(b) => Some(seq![balance[0]] + b),
            None => None,
        }
    }
}

/// One coin merged into a balance in place.
fn add_one(balance: &mut Vec<Coin>, c: Coin) -> (ok: bool)
    ensures
        match spec_add_one(old(balance)@, c) {
            Some(b) => ok && final(balance)@ == b,
            None => !ok && final(balance)@ == old(balance)@,
        },
{
    let n = balance.len();
    let mut i: usize = 0;
    proof {
        assert(balance@.skip(0) =~= balance@);
        match spec_add_one(balance@, c) {
            Some(b) => {
                assert(balance@.take(0) + b =~= b);
            },
            None => {},
        }
    }
    while i < n
        invariant
            i <= n,
            n == balance@.len(),
            balance@ == old(balance)@,
            forall|j: int| 0 <= j < i ==> balance@[j].denom != c.denom,
            spec_add_one(balance@, c) == spec_add_one_from(balance@, c, i as int),
        decreases n - i,
    {
        if balance[i].denom == c.denom {
            proof {
                assert(balance@.skip(i as int)[0] == balance@[i as int]);
            }
            let cur = balance[i].amount;
            if cur > u128::MAX - c.amount {
                proof {
                    assert(spec_add_one(balance@.skip(i as int), c) is None);
                }
                return false;
            }
            let updated = Coin { denom: c.denom, amount: cur + c.amount };
            proof {
                lemma_add_one_found(balance@, c, i as int);
            }
            balance.remove(i);
            balance.insert(i, updated);
            proof {
                assert(balance@ =~= old(balance)@.update(i as int, updated));
            }
            return true;
        }
        proof {
            lemma_add_one_step(balance@, c, i as int);
        }
        i = i + 1;
    }
    proof {
        lemma_add_one_missing(balance@, c);
    }
    balance.push(c);
    proof {
        assert(balance@ =~= old(balance)@.push(c));
    }
    true
}

/// Merging from position `i` on, with the head split off untouched.
spec fn spec_add_one_from(balance: Seq<Coin>, c: Coin, i: int) -> Option<Seq<Coin>> {
    match spec_add_one(balance.skip(i), c) {
        Some(b) => Some(balance.take(i) + b),
        None => None,
    }
}

proof fn lemma_add_one_step(balance: Seq<Coin>, c: Coin, i: int)
    requires
        0 <= i < balance.len(),
        balance[i].denom != c.denom,
    ensures
        spec_add_one_from(balance, c, i) == spec_add_one_from(balance, c, i + 1),
{
    assert(balance.skip(i)[0] == balance[i]);
    assert(balance.skip(i).skip(1) =~= balance.skip(i + 1));
    match spec_add_one(balance.skip(i + 1), c) {
        Some(b) => {
            assert(balance.take(i) + (seq![balance[i]] + b) =~= balance.take(i + 1) + b);
        },
        None => {},
    }
}

proof fn lemma_add_one_found(balance: Seq<Coin>, c: Coin, i: int)
    requires
        0 <= i < balance.len(),
        balance[i].denom == c.denom,
        forall|j: int| 0 <= j < i ==> balance[j].denom != c.denom,
        balance[i].amount + c.amount <= u128::MAX,
    ensures
        spec_add_one_from(balance, c, i) == Some(
            balance.update(i, Coin { denom: c.denom, amount: (balance[i].amount + c.amount) as u128 }),
        ),
{
    assert(balance.skip(i)[0] == balance[i]);
    let updated = Coin { denom: c.denom, amount: (balance[i].amount + c.amount) as u128 };
    assert(spec_add_one(balance.skip(i), c) == Some(balance.skip(i).update(0, updated)));
    assert(balance.take(i) + balance.skip(i).update(0, updated) =~= balance.update(i, updated));
}

proof fn lemma_add_one_missing(balance: Seq<Coin>, c: Coin)
    requires
        forall|j: int| 0 <= j < balance.len() ==> balance[j].denom != c.denom,
    ensures
        spec_add_one(balance, c) == Some(balance.push(c)),
    decreases balance.len(),
{
    if balance.len() > 0 {
        lemma_add_one_missing(balance.skip(1), c);
        assert(seq![balance[0]] + balance.skip(1).push(c) =~= balance.push(c));
    } else {
        assert(seq![c] =~= balance.push(c));
    }
}

/// One coin deducted from a balance in place.
fn sub_one(balance: &mut Vec<Coin>, c: Coin) -> (ok: bool)
    ensures
        match spec_sub_one(old(balance)@, c) {
            Some(b) => ok && final(balance)@ == b,
            None => !ok && final(balance)@ == old(balance)@,
        },
{
    let n = balance.len();
    let mut i: usize = 0;
    proof {
        assert(balance@.skip(0) =~= balance@);
        match spec_sub_one(balance@, c) {
            Some(b) => {
                assert(balance@.take(0) + b =~= b);
            },
            None => {},
        }
    }
    while i < n
        invariant
            i <= n,
            n == balance@.len(),
            balance@ == old(balance)@,
            forall|j: int| 0 <= j < i ==> balance@[j].denom != c.denom,
            spec_sub_one(balance@, c) == spec_sub_one_from(balance@, c, i as int),
        decreases n - i,
    {
        if balance[i].denom == c.denom {
            proof {
                assert(balance@.skip(i as int)[0] == balance@[i as int]);
            }
            let cur = balance[i].amount;
            if cur < c.amount {
                proof {
                    assert(spec_sub_one(balance@.skip(i as int), c) is None);
                }
                return false;
            }
            proof {
                lemma_sub_one_found(balance@, c, i as int);
            }
            if cur == c.amount {
                balance.remove(i);
                proof {
                    assert(balance@ =~= old(balance)@.remove(i as int));
                }
            } else {
                let updated = Coin { denom: c.denom, amount: cur - c.amount };
                balance.remove(i);
                balance.insert(i, updated);
                proof {
                    assert(balance@ =~= old(balance)@.update(i as int, updated));
                }
            }
            return true;
        }
        proof {
            lemma_sub_one_step(balance@, c, i as int);
        }
        i = i + 1;
    }
    proof {
        lemma_sub_one_missing(balance@, c);
    }
    false
}

/// Deducting from position `i` on, with the head split off untouched.
spec fn spec_sub_one_from(balance: Seq<Coin>, c: Coin, i: int) -> Option<Seq<Coin>> {
    match spec_sub_one(balance.skip(i), c) {
        Some(b) => Some(balance.take(i) + b),
        None => None,
    }
}

proof fn lemma_sub_one_step(balance: Seq<Coin>, c: Coin, i: int)
    requires
        0 <= i < balance.len(),
        balance[i].denom != c.denom,
    ensures
        spec_sub_one_from(balance, c, i) == spec_sub_one_from(balance, c, i + 1),
{
    assert(balance.skip(i)[0] == balance[i]);
    assert(balance.skip(i).skip(1) =~= balance.skip(i + 1));
    match spec_sub_one(balance.skip(i + 1), c) {
        Some(b) => {
            assert(balance.take(i) + (seq![balance[i]] + b) =~= balance.take(i + 1) + b);
        },
        None => {},
    }
}

proof fn lemma_sub_one_found(balance: Seq<Coin>, c: Coin, i: int)
    requires
        0 <= i < balance.len(),
        balance[i].denom == c.denom,
        forall|j: int| 0 <= j < i ==> balance[j].denom != c.denom,
        balance[i].amount >= c.amount,
    ensures
        spec_sub_one_from(balance, c, i) == Some(
            if balance[i].amount == c.amount {
                balance.remove(i)
            } else {
                balance.update(i, Coin { denom: c.denom, amount: (balance[i].amount - c.amount) as u128 })
            },
        ),
{
    assert(balance.skip(i)[0] == balance[i]);
    if balance[i].amount == c.amount {
        assert(spec_sub_one(balance.skip(i), c) == Some(balance.skip(i).skip(1)));
        assert(balance.take(i) + balance.skip(i).skip(1) =~= balance.remove(i));
    } else {
        let updated = Coin { denom: c.denom, amount: (balance[i].amount - c.amount) as u128 };
        assert(spec_sub_one(balance.skip(i), c) == Some(balance.skip(i).update(0, updated)));
        assert(balance.take(i) + balance.skip(i).update(0, updated) =~= balance.update(i, updated));
    }
}

proof fn lemma_sub_one_missing(balance: Seq<Coin>, c: Coin)
    requires
        forall|j: int| 0 <= j < balance.len() ==> balance[j].denom != c.denom,
    ensures
        spec_sub_one(balance, c) is None,
    decreases balance.len(),
{
    if balance.len() > 0 {
        lemma_sub_one_missing(balance.skip(1), c);
    }
}

/// Merges a deposit into a balance in place; on overflow reports failure
/// with the balance unchanged.
fn add_coins(balance: &mut Vec<Coin>, funds: &Vec<Coin>) -> (ok: bool)
    ensures
        match spec_add_coins(old(balance)@, funds@) {
            Some(b) => ok && final(balance)@ == b,
            None => !ok,
        },
{
    let n = funds.len();
    let mut i: usize = 0;
    proof {
        assert(funds@.skip(0) =~= funds@);
    }
    while i < n
        invariant
            i <= n,
            n == funds@.len(),
            spec_add_coins(old(balance)@, funds@) == spec_add_coins(balance@, funds@.skip(i as int)),
        decreases n - i,
    {
        proof {
            assert(funds@.skip(i as int)[0] == funds@[i as int]);
            assert(funds@.skip(i as int).skip(1) =~= funds@.skip(i + 1));
        }
        let c = funds[i];
        if !add_one(balance, c) {
            return false;
        }
        i = i + 1;
    }
    proof {
        assert(funds@.skip(n as int).len() == 0);
    }
    true
}

/// Deducts a fee from a balance in place; when a denomination is missing
/// or short, reports failure (the balance may be partially changed, so
/// callers discard it on failure).
fn sub_coins(balance: &mut Vec<Coin>, fee: &Vec<Coin>) -> (ok: bool)
    ensures
        match spec_sub_coins(old(balance)@, fee@) {
            Some(b) => ok && final(balance)@ == b,
            None => !ok,
        },
{
    let n = fee.len();
    let mut i: usize = 0;
    proof {
        assert(fee@.skip(0) =~= fee@);
    }
    while i < n
        invariant
            i <= n,
            n == fee@.len(),
            spec_sub_coins(old(balance)@, fee@) == spec_sub_coins(balance@, fee@.skip(i as int)),
        decreases n - i,
    {
        proof {
            assert(fee@.skip(i as int)[0] == fee@[i as int]);
            assert(fee@.skip(i as int).skip(1) =~= fee@.skip(i + 1));
        }
        let c = fee[i];
        if !sub_one(balance, c) {
            return false;
        }
        i = i + 1;
    }
    proof {
        assert(fee@.skip(n as int).len() == 0);
    }
    true
}

/// An owned copy of a coin list.
pub fn copy_coins(v: &Vec<Coin>) -> (r: Vec<Coin>)
    ensures
        r@ == v@,
{
    let n = v.len();
    let mut r: Vec<Coin> = Vec::new();
    let mut i: usize = 0;
    while i < n
        invariant
            i <= n,
            n == v@.len(),
            r@ == v@.take(i as int),
        decreases n - i,
    {
        r.push(v[i]);
        proof {
            assert(r@ =~= v@.take(i + 1));
        }
        i = i + 1;
    }
    proof {
        assert(v@.take(n as int) =~= v@);
    }
    r
}

/// Registers a contract as a job under the next job id.  Only the
/// registry's owner or an admin may; a contract already registered and
/// live is rejected.
pub fn try_add_job(
    jobs: &mut Table<Job>,
    count: &mut u64,
    config: &Config,
    sender: u64,
    contract_address: u64,
    name: String,
) -> (r: Result<(), ContractError>)
    requires
        old(jobs).wf(),
        *old(count) < u64::MAX,
    ensures
        final(jobs).wf(),
        r matches Err(e) ==> final(jobs)@ == old(jobs)@ && *final(count) == *old(count)
            && Some(e) == (
        if sender != config.owner && !config.spec_is_admin(sender) {
            Some(ContractError::Unauthorized)
        } else if old(jobs).as_map().contains_key(contract_address) && old(jobs).as_map()[contract_address].active {
            Some(ContractError::JobExist)
        } else {
            None
        }),
        r is Ok <==> (sender == config.owner || config.spec_is_admin(sender)) && !(old(jobs).as_map().contains_key(contract_address) && old(jobs).as_map()[contract_address].active),
        r is Ok ==> *final(count) == *old(count) + 1 && final(jobs).as_map() == old(jobs).as_map().insert(
            contract_address,
            Job {
                owner: sender,
                name,
                contract: contract_address,
                active: true,
                job_id: (*old(count) + 1) as u64,
            },
        ),
{
    if !config.is_owner(sender) && !config.is_admin(sender) {
        return Err(ContractError::Unauthorized);
    }
    proof {
        jobs.lemma_view_map();
    }
    let already_active = match jobs.get(contract_address) {
        Some(j) => j.active,
        None => false,
    };
    if already_active {
        return Err(ContractError::JobExist);
    }
    *count = *count + 1;
    let job = Job {
        owner: sender,
        name,
        contract: contract_address,
        active: true,
        job_id: *count,
    };
    jobs.save(contract_address, job);
    Ok(())
}

/// Unregisters a job.  The registry's owner, an admin, or the job's own
/// registrant may remove it.
pub fn try_remove_job(
    jobs: &mut Table<Job>,
    config: &Config,
    sender: u64,
    contract_address: u64,
) -> (r: Result<(), ContractError>)
    requires
        old(jobs).wf(),
    ensures
        final(jobs).wf(),
        r matches Err(e) ==> final(jobs)@ == old(jobs)@ && Some(e) == (
        if !old(jobs).as_map().contains_key(contract_address) {
            Some(ContractError::JobNotFound)
        } else if sender != config.owner && !config.spec_is_admin(sender) && old(jobs).as_map()[contract_address].owner != sender {
            Some(ContractError::Unauthorized)
        } else {
            None
        }),
        r is Ok <==> old(jobs).as_map().contains_key(contract_address) && (sender
            == config.owner || config.spec_is_admin(sender) || old(jobs).as_map()[contract_address].owner == sender),
        r is Ok ==> final(jobs).as_map() == old(jobs).as_map().remove(contract_address),
{
    proof {
        jobs.lemma_view_map();
    }
    let job_owner: Option<u64> = match jobs.get(contract_address) {
        Some(j) => Some(j.owner),
        None => None,
    };
    match job_owner {
        None => Err(ContractError::JobNotFound),
        Some(owner) => {
            if !config.is_owner(sender) && !config.is_admin(sender) && owner != sender {
                return Err(ContractError::Unauthorized);
            }
            jobs.remove(contract_address);
            Ok(())
        },
    }
}

/// Funds a registered job with credits: the attached coins merge into the
/// contract's balance.  The job must exist; anyone may fund it.
pub fn try_add_credits(
    jobs: &Table<Job>,
    credits: &mut Table<Vec<Coin>>,
    contract_address: u64,
    funds: Vec<Coin>,
) -> (r: Result<(), ContractError>)
    requires
        jobs.wf(),
        old(credits).wf(),
        spec_add_coins(
            if old(credits).as_map().contains_key(contract_address) {
                old(credits).as_map()[contract_address]@
            } else {
                Seq::<Coin>::empty()
            },
            funds@,
        ) is Some,
    ensures
        final(credits).wf(),
        r is Err <==> !jobs.as_map().contains_key(contract_address),
        r matches Err(e) ==> e == ContractError::JobNotFound && final(credits)@ == old(credits)@,
        r is Ok ==> final(credits).as_map().contains_key(contract_address) && Some(
            final(credits).as_map()[contract_address]@,
        ) == spec_add_coins(
            if old(credits).as_map().contains_key(contract_address) {
                old(credits).as_map()[contract_address]@
            } else {
                Seq::<Coin>::empty()
            },
            funds@,
        ),
        r is Ok ==> forall|k: u64| k != contract_address ==> (#[trigger] final(credits).as_map().contains_key(k) == old(credits).as_map().contains_key(k) && (old(credits).as_map().contains_key(k) ==> final(credits).as_map()[k] == old(credits).as_map()[k])),
{
    proof {
        jobs.lemma_view_map();
        credits.lemma_view_map();
    }
    let job_exists = match jobs.get(contract_address) {
        Some(_) => true,
        None => false,
    };
    if !job_exists {
        return Err(ContractError::JobNotFound);
    }
    let mut balance: Vec<Coin> = match credits.get(contract_address) {
        Some(b) => copy_coins(b),
        None => Vec::new(),
    };
    let _ok = add_coins(&mut balance, &funds);
    credits.save(contract_address, balance);
    Ok(())
}

/// A completed work receipt from a registered contract: deducts the
/// configured base fee from the contract's credits and pays the worker
/// the supplied post-tax fee coins.  With no base fee configured nothing
/// is deducted and nothing is paid.
pub fn try_work_receipt(
    jobs: &Table<Job>,
    credits: &mut Table<Vec<Coin>>,
    config: &Config,
    sender: u64,
    worker_address: u64,
    fees_after_tax: Vec<Coin>,
) -> (r: Result<Response, ContractError>)
    requires
        jobs.wf(),
        old(credits).wf(),
    ensures
        final(credits).wf(),
        r matches Err(e) ==> final(credits)@ == old(credits)@ && Some(e) == (
        if !(jobs.as_map().contains_key(sender) && jobs.as_map()[sender].active) {
            Some(ContractError::JobNotFound)
        } else if fees_after_tax@.len() > 0 && !(old(credits).as_map().contains_key(sender)
            && spec_sub_coins(old(credits).as_map()[sender]@, config.base_fee@) is Some) {
            Some(ContractError::JobInsufficientCredits)
        } else {
            None
        }),
        r is Ok <==> (jobs.as_map().contains_key(sender) && jobs.as_map()[sender].active && (
        fees_after_tax@.len() > 0 ==> old(credits).as_map().contains_key(sender)
            && spec_sub_coins(old(credits).as_map()[sender]@, config.base_fee@) is Some)),
        r is Ok && fees_after_tax@.len() == 0 ==> final(credits)@ == old(credits)@,
        r is Ok && fees_after_tax@.len() > 0 ==> final(credits).as_map().contains_key(sender)
            && Some(final(credits).as_map()[sender]@) == spec_sub_coins(
            old(credits).as_map()[sender]@,
            config.base_fee@,
        ),
        r matches Ok(resp) ==> resp.messages@.len() == (if fees_after_tax@.len() > 0 {
            1int
        } else {
            0int
        }) && (fees_after_tax@.len() > 0 ==> resp.messages@[0].to_address == worker_address
            && resp.messages@[0].amount@ == fees_after_tax@),
{
    proof {
        jobs.lemma_view_map();
        credits.lemma_view_map();
    }
    let job_live = match jobs.get(sender) {
        Some(j) => j.active,
        None => false,
    };
    if !job_live {
        return Err(ContractError::JobNotFound);
    }
    let mut messages: Vec<BankSend> = Vec::new();
    if fees_after_tax.len() > 0 {
        let mut balance: Vec<Coin> = match credits.get(sender) {
            Some(b) => copy_coins(b),
            None => {
                return Err(ContractError::JobInsufficientCredits);
            },
        };
        if !sub_coins(&mut balance, &config.base_fee) {
            return Err(ContractError::JobInsufficientCredits);
        }
        credits.save(sender, balance);
        messages.push(BankSend { to_address: worker_address, amount: fees_after_tax });
    }
    Ok(Response { messages })
}

/// Sets the base fee claimable by workers.  Only the owner may; once set,
/// jobs must be funded with credits.
pub fn try_set_base_fee(config: &mut Config, sender: u64, base_fee: Vec<Coin>) -> (r: Result<
    (),
    ContractError,
>)
    ensures
        r is Err <==> sender != old(config).owner,
        r matches Err(e) ==> e == ContractError::Unauthorized && *final(config) == *old(config),
        r is Ok ==> final(config).owner == old(config).owner && final(config).admins@ == old(config).admins@ && final(config).base_fee@ == base_fee@,
{
    if !config.is_owner(sender) {
        return Err(ContractError::Unauthorized);
    }
    config.base_fee = base_fee;
    Ok(())
}

/// Replaces the admin list.  Only the owner may, and the list must
/// respect the hard cap.
pub fn try_update_admins(config: &mut Config, sender: u64, admins: Vec<u64>) -> (r: Result<
    (),
    ContractError,
>)
    ensures
        r matches Err(e) ==> *final(config) == *old(config) && ((e
            == ContractError::Unauthorized && sender != old(config).owner) || (e
            == ContractError::InvalidParam && sender == old(config).owner && admins@.len()
            > MAXIMUM_ADMIN_LIST_SIZE)),
        r is Ok <==> sender == old(config).owner && admins@.len() <= MAXIMUM_ADMIN_LIST_SIZE,
        r is Ok ==> final(config).owner == old(config).owner && final(config).base_fee@ == old(config).base_fee@ && final(config).admins@ == admins@,
{
    if !config.is_owner(sender) {
        return Err(ContractError::Unauthorized);
    }
    if admins.len() > MAXIMUM_ADMIN_LIST_SIZE {
        return Err(ContractError::InvalidParam);
    }
    config.admins = admins;
    Ok(())
}

/// The operations of the job registry, as one closed set of message
/// variants; new operations extend the set, the dispatch match is
/// exhaustive.
#[derive(Clone, Debug)]
pub enum ExecuteMsg {
    AddJob { contract_address: u64, name: String },
    RemoveJob { contract_address: u64 },
    AddCredits { contract_address: u64 },
    WorkReceipt { worker_address: u64 },
    SetBaseFee { base_fee: Vec<Coin> },
    UpdateAdmins { admins: Vec<u64> },
}

/// The machine bounds the dispatched operation relies on, by variant: a
/// fresh job id must be available, and a credit deposit must still fit.
pub open spec fn spec_execute_fits(
    credits: Map<u64, Vec<Coin>>,
    count: u64,
    funds: Seq<Coin>,
    msg: ExecuteMsg,
) -> bool {
    match msg {
        ExecuteMsg::AddJob { .. } => count < u64::MAX,
        ExecuteMsg::AddCredits { contract_address } => spec_add_coins(
            if credits.contains_key(contract_address) {
                credits[contract_address]@
            } else {
                Seq::<Coin>::empty()
            },
            funds,
        ) is Some,
        _ => true,
    }
}

/// Routes one operation to its handler.  `funds` are the native coins
/// attached to the call (a credit deposit); `fees_after_tax` is the
/// payout the host computed from the configured base fee and the ledger's
/// tax terms, consumed by a work receipt.  Each arm's outcome is pinned
/// by the named operation's own contract.
pub fn execute(
    jobs: &mut Table<Job>,
    credits: &mut Table<Vec<Coin>>,
    config: &mut Config,
    count: &mut u64,
    sender: u64,
    funds: Vec<Coin>,
    fees_after_tax: Vec<Coin>,
    msg: ExecuteMsg,
) -> (r: Result<Response, ContractError>)
    requires
        old(jobs).wf(),
        old(credits).wf(),
        spec_execute_fits(old(credits).as_map(), *old(count), funds@, msg),
    ensures
        final(jobs).wf(),
        final(credits).wf(),
        !(msg matches ExecuteMsg::AddJob { .. }) ==> *final(count) == *old(count),
        !(msg matches ExecuteMsg::AddJob { .. } || msg matches ExecuteMsg::RemoveJob { .. })
            ==> final(jobs)@ == old(jobs)@,
        !(msg matches ExecuteMsg::AddCredits { .. } || msg matches ExecuteMsg::WorkReceipt {
            ..
        }) ==> final(credits)@ == old(credits)@,
        !(msg matches ExecuteMsg::SetBaseFee { .. } || msg matches ExecuteMsg::UpdateAdmins {
            ..
        }) ==> final(config).owner == old(config).owner && final(config).admins@ == old(config).admins@ && final(config).base_fee@ == old(config).base_fee@,
        msg matches ExecuteMsg::AddJob { contract_address, name } ==> {
            &&& (r is Ok <==> (sender == old(config).owner || old(config).spec_is_admin(sender))
                && !(old(jobs).as_map().contains_key(contract_address) && old(jobs).as_map()[contract_address].active))
            &&& (r is Ok ==> *final(count) == *old(count) + 1 && final(jobs).as_map() == old(jobs).as_map().insert(
                contract_address,
                Job {
                    owner: sender,
                    name,
                    contract: contract_address,
                    active: true,
                    job_id: (*old(count) + 1) as u64,
                },
            ))
            &&& (r is Err ==> final(jobs)@ == old(jobs)@ && *final(count) == *old(count))
        },
        msg matches ExecuteMsg::RemoveJob { contract_address } ==> {
            &&& (r is Ok <==> old(jobs).as_map().contains_key(contract_address) && (sender
                == old(config).owner || old(config).spec_is_admin(sender) || old(jobs).as_map()[contract_address].owner == sender))
            &&& (r is Ok ==> final(jobs).as_map() == old(jobs).as_map().remove(contract_address))
            &&& (r is Err ==> final(jobs)@ == old(jobs)@)
        },
        msg matches ExecuteMsg::AddCredits { contract_address } ==> {
            &&& (r is Err <==> !old(jobs).as_map().contains_key(contract_address))
            &&& (r is Ok ==> final(credits).as_map().contains_key(contract_address) && Some(
                final(credits).as_map()[contract_address]@,
            ) == spec_add_coins(
                if old(credits).as_map().contains_key(contract_address) {
                    old(credits).as_map()[contract_address]@
                } else {
                    Seq::<Coin>::empty()
                },
                funds@,
            ))
            &&& (r is Err ==> final(credits)@ == old(credits)@)
        },
        msg matches ExecuteMsg::WorkReceipt { worker_address } ==> {
            &&& (r is Ok <==> (old(jobs).as_map().contains_key(sender) && old(jobs).as_map()[sender].active && (fees_after_tax@.len() > 0 ==> old(credits).as_map().contains_key(sender) && spec_sub_coins(
                old(credits).as_map()[sender]@,
                old(config).base_fee@,
            ) is Some)))
            &&& (r is Ok && fees_after_tax@.len() > 0 ==> final(credits).as_map().contains_key(
                sender,
            ) && Some(final(credits).as_map()[sender]@) == spec_sub_coins(
                old(credits).as_map()[sender]@,
                old(config).base_fee@,
            ))
            &&& (r matches Ok(resp) ==> (fees_after_tax@.len() > 0 ==> resp.messages@.len() == 1
                && resp.messages@[0].to_address == worker_address && resp.messages@[0].amount@
                == fees_after_tax@))
            &&& (r is Err ==> final(credits)@ == old(credits)@)
        },
        msg matches ExecuteMsg::SetBaseFee { base_fee } ==> {
            &&& (r is Ok <==> sender == old(config).owner)
            &&& (r is Ok ==> final(config).base_fee@ == base_fee@ && final(config).owner == old(config).owner && final(config).admins@ == old(config).admins@)
            &&& (r is Err ==> *final(config) == *old(config))
        },
        msg matches ExecuteMsg::UpdateAdmins { admins } ==> {
            &&& (r is Ok <==> sender == old(config).owner && admins@.len()
                <= MAXIMUM_ADMIN_LIST_SIZE)
            &&& (r is Ok ==> final(config).admins@ == admins@ && final(config).owner == old(config).owner && final(config).base_fee@ == old(config).base_fee@)
            &&& (r is Err ==> *final(config) == *old(config))
        },
{
    match msg {
        ExecuteMsg::AddJob { contract_address, name } => {
            match try_add_job(jobs, count, config, sender, contract_address, name) {
                Ok(_) => Ok(Response { messages: Vec::new() }),
                Err(e) => Err(e),
            }
        },
        ExecuteMsg::RemoveJob { contract_address } => {
            match try_remove_job(jobs, config, sender, contract_address) {
                Ok(_) => Ok(Response { messages: Vec::new() }),
                Err(e) => Err(e),
            }
        },
        ExecuteMsg::AddCredits { contract_address } => {
            match try_add_credits(jobs, credits, contract_address, funds) {
                Ok(_) => Ok(Response { messages: Vec::new() }),
                Err(e) => Err(e),
            }
        },
        ExecuteMsg::WorkReceipt { worker_address } => try_work_receipt(
            jobs,
            credits,
            config,
            sender,
            worker_address,
            fees_after_tax,
        ),
        ExecuteMsg::SetBaseFee { base_fee } => {
            match try_set_base_fee(config, sender, base_fee) {
                Ok(_) => Ok(Response { messages: Vec::new() }),
                Err(e) => Err(e),
            }
        },
        ExecuteMsg::UpdateAdmins { admins } => {
            match try_update_admins(config, sender, admins) {
                Ok(_) => Ok(Response { messages: Vec::new() }),
                Err(e) => Err(e),
            }
        },
    }
}

/// Keeps the live jobs after the exclusive cursor.
pub open spec fn job_pred(start_after: Option<u64>) -> spec_fn((u64, Job)) -> bool {
    |e: (u64, Job)|
        e.1.active && (match start_after {
            None => true,
            Some(a) => e.0 > a,
        })
}

/// The live jobs, cursor-paginated: those whose key lies after
/// `start_after`, in ascending key order, cut to the requested page size.
pub fn query_all_jobs(
    jobs: &Table<Job>,
    start_after: Option<u64>,
    limit: Option<u32>,
) -> (r: AllJobsResponse)
    requires
        jobs.wf(),
    ensures
        r.jobs@.len() == take_at_most(
            jobs@.filter(job_pred(start_after)),
            spec_limit(limit),
        ).len(),
        forall|i: int| 0 <= i < r.jobs@.len() ==> {
            let e = take_at_most(jobs@.filter(job_pred(start_after)), spec_limit(limit))[i];
            (#[trigger] r.jobs@[i]).is_active == e.1.active && r.jobs@[i].contract_address
                == e.1.contract && r.jobs@[i].job_id == e.1.job_id && r.jobs@[i].owner
                == e.1.owner && r.jobs@[i].name == e.1.name
        },
{
    let ghost pred = job_pred(start_after);
    let lim = calc_limit(limit);
    let n = jobs.len();
    let mut out: Vec<JobInfo> = Vec::new();
    let mut i: usize = 0;
    while i < n
        invariant
            i <= n,
            n == jobs@.len(),
            jobs.wf(),
            lim == spec_limit(limit),
            pred == job_pred(start_after),
            out@.len() == take_at_most(jobs@.take(i as int).filter(pred), lim as int).len(),
            forall|x: int| 0 <= x < out@.len() ==> {
                let e = take_at_most(jobs@.take(i as int).filter(pred), lim as int)[x];
                (#[trigger] out@[x]).is_active == e.1.active && out@[x].contract_address
                    == e.1.contract && out@[x].job_id == e.1.job_id && out@[x].owner
                    == e.1.owner && out@[x].name == e.1.name
            },
            out@.len() <= lim,
        decreases n - i,
    {
        let e = jobs.entry_at(i);
        let keep = e.1.active && (match start_after {
            None => true,
            Some(a) => e.0 > a,
        });
        let ghost pre = jobs@.take(i as int).filter(pred);
        let ghost post = jobs@.take(i + 1).filter(pred);
        proof {
            crate::pagination::lemma_filter_take_step(jobs@, pred, i as int);
            assert(keep == pred(jobs@[i as int]));
        }
        if keep && out.len() < lim {
            out.push(JobInfo::from_job(&e.1));
            proof {
                assert(post == pre.push(jobs@[i as int]));
                assert(take_at_most(post, lim as int) =~= post);
            }
        } else {
            proof {
                if keep {
                    assert(post == pre.push(jobs@[i as int]));
                    assert(take_at_most(post, lim as int) =~= take_at_most(pre, lim as int));
                } else {
                    assert(post == pre);
                }
            }
        }
        i = i + 1;
    }
    proof {
        assert(jobs@.take(n as int) =~= jobs@);
    }
    AllJobsResponse { jobs: out }
}

/// The number of jobs ever registered.
pub fn query_num_jobs(count: &u64) -> (r: CountResponse)
    ensures
        r.count == *count,
{
    CountResponse { count: *count }
}

/// The job registered for a contract.
pub fn query_job(jobs: &Table<Job>, contract_address: u64) -> (r: Result<JobInfo, ContractError>)
    requires
        jobs.wf(),
    ensures
        r is Ok <==> jobs.as_map().contains_key(contract_address),
        r matches Err(e) ==> e == ContractError::JobNotFound,
        r matches Ok(info) ==> {
            let j = jobs.as_map()[contract_address];
            info.is_active == j.active && info.contract_address == j.contract && info.job_id
                == j.job_id && info.owner == j.owner && info.name == j.name
        },
{
    proof {
        jobs.lemma_view_map();
    }
    match jobs.get(contract_address) {
        Some(j) => Ok(JobInfo::from_job(j)),
        None => Err(ContractError::JobNotFound),
    }
}

/// The credits available to a contract's job.
pub fn query_job_credits(credits: &Table<Vec<Coin>>, contract_address: u64) -> (r: Result<
    Vec<Coin>,
    ContractError,
>)
    requires
        credits.wf(),
    ensures
        r is Ok <==> credits.as_map().contains_key(contract_address),
        r matches Ok(c) ==> c@ == credits.as_map()[contract_address]@,
        r matches Err(e) ==> e == ContractError::JobNotFound,
{
    proof {
        credits.lemma_view_map();
    }
    match credits.get(contract_address) {
        Some(b) => Ok(copy_coins(b)),
        None => Err(ContractError::JobNotFound),
    }
}

} // verus!
