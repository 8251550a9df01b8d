//! Delayed execution queue for sensitive router configuration changes.
//! Operations must wait a configurable minimum delay before execution.
//! Operations can be cancelled before execution.
//!
//! The queue is held as plain values: the admin, the minimum delay, the
//! queued operations keyed by their id, and the events published so far.
//! The caller's signature is checked by the host that runs the contract;
//! these methods see the caller's address and the ledger time as arguments.
use soroban_sdk::testutils::EnvTestConfig;
use soroban_sdk::{Bytes, Env};
use vstd::prelude::*;

verus! {

/// SHA-256 digest of `data`.
pub uninterp spec fn sha256_digest(data: Seq<u8>) -> Seq<u8>;

/// `soroban_sdk::crypto::Crypto::sha256` on `data`, computed in a fresh host
/// environment whose budget is lifted. Stated here: the digest is
/// `sha256_digest` of the bytes hashed (and, being an array, 32 bytes long).
#[verifier::external_body]
fn sha256(data: &[u8]) -> (digest: [u8; 32])
    requires
        data@.len() <= u32::MAX,
    ensures
        digest@ == sha256_digest(data@),
{
    let env = Env::new_with_config(EnvTestConfig { capture_snapshot_at_drop: false });
    env.cost_estimate().budget().reset_unlimited();
    let bytes = Bytes::from_slice(&env, data);
    env.crypto().sha256(&bytes).to_array()
}

/// What kind of ledger entity an address names.
#[derive(Clone, Copy, Debug, PartialEq, Eq, Structural)]
pub enum AddressKind {
    /// An account, named by its ed25519 public key.
    Account,
    /// A contract, named by its 32-byte id.
    Contract,
}

/// A Stellar address.
#[derive(Clone, Copy, Debug, PartialEq, Eq)]
pub struct Address {
    pub kind: AddressKind,
    pub key: [u8; 32],
}

/// A queued operation.
#[derive(Clone, Debug, PartialEq, Eq)]
pub struct Op {
    pub proposer: Address,
    pub description: Vec<u8>,
    pub target: Address,
    pub eta: u64,
    pub executed: bool,
    pub cancelled: bool,
}

/// An operation as plain values.
pub struct OpView {
    pub proposer: Address,
    pub description: Seq<u8>,
    pub target: Address,
    pub eta: u64,
    pub executed: bool,
    pub cancelled: bool,
}

/// Why a timelock call was refused.
#[derive(Clone, Copy, Debug, PartialEq, Eq, Structural)]
pub enum TimelockError {
    AlreadyInitialized,
    NotInitialized,
    Unauthorized,
    NotFound,
    NotReady,
    AlreadyExecuted,
    Cancelled,
    DelayTooShort,
}

/// An event the timelock publishes.
#[derive(Clone, Debug, PartialEq, Eq)]
pub enum TimelockEvent {
    /// `op_queued`, with the operation's id, target and eta.
    OpQueued { op_id: Vec<u8>, target: Address, eta: u64 },
    /// `op_cancelled`, with the operation's id.
    OpCancelled { op_id: Vec<u8> },
    /// `op_executed`, with the operation's id and target.
    OpExecuted { op_id: Vec<u8>, target: Address },
}

/// An event as plain values.
pub enum EventView {
    Queued(Seq<u8>, Address, u64),
    Cancelled(Seq<u8>),
    Executed(Seq<u8>, Address),
}

struct OpEntry {
    id: Vec<u8>,
    op: Op,
}

/// The timelock: its admin, minimum delay, queued operations and published events.
pub struct RouterTimelock {
    admin: Option<Address>,
    min_delay: Option<u64>,
    entries: Vec<OpEntry>,
    events: Vec<TimelockEvent>,
    ops: Ghost<Map<Seq<u8>, OpView>>,
}

/// The timelock's state as plain values.
pub struct TimelockState {
    pub admin: Option<Address>,
    pub min_delay: Option<u64>,
    pub ops: Map<Seq<u8>, OpView>,
    pub events: Seq<EventView>,
}

impl View for Op {
    type V = OpView;

    open spec fn view(&self) -> OpView {
        OpView {
            proposer: self.proposer,
            description: self.description@,
            target: self.target,
            eta: self.eta,
            executed: self.executed,
            cancelled: self.cancelled,
        }
    }
}

impl View for TimelockEvent {
    type V = EventView;

    open spec fn view(&self) -> EventView {
        match self {
            TimelockEvent::OpQueued { op_id, target, eta } => EventView::Queued(op_id@, *target, *eta),
            TimelockEvent::OpCancelled { op_id } => EventView::Cancelled(op_id@),
            TimelockEvent::OpExecuted { op_id, target } => EventView::Executed(op_id@, *target),
        }
    }
}

impl View for RouterTimelock {
    type V = TimelockState;

    closed spec fn view(&self) -> TimelockState {
        TimelockState {
            admin: self.admin,
            min_delay: self.min_delay,
            ops: self.ops@,
            events: self.events@.map_values(|e: TimelockEvent| e@),
        }
    }
}

/// `x` as eight big-endian bytes.
pub open spec fn be_bytes(x: u64) -> Seq<u8> {
    let v = x as int;
    seq![
        ((v / 0x100000000000000) % 256) as u8,
        ((v / 0x1000000000000) % 256) as u8,
        ((v / 0x10000000000) % 256) as u8,
        ((v / 0x100000000) % 256) as u8,
        ((v / 0x1000000) % 256) as u8,
        ((v / 0x10000) % 256) as u8,
        ((v / 0x100) % 256) as u8,
        (v % 256) as u8,
    ]
}

/// The XDR encoding of an address as a contract value (`ScVal::Address`):
/// the value tag 18, the address tag (0 account, 1 contract), for an account
/// the key type tag 0, then the 32 key bytes; each tag a big-endian u32.
pub open spec fn address_xdr(a: Address) -> Seq<u8> {
    match a.kind {
        AddressKind::Account => seq![0u8, 0, 0, 18, 0, 0, 0, 0, 0, 0, 0, 0] + a.key@,
        AddressKind::Contract => seq![0u8, 0, 0, 18, 0, 0, 0, 1] + a.key@,
    }
}

/// The bytes an operation's id is the digest of: its description, its
/// target's XDR and its eta in big-endian order.
pub open spec fn op_preimage(description: Seq<u8>, target: Address, eta: u64) -> Seq<u8> {
    description + address_xdr(target) + be_bytes(eta)
}

/// The id of an operation: SHA-256 of its preimage.
pub open spec fn op_id_for(description: Seq<u8>, target: Address, eta: u64) -> Seq<u8> {
    sha256_digest(op_preimage(description, target, eta))
}

/// The refusal, if any, of a call made by `caller` that only the admin may make.
pub open spec fn admin_refusal(s: TimelockState, caller: Address) -> Option<TimelockError> {
    match s.admin {
        None => Some(TimelockError::NotInitialized),
        Some(a) => if a == caller {
            None
        } else {
            Some(TimelockError::Unauthorized)
        },
    }
}

/// The refusal, if any, of queueing with `delay` by `proposer`.
pub open spec fn queue_refusal(s: TimelockState, proposer: Address, delay: u64) -> Option<
    TimelockError,
> {
    match admin_refusal(s, proposer) {
        Some(e) => Some(e),
        None => match s.min_delay {
            None => Some(TimelockError::NotInitialized),
            Some(m) => if delay < m {
                Some(TimelockError::DelayTooShort)
            } else {
                None
            },
        },
    }
}

/// The refusal, if any, of storing an operation under `op_id` again:
/// operations are one-shot, so an executed or cancelled one is never replaced.
pub open spec fn replay_refusal(s: TimelockState, op_id: Seq<u8>) -> Option<TimelockError> {
    if s.ops.contains_key(op_id) && s.ops[op_id].executed {
        Some(TimelockError::AlreadyExecuted)
    } else if s.ops.contains_key(op_id) && s.ops[op_id].cancelled {
        Some(TimelockError::Cancelled)
    } else {
        None
    }
}

/// The state after an operation is stored under `op_id`, not executed nor
/// cancelled, and `op_queued` is published.
pub open spec fn after_queue(
    s: TimelockState,
    proposer: Address,
    description: Seq<u8>,
    target: Address,
    eta: u64,
    op_id: Seq<u8>,
) -> TimelockState {
    TimelockState {
        ops: s.ops.insert(
            op_id,
            OpView { proposer, description, target, eta, executed: false, cancelled: false },
        ),
        events: s.events.push(EventView::Queued(op_id, target, eta)),
        ..s
    }
}

/// The refusal, if any, of cancelling `op_id` by `caller`.
pub open spec fn cancel_refusal(s: TimelockState, caller: Address, op_id: Seq<u8>) -> Option<
    TimelockError,
> {
    match admin_refusal(s, caller) {
        Some(e) => Some(e),
        None => if !s.ops.contains_key(op_id) {
            Some(TimelockError::NotFound)
        } else if s.ops[op_id].executed {
            Some(TimelockError::AlreadyExecuted)
        } else if s.ops[op_id].cancelled {
            Some(TimelockError::Cancelled)
        } else {
            None
        },
    }
}

/// The state after `op_id` is marked cancelled and `op_cancelled` is published.
pub open spec fn after_cancel(s: TimelockState, op_id: Seq<u8>) -> TimelockState {
    TimelockState {
        ops: s.ops.insert(op_id, OpView { cancelled: true, ..s.ops[op_id] }),
        events: s.events.push(EventView::Cancelled(op_id)),
        ..s
    }
}

/// The refusal, if any, of executing `op_id` by `caller` at time `now`.
pub open spec fn execute_refusal(s: TimelockState, caller: Address, op_id: Seq<u8>, now: u64) -> Option<
    TimelockError,
> {
    match admin_refusal(s, caller) {
        Some(e) => Some(e),
        None => if !s.ops.contains_key(op_id) {
            Some(TimelockError::NotFound)
        } else if s.ops[op_id].cancelled {
            Some(TimelockError::Cancelled)
        } else if s.ops[op_id].executed {
            Some(TimelockError::AlreadyExecuted)
        } else if now < s.ops[op_id].eta {
            Some(TimelockError::NotReady)
        } else {
            None
        },
    }
}

/// The state after `op_id` is marked executed and `op_executed` is published.
pub open spec fn after_execute(s: TimelockState, op_id: Seq<u8>) -> TimelockState {
    TimelockState {
        ops: s.ops.insert(op_id, OpView { executed: true, ..s.ops[op_id] }),
        events: s.events.push(EventView::Executed(op_id, s.ops[op_id].target)),
        ..s
    }
}

/// Whether two addresses are the same.
pub fn same_address(a: &Address, b: &Address) -> (r: bool)
    ensures
        r == (*a == *b),
{
    if a.kind != b.kind {
        return false;
    }
    let mut i: usize = 0;
    while i < 32
        invariant
            i <= 32,
            forall|j: int| 0 <= j < i ==> a.key@[j] == b.key@[j],
        decreases 32 - i,
    {
        if a.key[i] != b.key[i] {
            assert(a.key@ != b.key@);
            return false;
        }
        i = i + 1;
    }
    proof {
        broadcast use vstd::array::axiom_array_ext_equal;

        assert(a.key =~= b.key);
    }
    true
}

/// Whether two byte strings are equal.
fn same_bytes(a: &Vec<u8>, b: &Vec<u8>) -> (r: bool)
    ensures
        r == (a@ == b@),
{
    if a.len() != b.len() {
        return false;
    }
    let mut i: usize = 0;
    while i < a.len()
        invariant
            a@.len() == b@.len(),
            i <= a@.len(),
            forall|j: int| 0 <= j < i ==> a@[j] == b@[j],
        decreases a@.len() - i,
    {
        if a[i] != b[i] {
            return false;
        }
        i = i + 1;
    }
    assert(a@ =~= b@);
    true
}

/// A copy of `v`.
fn copy_bytes(v: &Vec<u8>) -> (r: Vec<u8>)
    ensures
        r@ == v@,
{
    let r = v.clone();
    assert(r@ =~= v@);
    r
}

/// `x` as eight big-endian bytes (`u64::to_be_bytes`).
pub fn u64_be_bytes(x: u64) -> (b: Vec<u8>)
    ensures
        b@ == be_bytes(x),
{
    let b0 = ((x >> 56) & 0xff) as u8;
    let b1 = ((x >> 48) & 0xff) as u8;
    let b2 = ((x >> 40) & 0xff) as u8;
    let b3 = ((x >> 32) & 0xff) as u8;
    let b4 = ((x >> 24) & 0xff) as u8;
    let b5 = ((x >> 16) & 0xff) as u8;
    let b6 = ((x >> 8) & 0xff) as u8;
    let b7 = (x & 0xff) as u8;
    assert(((x >> 56) & 0xff) == (x / 0x100000000000000) % 256) by (bit_vector);
    assert(((x >> 48) & 0xff) == (x / 0x1000000000000) % 256) by (bit_vector);
    assert(((x >> 40) & 0xff) == (x / 0x10000000000) % 256) by (bit_vector);
    assert(((x >> 32) & 0xff) == (x / 0x100000000) % 256) by (bit_vector);
    assert(((x >> 24) & 0xff) == (x / 0x1000000) % 256) by (bit_vector);
    assert(((x >> 16) & 0xff) == (x / 0x10000) % 256) by (bit_vector);
    assert(((x >> 8) & 0xff) == (x / 0x100) % 256) by (bit_vector);
    assert((x & 0xff) == x % 256) by (bit_vector);
    let b = vec![b0, b1, b2, b3, b4, b5, b6, b7];
    assert(b@ =~= be_bytes(x));
    b
}

/// The XDR encoding of `a` as a contract value (`Address::to_xdr`).
pub fn address_to_xdr(a: &Address) -> (x: Vec<u8>)
    ensures
        x@ == address_xdr(*a),
{
    let mut x: Vec<u8> = match a.kind {
        AddressKind::Account => vec![0u8, 0, 0, 18, 0, 0, 0, 0, 0, 0, 0, 0],
        AddressKind::Contract => vec![0u8, 0, 0, 18, 0, 0, 0, 1],
    };
    let ghost head = x@;
    let mut i: usize = 0;
    while i < 32
        invariant
            i <= 32,
            x@ == head + a.key@.take(i as int),
        decreases 32 - i,
    {
        x.push(a.key[i]);
        proof {
            assert(a.key@.take(i + 1) =~= a.key@.take(i as int).push(a.key@[i as int]));
        }
        i = i + 1;
    }
    proof {
        assert(a.key@.take(32) =~= a.key@);
        assert(x@ =~= address_xdr(*a));
    }
    x
}

/// The bytes an operation's id is derived from: its description, its
/// target's XDR and its eta in big-endian order.
pub fn op_preimage_bytes(description: &Vec<u8>, target: &Address, eta: u64) -> (p: Vec<u8>)
    requires
        description@.len() <= usize::MAX - 64,
    ensures
        p@ == op_preimage(description@, *target, eta),
{
    let mut p = copy_bytes(description);
    let mut tail = address_to_xdr(target);
    p.append(&mut tail);
    let mut eta_bytes = u64_be_bytes(eta);
    p.append(&mut eta_bytes);
    assert(p@ =~= op_preimage(description@, *target, eta));
    p
}

/// The id of an operation: SHA-256 of its description, target and eta.
pub fn op_id(description: &Vec<u8>, target: &Address, eta: u64) -> (id: Vec<u8>)
    requires
        description@.len() <= u32::MAX - 64,
    ensures
        id@ == op_id_for(description@, *target, eta),
        id@.len() == 32,
{
    let preimage = op_preimage_bytes(description, target, eta);
    let digest = sha256(preimage.as_slice());
    let mut id: Vec<u8> = Vec::new();
    let mut i: usize = 0;
    while i < 32
        invariant
            i <= 32,
            id@ == digest@.take(i as int),
        decreases 32 - i,
    {
        id.push(digest[i]);
        proof {
            assert(digest@.take(i + 1) =~= digest@.take(i as int).push(digest@[i as int]));
        }
        i = i + 1;
    }
    assert(digest@.take(32) =~= digest@);
    id
}

impl Op {
    /// A copy of this operation.
    fn copied(&self) -> (r: Op)
        ensures
            r@ == self@,
    {
        Op {
            proposer: self.proposer,
            description: copy_bytes(&self.description),
            target: self.target,
            eta: self.eta,
            executed: self.executed,
            cancelled: self.cancelled,
        }
    }
}

impl TimelockEvent {
    /// The topic under which this event is published.
    pub fn topic(&self) -> (t: &'static str)
        ensures
            t@ == match self {
                TimelockEvent::OpQueued { .. } => "op_queued"@,
                TimelockEvent::OpCancelled { .. } => "op_cancelled"@,
                TimelockEvent::OpExecuted { .. } => "op_executed"@,
            },
    {
        match self {
            TimelockEvent::OpQueued { .. } => "op_queued",
            TimelockEvent::OpCancelled { .. } => "op_cancelled",
            TimelockEvent::OpExecuted { .. } => "op_executed",
        }
    }
}

impl RouterTimelock {
    /// The entries and the operation map agree: ids are distinct and each
    /// maps to its operation; admin and minimum delay are set together.
    pub closed spec fn wf(&self) -> bool {
        &&& (self.admin is Some <==> self.min_delay is Some)
        &&& forall|i: int, j: int|
            0 <= i < j < self.entries@.len() ==> self.entries@[i].id@ != self.entries@[j].id@
        &&& forall|i: int|
            0 <= i < self.entries@.len() ==> {
                &&& #[trigger] self.ops@.contains_key(self.entries@[i].id@)
                &&& self.ops@[self.entries@[i].id@] == self.entries@[i].op@
            }
        &&& forall|k: Seq<u8>|
            #[trigger] self.ops@.contains_key(k) ==> exists|i: int|
                0 <= i < self.entries@.len() && self.entries@[i].id@ == k
    }

    /// A timelock that is not initialized yet.
    pub fn new() -> (t: RouterTimelock)
        ensures
            t.wf(),
            t@.admin is None,
            t@.min_delay is None,
            t@.ops == Map::<Seq<u8>, OpView>::empty(),
            t@.events == Seq::<EventView>::empty(),
    {
        let t = RouterTimelock {
            admin: None,
            min_delay: None,
            entries: Vec::new(),
            events: Vec::new(),
            ops: Ghost(Map::empty()),
        };
        assert(t@.events =~= Seq::<EventView>::empty());
        t
    }

    /// Initialize with an admin and minimum delay (seconds).
    pub fn initialize(&mut self, admin: Address, min_delay: u64) -> (r: Result<(), TimelockError>)
        requires
            old(self).wf(),
        ensures
            final(self).wf(),
            old(self)@.admin is Some ==> r == Err::<(), TimelockError>(
                TimelockError::AlreadyInitialized,
            ) && final(self)@ == old(self)@,
            old(self)@.admin is None ==> r is Ok && final(self)@ == (TimelockState {
                admin: Some(admin),
                min_delay: Some(min_delay),
                ..old(self)@
            }),
    {
        if self.admin.is_some() {
            return Err(TimelockError::AlreadyInitialized);
        }
        self.admin = Some(admin);
        self.min_delay = Some(min_delay);
        Ok(())
    }

    /// Refuses `caller` unless the timelock is initialized and `caller` is its admin.
    fn require_admin(&self, caller: &Address) -> (r: Result<(), TimelockError>)
        ensures
            match admin_refusal(self@, *caller) {
                Some(e) => r == Err::<(), TimelockError>(e),
                None => r is Ok,
            },
    {
        match &self.admin {
            None => Err(TimelockError::NotInitialized),
            Some(a) => if same_address(a, caller) {
                Ok(())
            } else {
                Err(TimelockError::Unauthorized)
            },
        }
    }

    /// The position of `op_id` among the stored operations.
    fn find(&self, op_id: &Vec<u8>) -> (r: Option<usize>)
        requires
            self.wf(),
        ensures
            match r {
                Some(i) => i < self.entries@.len() && self.entries@[i as int].id@ == op_id@
                    && self@.ops.contains_key(op_id@) && self@.ops[op_id@]
                    == self.entries@[i as int].op@,
                None => !self@.ops.contains_key(op_id@),
            },
    {
        let mut i: usize = 0;
        while i < self.entries.len()
            invariant
                self.wf(),
                i <= self.entries@.len(),
                forall|j: int| 0 <= j < i ==> self.entries@[j].id@ != op_id@,
            decreases self.entries@.len() - i,
        {
            if same_bytes(&self.entries[i].id, op_id) {
                assert(self.ops@.contains_key(self.entries@[i as int].id@));
                return Some(i);
            }
            i = i + 1;
        }
        None
    }

    /// The refusal, if any, of queueing with `delay` by `proposer`.
    fn queue_check(&self, proposer: &Address, delay: u64) -> (r: Option<TimelockError>)
        ensures
            r == queue_refusal(self@, *proposer, delay),
    {
        if let Err(e) = self.require_admin(proposer) {
            return Some(e);
        }
        match self.min_delay {
            None => Some(TimelockError::NotInitialized),
            Some(m) => if delay < m {
                Some(TimelockError::DelayTooShort)
            } else {
                None
            },
        }
    }

    /// Queue an operation. Returns the op_id (SHA-256 of description + target + eta).
    /// An operation with that id that was already executed or cancelled is
    /// not queued again. Emits `op_queued` with `(op_id, target, eta)`.
    pub fn queue(
        &mut self,
        proposer: &Address,
        description: Vec<u8>,
        target: Address,
        delay: u64,
        _deps: &Vec<Vec<u8>>,
        now: u64,
    ) -> (r: Result<Vec<u8>, TimelockError>)
        requires
            old(self).wf(),
            description@.len() <= u32::MAX - 64,
            queue_refusal(old(self)@, *proposer, delay) is None ==> now + delay <= u64::MAX,
        ensures
            final(self).wf(),
            match queue_refusal(old(self)@, *proposer, delay) {
                Some(e) => r == Err::<Vec<u8>, TimelockError>(e) && final(self)@ == old(self)@,
                None => {
                    let id = op_id_for(description@, target, (now + delay) as u64);
                    match replay_refusal(old(self)@, id) {
                        Some(e) => r == Err::<Vec<u8>, TimelockError>(e) && final(self)@ == old(self)@,
                        None => r matches Ok(out) && out@ == id && out@.len() == 32 && final(self)@ == after_queue(
                            old(self)@,
                            *proposer,
                            description@,
                            target,
                            (now + delay) as u64,
                            id,
                        ),
                    }
                },
            },
    {
        if let Some(e) = self.queue_check(proposer, delay) {
            return Err(e);
        }
        let eta = now + delay;
        let id = op_id(&description, &target, eta);
        self.queue_with_id(proposer, description, target, delay, now, id)
    }

    /// Queue an operation under the id `op_id`, which `queue` derives from the
    /// description, target and eta. Operations are one-shot: an executed or
    /// cancelled operation under that id is not replaced (`AlreadyExecuted`,
    /// `Cancelled`); a pending one is. Emits `op_queued` with `(op_id, target, eta)`.
    pub fn queue_with_id(
        &mut self,
        proposer: &Address,
        description: Vec<u8>,
        target: Address,
        delay: u64,
        now: u64,
        op_id: Vec<u8>,
    ) -> (r: Result<Vec<u8>, TimelockError>)
        requires
            old(self).wf(),
            queue_refusal(old(self)@, *proposer, delay) is None ==> now + delay <= u64::MAX,
        ensures
            final(self).wf(),
            match queue_refusal(old(self)@, *proposer, delay) {
                Some(e) => r == Err::<Vec<u8>, TimelockError>(e) && final(self)@ == old(self)@,
                None => match replay_refusal(old(self)@, op_id@) {
                    Some(e) => r == Err::<Vec<u8>, TimelockError>(e) && final(self)@ == old(self)@,
                    None => r matches Ok(id) && id@ == op_id@ && final(self)@ == after_queue(
                        old(self)@,
                        *proposer,
                        description@,
                        target,
                        (now + delay) as u64,
                        op_id@,
                    ),
                },
            },
    {
        if let Some(e) = self.queue_check(proposer, delay) {
            return Err(e);
        }
        if let Some(i) = self.find(&op_id) {
            if self.entries[i].op.executed {
                return Err(TimelockError::AlreadyExecuted);
            }
            if self.entries[i].op.cancelled {
                return Err(TimelockError::Cancelled);
            }
        }
        let eta = now + delay;
        let op = Op {
            proposer: *proposer,
            description,
            target,
            eta,
            executed: false,
            cancelled: false,
        };
        let ghost old_view = self@;
        let ghost new_op = op@;
        self.store(copy_bytes(&op_id), op);
        self.events.push(TimelockEvent::OpQueued { op_id: copy_bytes(&op_id), target, eta });
        proof {
            assert(self@.events =~= old_view.events.push(EventView::Queued(op_id@, target, eta)));
            assert(self@.ops == old_view.ops.insert(op_id@, new_op));
            assert(self@ == after_queue(old_view, *proposer, new_op.description, target, eta, op_id@));
        }
        Ok(op_id)
    }

    /// Stores `op` under `id`, replacing what was stored there.
    fn store(&mut self, id: Vec<u8>, op: Op)
        requires
            old(self).wf(),
        ensures
            final(self).wf(),
            final(self)@ == (TimelockState { ops: old(self)@.ops.insert(id@, op@), ..old(self)@ }),
            final(self).events == old(self).events,
    {
        let ghost old_ops = self.ops@;
        let ghost op_view = op@;
        match self.find(&id) {
            Some(i) => {
                let ghost old_entries = self.entries@;
                self.entries.set(i, OpEntry { id, op });
                proof {
                    self.ops@ = old_ops.insert(self.entries@[i as int].id@, op_view);
                    assert forall|k: Seq<u8>| #[trigger] self.ops@.contains_key(k) implies exists|
                        j: int,
                    | 0 <= j < self.entries@.len() && self.entries@[j].id@ == k by {
                        if k != self.entries@[i as int].id@ {
                            let j = choose|j: int|
                                0 <= j < old_entries.len() && old_entries[j].id@ == k;
                            assert(self.entries@[j].id@ == k);
                        }
                    }
                    assert forall|a: int, b: int|
                        0 <= a < b < self.entries@.len() implies self.entries@[a].id@
                        != self.entries@[b].id@ by {
                        assert(old_entries[a].id@ != old_entries[b].id@);
                    }
                    assert forall|j: int| 0 <= j < self.entries@.len() implies {
                        &&& #[trigger] self.ops@.contains_key(self.entries@[j].id@)
                        &&& self.ops@[self.entries@[j].id@] == self.entries@[j].op@
                    } by {
                        if j != i {
                            assert(old_entries[j].id@ != old_entries[i as int].id@);
                        }
                    }
                }
            },
            None => {
                let ghost old_entries = self.entries@;
                let ghost key = id@;
                self.entries.push(OpEntry { id, op });
                proof {
                    self.ops@ = old_ops.insert(key, op_view);
                    let n = old_entries.len() as int;
                    assert forall|k: Seq<u8>| #[trigger] self.ops@.contains_key(k) implies exists|
                        j: int,
                    | 0 <= j < self.entries@.len() && self.entries@[j].id@ == k by {
                        if k != key {
                            let j = choose|j: int|
                                0 <= j < old_entries.len() && old_entries[j].id@ == k;
                            assert(self.entries@[j].id@ == k);
                        } else {
                            assert(self.entries@[n].id@ == k);
                        }
                    }
                    assert forall|a: int, b: int|
                        0 <= a < b < self.entries@.len() implies self.entries@[a].id@
                        != self.entries@[b].id@ by {
                        if b == n {
                            assert(old_ops.contains_key(old_entries[a].id@));
                        } else {
                            assert(old_entries[a].id@ != old_entries[b].id@);
                        }
                    }
                    assert forall|j: int| 0 <= j < self.entries@.len() implies {
                        &&& #[trigger] self.ops@.contains_key(self.entries@[j].id@)
                        &&& self.ops@[self.entries@[j].id@] == self.entries@[j].op@
                    } by {
                        if j < n {
                            assert(old_ops.contains_key(old_entries[j].id@));
                            assert(old_entries[j].id@ != key);
                        }
                    }
                }
            },
        }
    }

    /// Cancel a queued operation before it is executed.
    /// Emits `op_cancelled` with the op_id.
    pub fn cancel(&mut self, caller: &Address, op_id: &Vec<u8>) -> (r: Result<(), TimelockError>)
        requires
            old(self).wf(),
        ensures
            final(self).wf(),
            match cancel_refusal(old(self)@, *caller, op_id@) {
                Some(e) => r == Err::<(), TimelockError>(e) && final(self)@ == old(self)@,
                None => r is Ok && final(self)@ == after_cancel(old(self)@, op_id@),
            },
    {
        self.require_admin(caller)?;
        let i = match self.find(op_id) {
            Some(i) => i,
            None => {
                return Err(TimelockError::NotFound);
            },
        };
        if self.entries[i].op.executed {
            return Err(TimelockError::AlreadyExecuted);
        }
        if self.entries[i].op.cancelled {
            return Err(TimelockError::Cancelled);
        }
        let mut op = self.entries[i].op.copied();
        op.cancelled = true;
        let ghost old_view = self@;
        self.store(copy_bytes(op_id), op);
        self.events.push(TimelockEvent::OpCancelled { op_id: copy_bytes(op_id) });
        proof {
            assert(self@.events =~= old_view.events.push(EventView::Cancelled(op_id@)));
            assert(self@ == after_cancel(old_view, op_id@));
        }
        Ok(())
    }

    /// Execute a queued operation after its ETA has passed.
    /// Emits `op_executed` with the op_id and target.
    pub fn execute(&mut self, caller: &Address, op_id: &Vec<u8>, now: u64) -> (r: Result<
        (),
        TimelockError,
    >)
        requires
            old(self).wf(),
        ensures
            final(self).wf(),
            match execute_refusal(old(self)@, *caller, op_id@, now) {
                Some(e) => r == Err::<(), TimelockError>(e) && final(self)@ == old(self)@,
                None => r is Ok && final(self)@ == after_execute(old(self)@, op_id@),
            },
    {
        self.require_admin(caller)?;
        let i = match self.find(op_id) {
            Some(i) => i,
            None => {
                return Err(TimelockError::NotFound);
            },
        };
        if self.entries[i].op.cancelled {
            return Err(TimelockError::Cancelled);
        }
        if self.entries[i].op.executed {
            return Err(TimelockError::AlreadyExecuted);
        }
        if now < self.entries[i].op.eta {
            return Err(TimelockError::NotReady);
        }
        let mut op = self.entries[i].op.copied();
        op.executed = true;
        let target = op.target;
        let ghost old_view = self@;
        self.store(copy_bytes(op_id), op);
        self.events.push(TimelockEvent::OpExecuted { op_id: copy_bytes(op_id), target });
        proof {
            assert(self@.events =~= old_view.events.push(EventView::Executed(op_id@, target)));
            assert(self@ == after_execute(old_view, op_id@));
        }
        Ok(())
    }

    /// Get an operation by id.
    pub fn get_op(&self, op_id: &Vec<u8>) -> (r: Option<Op>)
        requires
            self.wf(),
        ensures
            match r {
                Some(op) => self@.ops.contains_key(op_id@) && op@ == self@.ops[op_id@],
                None => !self@.ops.contains_key(op_id@),
            },
    {
        match self.find(op_id) {
            Some(i) => Some(self.entries[i].op.copied()),
            None => None,
        }
    }

    /// Get the minimum delay (0 before initialization).
    pub fn min_delay(&self) -> (d: u64)
        ensures
            d == match self@.min_delay {
                Some(m) => m,
                None => 0,
            },
    {
        match self.min_delay {
            Some(m) => m,
            None => 0,
        }
    }

    /// Get the admin.
    pub fn admin(&self) -> (a: Address)
        requires
            self@.admin is Some,
        ensures
            Some(a) == self@.admin,
    {
        self.admin.unwrap()
    }

    /// The events published so far, oldest first.
    pub fn events(&self) -> (e: &Vec<TimelockEvent>)
        ensures
            e@.map_values(|ev: TimelockEvent| ev@) == self@.events,
    {
        &self.events
    }
}

/// Only the admin changes the queue: when the timelock is initialized, a
/// caller other than its admin is refused with `Unauthorized` by `queue`,
/// `cancel` and `execute`, whatever the operation.
pub proof fn law_only_admin(
    s: TimelockState,
    caller: Address,
    delay: u64,
    op_id: Seq<u8>,
    now: u64,
)
    requires
        s.admin matches Some(a) && a != caller,
    ensures
        queue_refusal(s, caller, delay) == Some(TimelockError::Unauthorized),
        cancel_refusal(s, caller, op_id) == Some(TimelockError::Unauthorized),
        execute_refusal(s, caller, op_id, now) == Some(TimelockError::Unauthorized),
{
}

/// A queued operation is stored as proposed, neither executed nor cancelled,
/// with an eta of at least the queueing time plus the minimum delay.
pub proof fn law_queued_op_is_pending(
    s: TimelockState,
    proposer: Address,
    description: Seq<u8>,
    target: Address,
    delay: u64,
    now: u64,
    op_id: Seq<u8>,
)
    requires
        queue_refusal(s, proposer, delay) is None,
        now + delay <= u64::MAX,
    ensures
        ({
            let t = after_queue(s, proposer, description, target, (now + delay) as u64, op_id);
            &&& t.ops.contains_key(op_id)
            &&& t.ops[op_id] == (OpView {
                proposer,
                description,
                target,
                eta: (now + delay) as u64,
                executed: false,
                cancelled: false,
            })
            &&& t.ops[op_id].eta >= now + s.min_delay->0
        }),
{
}

/// An operation cannot run before the minimum delay has passed since it was
/// queued: once queued at `queued_at`, `execute` succeeds only at a time no
/// earlier than `queued_at` plus the minimum delay.
pub proof fn law_execute_waits_min_delay(
    s: TimelockState,
    proposer: Address,
    description: Seq<u8>,
    target: Address,
    delay: u64,
    queued_at: u64,
    op_id: Seq<u8>,
    caller: Address,
    now: u64,
)
    requires
        queue_refusal(s, proposer, delay) is None,
        queued_at + delay <= u64::MAX,
    ensures
        execute_refusal(
            after_queue(s, proposer, description, target, (queued_at + delay) as u64, op_id),
            caller,
            op_id,
            now,
        ) is None ==> now >= queued_at + s.min_delay->0,
        now < queued_at + delay && caller == proposer ==> execute_refusal(
            after_queue(s, proposer, description, target, (queued_at + delay) as u64, op_id),
            caller,
            op_id,
            now,
        ) == Some(TimelockError::NotReady),
{
}

/// A cancelled operation can no longer be executed nor cancelled again: the
/// admin is refused with `Cancelled`, and the operation stays cancelled and
/// not executed.
pub proof fn law_cancelled_is_final(s: TimelockState, caller: Address, op_id: Seq<u8>, now: u64)
    requires
        cancel_refusal(s, caller, op_id) is None,
    ensures
        execute_refusal(after_cancel(s, op_id), caller, op_id, now) == Some(
            TimelockError::Cancelled,
        ),
        cancel_refusal(after_cancel(s, op_id), caller, op_id) == Some(TimelockError::Cancelled),
        after_cancel(s, op_id).ops[op_id].cancelled,
        !after_cancel(s, op_id).ops[op_id].executed,
{
}

/// Operations can be cancelled before execution: the admin's `cancel` of a
/// stored operation that is neither executed nor cancelled is accepted.
pub proof fn law_pending_can_be_cancelled(s: TimelockState, op_id: Seq<u8>)
    requires
        s.admin is Some,
        s.ops.contains_key(op_id),
        !s.ops[op_id].executed,
        !s.ops[op_id].cancelled,
    ensures
        cancel_refusal(s, s.admin->0, op_id) is None,
{
}

/// Operations are one-shot: once executed, an operation cannot be executed
/// or cancelled again by the admin, who is refused with `AlreadyExecuted`.
pub proof fn law_executed_is_final(
    s: TimelockState,
    caller: Address,
    op_id: Seq<u8>,
    now: u64,
    later: u64,
)
    requires
        execute_refusal(s, caller, op_id, now) is None,
    ensures
        execute_refusal(after_execute(s, op_id), caller, op_id, later) == Some(
            TimelockError::AlreadyExecuted,
        ),
        cancel_refusal(after_execute(s, op_id), caller, op_id) == Some(
            TimelockError::AlreadyExecuted,
        ),
        after_execute(s, op_id).ops[op_id].executed,
{
}

/// Queueing, cancelling or executing one operation leaves every operation
/// stored under another id as it was.
pub proof fn law_other_ops_unchanged(
    s: TimelockState,
    proposer: Address,
    description: Seq<u8>,
    target: Address,
    eta: u64,
    op_id: Seq<u8>,
    other: Seq<u8>,
)
    requires
        other != op_id,
    ensures
        after_queue(s, proposer, description, target, eta, op_id).ops.remove(op_id) == s.ops.remove(
            op_id,
        ),
        after_cancel(s, op_id).ops.contains_key(other) == s.ops.contains_key(other),
        after_cancel(s, op_id).ops[other] == s.ops[other],
        after_execute(s, op_id).ops.contains_key(other) == s.ops.contains_key(other),
        after_execute(s, op_id).ops[other] == s.ops[other],
{
    assert(after_queue(s, proposer, description, target, eta, op_id).ops.remove(op_id) =~= s.ops.remove(op_id));
}

/// The operation under `op_id` has run its course: executed or cancelled.
pub open spec fn finished(s: TimelockState, op_id: Seq<u8>) -> bool {
    s.ops.contains_key(op_id) && (s.ops[op_id].executed || s.ops[op_id].cancelled)
}

/// Timelock operations are one-shot: once an operation is executed or
/// cancelled, no `execute` of it is accepted, it cannot be queued again, and
/// every accepted `queue`, `cancel` or `execute` (of any id) leaves it executed
/// or cancelled.
pub proof fn law_one_shot(
    s: TimelockState,
    op_id: Seq<u8>,
    caller: Address,
    now: u64,
    proposer: Address,
    description: Seq<u8>,
    target: Address,
    eta: u64,
    other_id: Seq<u8>,
)
    requires
        finished(s, op_id),
    ensures
        execute_refusal(s, caller, op_id, now) is Some,
        replay_refusal(s, op_id) is Some,
        replay_refusal(s, other_id) is None ==> finished(
            after_queue(s, proposer, description, target, eta, other_id),
            op_id,
        ),
        cancel_refusal(s, caller, other_id) is None ==> finished(after_cancel(s, other_id), op_id),
        execute_refusal(s, caller, other_id, now) is None ==> finished(
            after_execute(s, other_id),
            op_id,
        ),
{
}

/// An address's XDR is its value tag 18, its address tag (0 for an account,
/// 1 for a contract), for an account the key type tag 0, and then its 32 key
/// bytes in order; each tag is four big-endian bytes.
pub proof fn law_address_xdr_layout(a: Address)
    ensures
        ({
            let x = address_xdr(a);
            let h: int = if a.kind == AddressKind::Account { 12 } else { 8 };
            &&& x.len() == h + 32
            &&& x[0] == 0 && x[1] == 0 && x[2] == 0 && x[3] == 18
            &&& x[4] == 0 && x[5] == 0 && x[6] == 0
            &&& x[7] == (if a.kind == AddressKind::Account { 0u8 } else { 1u8 })
            &&& a.kind == AddressKind::Account ==> x[8] == 0 && x[9] == 0 && x[10] == 0 && x[11]
                == 0
            &&& forall|i: int| 0 <= i < 32 ==> #[trigger] x[h + i] == a.key[i]
        }),
{
    let x = address_xdr(a);
    let h: int = if a.kind == AddressKind::Account { 12 } else { 8 };
    assert forall|i: int| 0 <= i < 32 implies #[trigger] x[h + i] == a.key[i] by {
        assert(x[h + i] == a.key@[i]);
    }
}

/// An operation's id is the digest of its description's bytes, in order,
/// followed by its target's XDR and then its eta's eight big-endian bytes.
pub proof fn law_op_preimage_layout(description: Seq<u8>, target: Address, eta: u64)
    ensures
        ({
            let p = op_preimage(description, target, eta);
            let x = address_xdr(target);
            &&& p.len() == description.len() + x.len() + 8
            &&& forall|i: int| 0 <= i < description.len() ==> #[trigger] p[i] == description[i]
            &&& forall|i: int| 0 <= i < x.len() ==> #[trigger] p[description.len() + i] == x[i]
            &&& p[p.len() - 1] as int == eta as int % 256
            &&& p[p.len() - 8] as int == eta as int / 0x100000000000000
        }),
        op_id_for(description, target, eta) == sha256_digest(op_preimage(description, target, eta)),
{
    let p = op_preimage(description, target, eta);
    let x = address_xdr(target);
    assert forall|i: int| 0 <= i < x.len() implies #[trigger] p[description.len() + i] == x[i] by {}
    assert(eta as int / 0x100000000000000 < 256);
}

/// The events an operation's life publishes carry what was queued: queueing
/// publishes `op_queued` with the id, the target and the eta; an accepted
/// `execute` of it afterwards publishes `op_executed` with the id and the
/// target it was queued with.
pub proof fn law_events_carry_the_target(
    s: TimelockState,
    proposer: Address,
    description: Seq<u8>,
    target: Address,
    eta: u64,
    op_id: Seq<u8>,
    caller: Address,
    now: u64,
)
    ensures
        after_queue(s, proposer, description, target, eta, op_id).events.last() == EventView::Queued(
            op_id,
            target,
            eta,
        ),
        execute_refusal(
            after_queue(s, proposer, description, target, eta, op_id),
            caller,
            op_id,
            now,
        ) is None ==> after_execute(
            after_queue(s, proposer, description, target, eta, op_id),
            op_id,
        ).events.last() == EventView::Executed(op_id, target),
        after_execute(
            after_queue(s, proposer, description, target, eta, op_id),
            op_id,
        ).ops[op_id].target == target,
{
}

} // verus!
