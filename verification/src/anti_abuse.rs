//! Admission control: a per-caller sliding window with a cooldown.
//!
//! A caller on the whitelist is always admitted and leaves no trace. Any other
//! caller is turned away while its previous operation is less than the
//! cooldown period old, and once it has used up the operations of the current
//! window. A window starts with the first operation after the previous window
//! has run out.

use vstd::prelude::*;
use crate::types::{Abort, Address};

verus! {

/// The limits that apply to every caller that is not on the whitelist.
#[derive(Clone, Copy, Debug, PartialEq, Eq, Structural)]
pub struct AntiAbuseConfig {
    /// The length of a window.
    pub window_size: u64,
    /// How many operations a caller may make in one window.
    pub max_operations: u32,
    /// How long a caller has to wait after an operation.
    pub cooldown_period: u64,
}

/// What is remembered of a caller.
#[derive(Clone, Copy, Debug, PartialEq, Eq, Structural)]
pub struct AddressState {
    pub last_operation_timestamp: u64,
    pub window_start_timestamp: u64,
    pub operation_count: u32,
}

/// The state of one caller, as it is stored.
#[derive(Clone, Copy, Debug, PartialEq, Eq, Structural)]
pub struct AddressEntry {
    pub address: Address,
    pub state: AddressState,
}

/// The limits in force until others are set: ten operations an hour, one
/// minute apart.
pub open spec fn default_limits() -> AntiAbuseConfig {
    AntiAbuseConfig { window_size: 3600, max_operations: 10, cooldown_period: 60 }
}

/// `a + b`, or the largest timestamp if the sum is beyond it.
pub open spec fn later(a: u64, b: u64) -> u64 {
    if a + b > u64::MAX {
        u64::MAX
    } else {
        (a + b) as u64
    }
}

/// What is assumed of a caller that has not been seen before: no operation
/// yet, and a window that starts now.
pub open spec fn fresh_state(now: u64) -> AddressState {
    AddressState { last_operation_timestamp: 0, window_start_timestamp: now, operation_count: 0 }
}

/// Whether a caller in `state` is still cooling down at time `now`.
pub open spec fn in_cooldown(config: AntiAbuseConfig, state: AddressState, now: u64) -> bool {
    state.last_operation_timestamp > 0 && now < later(
        state.last_operation_timestamp,
        config.cooldown_period,
    )
}

/// Whether the window of `state` has run out at time `now`.
pub open spec fn window_over(config: AntiAbuseConfig, state: AddressState, now: u64) -> bool {
    now >= later(state.window_start_timestamp, config.window_size)
}

/// The decision on an operation at time `now` by a caller of which `known`
/// is remembered: the caller's new state if the operation is admitted, the
/// reason if it is not.
pub open spec fn admission(config: AntiAbuseConfig, known: Option<AddressState>, now: u64) -> Result<
    AddressState,
    Abort,
> {
    let state = if known is Some {
        known->0
    } else {
        fresh_state(now)
    };
    if in_cooldown(config, state, now) {
        Err(Abort::Cooldown)
    } else if window_over(config, state, now) {
        Ok(
            AddressState {
                last_operation_timestamp: now,
                window_start_timestamp: now,
                operation_count: 1,
            },
        )
    } else if state.operation_count >= config.max_operations {
        Err(Abort::RateLimited)
    } else {
        Ok(
            AddressState {
                last_operation_timestamp: now,
                window_start_timestamp: state.window_start_timestamp,
                operation_count: (state.operation_count + 1) as u32,
            },
        )
    }
}

/// Decides on an operation at time `now` by a caller of which `known` is
/// remembered.
pub fn decide(config: &AntiAbuseConfig, known: Option<AddressState>, now: u64) -> (r: Result<
    AddressState,
    Abort,
>)
    ensures
        r == admission(*config, known, now),
{
    let state = match known {
        Some(state) => state,
        None => AddressState {
            last_operation_timestamp: 0,
            window_start_timestamp: now,
            operation_count: 0,
        },
    };
    if state.last_operation_timestamp > 0 && now < state.last_operation_timestamp.saturating_add(
        config.cooldown_period,
    ) {
        return Err(Abort::Cooldown);
    }
    if now >= state.window_start_timestamp.saturating_add(config.window_size) {
        return Ok(
            AddressState {
                last_operation_timestamp: now,
                window_start_timestamp: now,
                operation_count: 1,
            },
        );
    }
    if state.operation_count >= config.max_operations {
        return Err(Abort::RateLimited);
    }
    Ok(
        AddressState {
            last_operation_timestamp: now,
            window_start_timestamp: state.window_start_timestamp,
            operation_count: state.operation_count + 1,
        },
    )
}

/// The state that the entries record for each caller. Where a caller occurs
/// more than once, the last entry counts.
pub open spec fn states_of(entries: Seq<AddressEntry>) -> Map<Address, AddressState>
    decreases entries.len(),
{
    if entries.len() == 0 {
        Map::empty()
    } else {
        states_of(entries.drop_last()).insert(entries.last().address, entries.last().state)
    }
}

/// The admission control of one contract: its limits, its own administrator,
/// the whitelist and what is remembered of each caller.
#[derive(Clone, Debug, PartialEq, Eq)]
pub struct RateLimiter {
    /// The limits, if any have been set.
    pub config: Option<AntiAbuseConfig>,
    pub admin: Option<Address>,
    pub whitelist: Vec<Address>,
    pub states: Vec<AddressEntry>,
}

/// The mathematical content of a [`RateLimiter`].
pub struct RateLimiterView {
    pub config: Option<AntiAbuseConfig>,
    pub admin: Option<Address>,
    pub whitelist: Set<Address>,
    pub states: Map<Address, AddressState>,
}

impl View for RateLimiter {
    type V = RateLimiterView;

    open spec fn view(&self) -> RateLimiterView {
        RateLimiterView {
            config: self.config,
            admin: self.admin,
            whitelist: self.whitelist@.to_set(),
            states: states_of(self.states@),
        }
    }
}

impl RateLimiterView {
    /// The limits in force.
    pub open spec fn limits(self) -> AntiAbuseConfig {
        if self.config is Some {
            self.config->0
        } else {
            default_limits()
        }
    }

    /// What is remembered of `address`.
    pub open spec fn known(self, address: Address) -> Option<AddressState> {
        if self.states.contains_key(address) {
            Some(self.states[address])
        } else {
            None
        }
    }

    /// The decision on an operation by `address` at time `now`: the state to
    /// remember if a caller that is not on the whitelist is admitted, nothing
    /// if a caller on the whitelist is, and the reason if the caller is turned
    /// away.
    pub open spec fn ticket(self, address: Address, now: u64) -> Result<Option<AddressState>, Abort> {
        if self.whitelist.contains(address) {
            Ok(None)
        } else {
            match admission(self.limits(), self.known(address), now) {
                Ok(state) => Ok(Some(state)),
                Err(abort) => Err(abort),
            }
        }
    }

    /// The limiter once the outcome of an admission has been recorded.
    pub open spec fn recorded(self, address: Address, ticket: Option<AddressState>) -> RateLimiterView {
        if ticket is Some {
            RateLimiterView { states: self.states.insert(address, ticket->0), ..self }
        } else {
            self
        }
    }
}

/// If `entries[i]` is the last entry for its address, it is the one that
/// counts.
pub proof fn lemma_states_of_last(entries: Seq<AddressEntry>, i: int)
    requires
        0 <= i < entries.len(),
        forall|j: int| i < j < entries.len() ==> (#[trigger] entries[j]).address != entries[i].address,
    ensures
        states_of(entries).contains_key(entries[i].address),
        states_of(entries)[entries[i].address] == entries[i].state,
    decreases entries.len(),
{
    if i < entries.len() - 1 {
        let front = entries.drop_last();
        assert(front[i] == entries[i]);
        assert forall|j: int| i < j < front.len() implies (#[trigger] front[j]).address
            != front[i].address by {
            assert(front[j] == entries[j]);
        }
        lemma_states_of_last(front, i);
        assert(entries.last().address != entries[i].address);
    }
}

/// An address without an entry has no state.
pub proof fn lemma_states_of_absent(entries: Seq<AddressEntry>, address: Address)
    requires
        forall|j: int| 0 <= j < entries.len() ==> (#[trigger] entries[j]).address != address,
    ensures
        !states_of(entries).contains_key(address),
    decreases entries.len(),
{
    if entries.len() > 0 {
        let front = entries.drop_last();
        assert forall|j: int| 0 <= j < front.len() implies (#[trigger] front[j]).address
            != address by {
            assert(front[j] == entries[j]);
        }
        lemma_states_of_absent(front, address);
        assert(entries.last().address != address);
    }
}

/// Overwriting the state in the last entry for an address is an insertion
/// into the recorded states.
pub proof fn lemma_states_of_update(entries: Seq<AddressEntry>, i: int, state: AddressState)
    requires
        0 <= i < entries.len(),
        forall|j: int| i < j < entries.len() ==> (#[trigger] entries[j]).address != entries[i].address,
    ensures
        states_of(entries.update(i, AddressEntry { address: entries[i].address, state }))
            == states_of(entries).insert(entries[i].address, state),
    decreases entries.len(),
{
    let address = entries[i].address;
    let updated = entries.update(i, AddressEntry { address, state });
    let front = entries.drop_last();
    if i == entries.len() - 1 {
        assert(updated.drop_last() =~= front);
        assert(states_of(updated) =~= states_of(entries).insert(address, state));
    } else {
        assert(front[i] == entries[i]);
        assert forall|j: int| i < j < front.len() implies (#[trigger] front[j]).address
            != front[i].address by {
            assert(front[j] == entries[j]);
        }
        lemma_states_of_update(front, i, state);
        assert(updated.drop_last() =~= front.update(i, AddressEntry { address, state }));
        assert(entries.last().address != address);
        assert(states_of(updated) =~= states_of(entries).insert(address, state));
    }
}

/// Appending an entry is an insertion into the recorded states.
pub proof fn lemma_states_of_push(entries: Seq<AddressEntry>, entry: AddressEntry)
    ensures
        states_of(entries.push(entry)) == states_of(entries).insert(entry.address, entry.state),
{
    assert(entries.push(entry).drop_last() =~= entries);
}

impl RateLimiter {
    /// A limiter with the default limits, no administrator, an empty
    /// whitelist and no caller seen yet.
    pub fn new() -> (limiter: RateLimiter)
        ensures
            limiter@ == (RateLimiterView {
                config: None,
                admin: None,
                whitelist: Set::empty(),
                states: Map::empty(),
            }),
    {
        let limiter = RateLimiter {
            config: None,
            admin: None,
            whitelist: Vec::new(),
            states: Vec::new(),
        };
        proof {
            assert(limiter@.whitelist =~= Set::empty());
        }
        limiter
    }

    /// The index of the entry that counts for `address`, if there is one.
    fn find(&self, address: Address) -> (found: Option<usize>)
        ensures
            match found {
                Some(i) => {
                    &&& i < self.states.len()
                    &&& self.states@[i as int].address == address
                    &&& forall|j: int|
                        i < j < self.states.len() ==> (#[trigger] self.states@[j]).address != address
                    &&& self@.known(address) == Some(self.states@[i as int].state)
                },
                None => self@.known(address) is None,
            },
    {
        let mut i: usize = self.states.len();
        while i > 0
            invariant
                i <= self.states.len(),
                forall|j: int|
                    i <= j < self.states.len() ==> (#[trigger] self.states@[j]).address != address,
            decreases i,
        {
            i = i - 1;
            if self.states[i].address == address {
                proof {
                    lemma_states_of_last(self.states@, i as int);
                }
                return Some(i);
            }
        }
        proof {
            lemma_states_of_absent(self.states@, address);
        }
        None
    }

    /// Decides on an operation by `address` at time `now` without recording
    /// anything.
    pub fn ticket(&self, address: Address, now: u64) -> (r: Result<Option<AddressState>, Abort>)
        ensures
            r == self@.ticket(address, now),
    {
        if is_whitelisted(self, address) {
            return Ok(None);
        }
        let config = get_config(self);
        let known = match self.find(address) {
            Some(i) => Some(self.states[i].state),
            None => None,
        };
        match decide(&config, known, now) {
            Ok(state) => Ok(Some(state)),
            Err(abort) => Err(abort),
        }
    }

    /// Records the outcome of an admission: the new state of `address`, if
    /// there is one to remember.
    pub fn record(&mut self, address: Address, ticket: Option<AddressState>)
        ensures
            final(self)@ == old(self)@.recorded(address, ticket),
    {
        match ticket {
            Some(state) => {
                match self.find(address) {
                    Some(i) => {
                        proof {
                            lemma_states_of_update(self.states@, i as int, state);
                        }
                        self.states.set(i, AddressEntry { address, state });
                    },
                    None => {
                        proof {
                            lemma_states_of_push(self.states@, AddressEntry { address, state });
                        }
                        self.states.push(AddressEntry { address, state });
                    },
                }
            },
            None => {},
        }
    }
}

/// The limits in force: those that were set, or the default ones.
pub fn get_config(limiter: &RateLimiter) -> (config: AntiAbuseConfig)
    ensures
        config == limiter@.limits(),
{
    match limiter.config {
        Some(config) => config,
        None => AntiAbuseConfig { window_size: 3600, max_operations: 10, cooldown_period: 60 },
    }
}

/// Sets the limits.
pub fn set_config(limiter: &mut RateLimiter, config: AntiAbuseConfig)
    ensures
        final(limiter)@ == (RateLimiterView { config: Some(config), ..old(limiter)@ }),
{
    limiter.config = Some(config);
}

/// Whether `address` is on the whitelist.
pub fn is_whitelisted(limiter: &RateLimiter, address: Address) -> (b: bool)
    ensures
        b == limiter@.whitelist.contains(address),
{
    let mut i: usize = 0;
    while i < limiter.whitelist.len()
        invariant
            i <= limiter.whitelist.len(),
            forall|j: int| 0 <= j < i ==> limiter.whitelist@[j] != address,
        decreases limiter.whitelist.len() - i,
    {
        if limiter.whitelist[i] == address {
            return true;
        }
        i = i + 1;
    }
    false
}

/// The members of a list with one more element are those of the list and
/// the element.
pub proof fn lemma_members_push(list: Seq<Address>, address: Address)
    ensures
        list.push(address).to_set() == list.to_set().insert(address),
{
    let longer = list.push(address);
    assert forall|a: Address| longer.to_set().contains(a) <==> list.to_set().insert(address).contains(
        a,
    ) by {
        if longer.contains(a) {
            let k = choose|k: int| 0 <= k < longer.len() && longer[k] == a;
            if k < list.len() {
                assert(list[k] == a);
            }
        }
        if list.contains(a) {
            let k = choose|k: int| 0 <= k < list.len() && list[k] == a;
            assert(longer[k] == a);
        }
        if a == address {
            assert(longer[list.len() as int] == a);
        }
    }
    assert(longer.to_set() =~= list.to_set().insert(address));
}

/// Puts `address` on the whitelist or takes it off.
pub fn set_whitelist(limiter: &mut RateLimiter, address: Address, whitelisted: bool)
    ensures
        final(limiter)@ == (RateLimiterView {
            whitelist: if whitelisted {
                old(limiter)@.whitelist.insert(address)
            } else {
                old(limiter)@.whitelist.remove(address)
            },
            ..old(limiter)@
        }),
{
    if whitelisted {
        if !is_whitelisted(limiter, address) {
            proof {
                lemma_members_push(limiter.whitelist@, address);
            }
            limiter.whitelist.push(address);
        } else {
            proof {
                assert(limiter@.whitelist =~= old(limiter)@.whitelist.insert(address));
            }
        }
    } else {
        let mut kept: Vec<Address> = Vec::new();
        let mut i: usize = 0;
        proof {
            assert(limiter.whitelist@.take(0) =~= Seq::empty());
            assert(kept@.to_set() =~= limiter.whitelist@.take(0).to_set().remove(address));
        }
        while i < limiter.whitelist.len()
            invariant
                i <= limiter.whitelist.len(),
                *limiter == *old(limiter),
                kept@.to_set() == limiter.whitelist@.take(i as int).to_set().remove(address),
            decreases limiter.whitelist.len() - i,
        {
            let entry = limiter.whitelist[i];
            proof {
                let before = limiter.whitelist@.take(i as int);
                assert(limiter.whitelist@.take(i + 1) =~= before.push(entry));
                lemma_members_push(before, entry);
                lemma_members_push(kept@, entry);
                if entry != address {
                    assert(kept@.to_set().insert(entry) =~= before.to_set().insert(entry).remove(
                        address,
                    ));
                } else {
                    assert(kept@.to_set() =~= before.to_set().insert(entry).remove(address));
                }
            }
            if entry != address {
                kept.push(entry);
            }
            i = i + 1;
        }
        proof {
            assert(limiter.whitelist@.take(i as int) =~= limiter.whitelist@);
        }
        limiter.whitelist = kept;
    }
}

/// The administrator of the limiter, if one has been set.
pub fn get_admin(limiter: &RateLimiter) -> (admin: Option<Address>)
    ensures
        admin == limiter@.admin,
{
    limiter.admin
}

/// Sets the administrator of the limiter.
pub fn set_admin(limiter: &mut RateLimiter, admin: Address)
    ensures
        final(limiter)@ == (RateLimiterView { admin: Some(admin), ..old(limiter)@ }),
{
    limiter.admin = Some(admin);
}

/// Decides on an operation by `address` at time `now` and, if the caller is
/// admitted, remembers it. A caller that is turned away leaves the limiter as
/// it was.
pub fn check_rate_limit(limiter: &mut RateLimiter, address: Address, now: u64) -> (r: Result<(), Abort>)
    ensures
        match old(limiter)@.ticket(address, now) {
            Ok(ticket) => r == Ok::<(), Abort>(()) && final(limiter)@ == old(limiter)@.recorded(
                address,
                ticket,
            ),
            Err(abort) => r == Err::<(), Abort>(abort) && final(limiter)@ == old(limiter)@,
        },
{
    match limiter.ticket(address, now) {
        Ok(ticket) => {
            limiter.record(address, ticket);
            Ok(())
        },
        Err(abort) => Err(abort),
    }
}

} // verus!
