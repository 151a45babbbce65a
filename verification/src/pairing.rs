//! Pairing requests to other devices and their status over time.

use vstd::prelude::*;
use crate::keyed::{Keyed, keys_distinct, has_key, table_of, find_key, lemma_table_at, lemma_table_empty, lemma_table_push, lemma_table_update, lemma_table_len};
use crate::platform::utc_now_rfc3339;
use crate::text::owned;

verus! {

/// Where a pairing request stands.
#[derive(Debug, Clone, Copy, PartialEq, Eq, Structural)]
pub enum PairingStatus {
    /// Waiting for the other device to answer.
    Pending,
    /// The other device accepted.
    Accepted,
    /// The other device refused.
    Rejected,
    /// This device withdrew the request.
    Cancelled,
    /// No answer came in time.
    Timeout,
    /// Sending the request failed.
    Failed,
}

/// The name of a status as `{:?}` prints it.
pub open spec fn status_name(s: PairingStatus) -> Seq<char> {
    match s {
        PairingStatus::Pending => "Pending"@,
        PairingStatus::Accepted => "Accepted"@,
        PairingStatus::Rejected => "Rejected"@,
        PairingStatus::Cancelled => "Cancelled"@,
        PairingStatus::Timeout => "Timeout"@,
        PairingStatus::Failed => "Failed"@,
    }
}

impl PairingStatus {
    /// The name of the status as `{:?}` prints it.
    pub fn name(&self) -> (s: &'static str)
        ensures
            s@ == status_name(*self),
    {
        match self {
            PairingStatus::Pending => "Pending",
            PairingStatus::Accepted => "Accepted",
            PairingStatus::Rejected => "Rejected",
            PairingStatus::Cancelled => "Cancelled",
            PairingStatus::Timeout => "Timeout",
            PairingStatus::Failed => "Failed",
        }
    }
}

/// A pairing request as it travels between devices.
#[derive(Debug, Clone)]
pub struct PairRequest {
    pub device_id: String,
    pub device_name: String,
}

/// The state of one pairing request.
#[derive(Debug, Clone)]
pub struct PairingState {
    pub target_device_id: String,
    pub target_device_name: String,
    pub status: PairingStatus,
    /// When the request was made (RFC 3339).
    pub requested_at: String,
    /// When the status last changed (RFC 3339).
    pub updated_at: String,
}

impl Keyed for PairingState {
    open spec fn key(&self) -> Seq<char> {
        self.target_device_id@
    }

    fn key_str(&self) -> (k: &str) {
        self.target_device_id.as_str()
    }
}

/// The message of the error for an unknown target.
pub open spec fn not_found_message() -> Seq<char> {
    "Pairing request not found"@
}

/// The message of the error for cancelling a request that is no longer pending.
pub open spec fn cannot_cancel_message(s: PairingStatus) -> Seq<char> {
    "Cannot cancel pairing with status: "@ + status_name(s)
}

/// The state a new request to `target` made at `now` starts in.
pub open spec fn requested(target: String, name: String, now: String) -> PairingState {
    PairingState {
        target_device_id: target,
        target_device_name: name,
        status: PairingStatus::Pending,
        requested_at: now,
        updated_at: now,
    }
}

/// `p` moved to `status` at `now`.
pub open spec fn moved_to(p: PairingState, status: PairingStatus, now: String) -> PairingState {
    PairingState { status, updated_at: now, ..p }
}

/// The requests of `m` that are still pending.
pub open spec fn pending_only(m: Map<Seq<char>, PairingState>) -> Map<Seq<char>, PairingState> {
    Map::new(|k: Seq<char>| m.dom().contains(k) && m[k].status == PairingStatus::Pending, |k: Seq<char>| m[k])
}

/// The map after a request that timed out: a pending request moves to
/// `Timeout`; anything else stays.
pub open spec fn timed_out(m: Map<Seq<char>, PairingState>, target: Seq<char>, now: String) -> Map<Seq<char>, PairingState> {
    if m.dom().contains(target) && m[target].status == PairingStatus::Pending {
        m.insert(target, moved_to(m[target], PairingStatus::Timeout, now))
    } else {
        m
    }
}

/// A copy of a pairing state.
fn copy_state(p: &PairingState) -> (r: PairingState)
    ensures
        r == *p,
{
    PairingState {
        target_device_id: p.target_device_id.clone(),
        target_device_name: p.target_device_name.clone(),
        status: p.status,
        requested_at: p.requested_at.clone(),
        updated_at: p.updated_at.clone(),
    }
}

/// The pairing requests made by this device, one per target device.
pub struct PairingManager {
    pairings: Vec<PairingState>,
}

impl View for PairingManager {
    type V = Map<Seq<char>, PairingState>;

    closed spec fn view(&self) -> Map<Seq<char>, PairingState> {
        table_of(self.pairings@)
    }
}

impl PairingManager {
    #[verifier::type_invariant]
    spec fn inv(self) -> bool {
        keys_distinct(self.pairings@)
    }

    /// No requests.
    pub fn new() -> (m: Self)
        ensures
            m@ == Map::<Seq<char>, PairingState>::empty(),
    {
        let pairings: Vec<PairingState> = Vec::new();
        proof {
            lemma_table_empty(pairings@);
        }
        PairingManager { pairings }
    }

    /// Stores `p` under its target, replacing an earlier state of that target.
    fn put_state(&mut self, p: PairingState)
        ensures
            final(self)@ == old(self)@.insert(p.target_device_id@, p),
    {
        proof {
            use_type_invariant(&*self);
        }
        let mut pairings: Vec<PairingState> = Vec::new();
        std::mem::swap(&mut pairings, &mut self.pairings);
        match find_key(&pairings, p.target_device_id.as_str()) {
            Some(i) => {
                proof {
                    lemma_table_update(pairings@, i as int, p);
                }
                pairings.set(i, p);
            },
            None => {
                proof {
                    lemma_table_push(pairings@, p);
                }
                pairings.push(p);
            },
        }
        self.pairings = pairings;
    }

    /// Records a new pending request to `target_device_id`, stamped with the
    /// current time, replacing any earlier state for that target; returns the
    /// new state. The caller arranges the timeout.
    pub fn initiate_pairing(&mut self, target_device_id: String, target_device_name: String) -> (r: Result<PairingState, String>)
        ensures
            r matches Ok(p) && exists|now: String|
                p == requested(target_device_id, target_device_name, now)
                && final(self)@ == old(self)@.insert(target_device_id@, p),
    {
        let now = utc_now_rfc3339();
        let ghost stamp = now;
        let state = PairingState {
            target_device_id: target_device_id.clone(),
            target_device_name,
            status: PairingStatus::Pending,
            requested_at: now.clone(),
            updated_at: now,
        };
        let out = copy_state(&state);
        self.put_state(state);
        assert(out == requested(target_device_id, target_device_name, stamp));
        Ok(out)
    }

    /// Withdraws a pending request: it becomes `Cancelled` and the answer is
    /// `Ok(true)`. A request in any other status, or no request, is an error
    /// and nothing changes.
    pub fn cancel_pairing(&mut self, target_device_id: String) -> (r: Result<bool, String>)
        ensures
            !old(self)@.dom().contains(target_device_id@) ==> final(self)@ == old(self)@
                && (r matches Err(e) && e@ == not_found_message()),
            old(self)@.dom().contains(target_device_id@) && old(self)@[target_device_id@].status != PairingStatus::Pending
                ==> final(self)@ == old(self)@
                && (r matches Err(e) && e@ == cannot_cancel_message(old(self)@[target_device_id@].status)),
            old(self)@.dom().contains(target_device_id@) && old(self)@[target_device_id@].status == PairingStatus::Pending
                ==> r == Ok::<bool, String>(true) && exists|now: String|
                final(self)@ == old(self)@.insert(target_device_id@, moved_to(old(self)@[target_device_id@], PairingStatus::Cancelled, now)),
    {
        proof {
            use_type_invariant(&*self);
        }
        match find_key(&self.pairings, target_device_id.as_str()) {
            Some(i) => {
                proof {
                    lemma_table_at(self.pairings@, i as int);
                }
                let current = self.pairings[i].status;
                if current == PairingStatus::Pending {
                    let now = utc_now_rfc3339();
                    let ghost stamp = now;
                    let old_state = copy_state(&self.pairings[i]);
                    let updated = PairingState { status: PairingStatus::Cancelled, updated_at: now, ..old_state };
                    self.put_state(updated);
                    assert(updated == moved_to(old(self)@[target_device_id@], PairingStatus::Cancelled, stamp));
                    Ok(true)
                } else {
                    let mut msg = owned("Cannot cancel pairing with status: ");
                    msg.append(current.name());
                    Err(msg)
                }
            },
            None => Err(owned("Pairing request not found")),
        }
    }

    /// Sets the status of the request to `target_device_id`, stamping the
    /// change with the current time; an error when there is no such request.
    pub fn update_pairing_status(&mut self, target_device_id: String, new_status: PairingStatus) -> (r: Result<(), String>)
        ensures
            old(self)@.dom().contains(target_device_id@) ==> r is Ok && exists|now: String|
                final(self)@ == old(self)@.insert(target_device_id@, moved_to(old(self)@[target_device_id@], new_status, now)),
            !old(self)@.dom().contains(target_device_id@) ==> final(self)@ == old(self)@
                && (r matches Err(e) && e@ == not_found_message()),
    {
        proof {
            use_type_invariant(&*self);
        }
        match find_key(&self.pairings, target_device_id.as_str()) {
            Some(i) => {
                proof {
                    lemma_table_at(self.pairings@, i as int);
                }
                let now = utc_now_rfc3339();
                let ghost stamp = now;
                let old_state = copy_state(&self.pairings[i]);
                let updated = PairingState { status: new_status, updated_at: now, ..old_state };
                self.put_state(updated);
                assert(updated == moved_to(old(self)@[target_device_id@], new_status, stamp));
                Ok(())
            },
            None => Err(owned("Pairing request not found")),
        }
    }

    /// What the timeout of a request does: a request to `target_device_id`
    /// that is still pending becomes `Timeout`, stamped with the current time;
    /// anything else is left as it is.
    pub fn expire_pairing(&mut self, target_device_id: &str)
        ensures
            exists|now: String| final(self)@ == timed_out(old(self)@, target_device_id@, now),
    {
        proof {
            use_type_invariant(&*self);
        }
        match find_key(&self.pairings, target_device_id) {
            Some(i) => {
                proof {
                    lemma_table_at(self.pairings@, i as int);
                }
                if self.pairings[i].status == PairingStatus::Pending {
                    let now = utc_now_rfc3339();
                    let ghost stamp = now;
                    let old_state = copy_state(&self.pairings[i]);
                    let updated = PairingState { status: PairingStatus::Timeout, updated_at: now, ..old_state };
                    self.put_state(updated);
                    assert(final(self)@ == timed_out(old(self)@, target_device_id@, stamp));
                } else {
                    assert(self@ == timed_out(old(self)@, target_device_id@, vstd::pervasive::arbitrary::<String>()));
                }
            },
            None => {
                assert(self@ == timed_out(old(self)@, target_device_id@, vstd::pervasive::arbitrary::<String>()));
            },
        }
    }

    /// The state of the request to `target_device_id`, if there is one.
    pub fn get_pairing_status(&self, target_device_id: &str) -> (r: Option<PairingState>)
        ensures
            match r {
                Some(p) => self@.dom().contains(target_device_id@) && p == self@[target_device_id@],
                None => !self@.dom().contains(target_device_id@),
            },
    {
        proof {
            use_type_invariant(self);
        }
        match find_key(&self.pairings, target_device_id) {
            Some(i) => {
                proof {
                    lemma_table_at(self.pairings@, i as int);
                }
                Some(copy_state(&self.pairings[i]))
            },
            None => None,
        }
    }

    /// Every request, one per target, in no particular order.
    pub fn get_all_pairings(&self) -> (r: Vec<PairingState>)
        ensures
            keys_distinct(r@),
            table_of(r@) == self@,
            r@.len() == self@.dom().len(),
            forall|k: int| 0 <= k < r@.len() ==> self@.dom().contains(#[trigger] r@[k].target_device_id@)
                && self@[r@[k].target_device_id@] == r@[k],
    {
        proof {
            use_type_invariant(self);
        }
        let n = self.pairings.len();
        let mut out: Vec<PairingState> = Vec::new();
        let mut i: usize = 0;
        while i < n
            invariant
                n == self.pairings@.len(),
                i <= n,
                out@ == self.pairings@.subrange(0, i as int),
            decreases n - i,
        {
            out.push(copy_state(&self.pairings[i]));
            assert(out@ =~= self.pairings@.subrange(0, i + 1));
            i = i + 1;
        }
        assert(out@ =~= self.pairings@);
        proof {
            lemma_table_len(out@);
            assert forall|k: int| 0 <= k < out@.len() implies self@.dom().contains(#[trigger] out@[k].target_device_id@)
                && self@[out@[k].target_device_id@] == out@[k] by {
                lemma_table_at(out@, k);
            }
        }
        out
    }

    /// Drops every request that is no longer pending (accepted, rejected,
    /// cancelled, timed out or failed).
    pub fn cleanup_completed_pairings(&mut self)
        ensures
            final(self)@ == pending_only(old(self)@),
    {
        proof {
            use_type_invariant(&*self);
        }
        let ghost all = self.pairings@;
        let n = self.pairings.len();
        let mut kept: Vec<PairingState> = Vec::new();
        proof {
            lemma_table_empty(kept@);
            lemma_table_empty(all.subrange(0, 0));
            assert(pending_only(table_of(all.subrange(0, 0))) =~= table_of(kept@));
        }
        let mut i: usize = 0;
        while i < n
            invariant
                n == all.len(),
                all == self.pairings@,
                keys_distinct(all),
                i <= n,
                keys_distinct(kept@),
                table_of(kept@) == pending_only(table_of(all.subrange(0, i as int))),
            decreases n - i,
        {
            let ghost pre = all.subrange(0, i as int);
            let ghost post = all.subrange(0, i + 1);
            proof {
                assert(post =~= pre.push(all[i as int]));
                assert(keys_distinct(pre));
                assert(!has_key(pre, all[i as int].key())) by {
                    if has_key(pre, all[i as int].key()) {
                        let a = choose|a: int| 0 <= a < pre.len() && #[trigger] pre[a].key() == all[i as int].key();
                        assert(all[a].key() == all[i as int].key());
                    }
                }
                lemma_table_push(pre, all[i as int]);
            }
            if self.pairings[i].status == PairingStatus::Pending {
                let p = copy_state(&self.pairings[i]);
                proof {
                    assert(!has_key(kept@, p.key())) by {
                        if has_key(kept@, p.key()) {
                            let a = choose|a: int| 0 <= a < kept@.len() && #[trigger] kept@[a].key() == p.key();
                            lemma_table_at(kept@, a);
                        }
                    }
                    lemma_table_push(kept@, p);
                }
                kept.push(p);
                proof {
                    assert(table_of(kept@) =~= pending_only(table_of(post)));
                }
            } else {
                proof {
                    assert(table_of(kept@) =~= pending_only(table_of(post)));
                }
            }
            i = i + 1;
        }
        proof {
            assert(all.subrange(0, n as int) =~= all);
        }
        self.pairings = kept;
    }
}

/// A request just made is pending.
pub proof fn law_new_request_is_pending(target: String, name: String, now: String)
    ensures
        requested(target, name, now).status == PairingStatus::Pending,
        requested(target, name, now).requested_at == requested(target, name, now).updated_at,
{
}

/// After a clean-up only pending requests remain, every pending request
/// remains unchanged, and cleaning up again changes nothing.
pub proof fn law_cleanup_keeps_exactly_pending(m: Map<Seq<char>, PairingState>)
    ensures
        forall|k: Seq<char>| #[trigger] pending_only(m).dom().contains(k) ==> pending_only(m)[k].status
            == PairingStatus::Pending,
        forall|k: Seq<char>|
            m.dom().contains(k) && m[k].status == PairingStatus::Pending ==> #[trigger] pending_only(m).dom().contains(k)
                && pending_only(m)[k] == m[k],
        pending_only(pending_only(m)) == pending_only(m),
{
    assert(pending_only(pending_only(m)) =~= pending_only(m));
}

/// A timeout turns a pending request into `Timeout` and touches nothing else;
/// once timed out, a request can no longer be cancelled.
pub proof fn law_timeout_ends_pending(m: Map<Seq<char>, PairingState>, target: Seq<char>, now: String)
    ensures
        forall|k: Seq<char>| k != target ==> #[trigger] timed_out(m, target, now).dom().contains(k) == m.dom().contains(
            k,
        ),
        forall|k: Seq<char>| k != target && m.dom().contains(k) ==> #[trigger] timed_out(m, target, now)[k] == m[k],
        m.dom().contains(target) ==> timed_out(m, target, now).dom().contains(target)
            && timed_out(m, target, now)[target].status != PairingStatus::Pending,
        m.dom().contains(target) && m[target].status != PairingStatus::Pending ==> timed_out(m, target, now) == m,
{
}

/// A cancelled request stays cancelled: a timeout leaves it as it is.
pub proof fn law_timeout_after_cancel(m: Map<Seq<char>, PairingState>, target: Seq<char>, t1: String, t2: String)
    requires
        m.dom().contains(target),
        m[target].status == PairingStatus::Pending,
    ensures
        ({
            let cancelled = m.insert(target, moved_to(m[target], PairingStatus::Cancelled, t1));
            timed_out(cancelled, target, t2) == cancelled
        }),
{
}

/// A timeout turns a pending request into `Timeout`, whatever its target
/// id, stamped with the time of the timeout; its target, name and request
/// time stay, and every other request stays as it was.
pub proof fn law_timeout_marks_pending_timed_out(m: Map<Seq<char>, PairingState>, target: Seq<char>, now: String)
    requires
        m.dom().contains(target),
        m[target].status == PairingStatus::Pending,
    ensures
        timed_out(m, target, now).dom() == m.dom(),
        timed_out(m, target, now)[target].status == PairingStatus::Timeout,
        timed_out(m, target, now)[target].target_device_id == m[target].target_device_id,
        timed_out(m, target, now)[target].target_device_name == m[target].target_device_name,
        timed_out(m, target, now)[target].requested_at == m[target].requested_at,
        timed_out(m, target, now)[target].updated_at == now,
        forall|k: Seq<char>| k != target && m.dom().contains(k) ==> #[trigger] timed_out(m, target, now)[k] == m[k],
{
    assert(timed_out(m, target, now).dom() =~= m.dom());
}

} // verus!
