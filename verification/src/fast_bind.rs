//! Which presentation owns the scan-out, and what the host has accepted.
use crate::gpu::{GpuState, VirtioGpu};
use crate::scanout::{admission_of, cancelled, claimed, decide_epoch, flush_armed, flush_completed,
    flush_rolled_back, key_of, publication_key, set_completed, Admission, CompletedBind,
    Publication, PublicationKey, PublicationPhase, PublicationRefresh, ScanoutBindRequest};
use vstd::prelude::*;

verus! {

/// What is published, and what waits to be.
#[derive(Clone, Copy, Debug, PartialEq, Eq, Structural)]
pub struct FastBindState {
    /// An accepted SET whose bookkeeping is still to be applied.
    pub completed: Option<CompletedBind>,
    /// The request of the active publication.
    pub publication_request: Option<ScanoutBindRequest>,
    pub publication: Option<Publication>,
    /// Highest epoch of an accepted SET.
    pub presentation_epoch_floor: u64,
    /// The oldest request that waits; nothing replaces it.
    pub deferred_earliest: Option<ScanoutBindRequest>,
    /// The newest request behind it.
    pub deferred_latest: Option<ScanoutBindRequest>,
    /// The newest SET that the host has accepted.
    pub host_accepted_seq: u64,
    pub host_accepted_resource: u32,
    pub host_accepted_fast: bool,
    pub host_accepted_fast_request: Option<ScanoutBindRequest>,
    /// The resource being retired, and whether the retirement is under way.
    pub retiring_resource: u32,
    pub retire_barrier: bool,
    /// The request that the synchronous worker has claimed.
    pub sync_worker_owned: Option<ScanoutBindRequest>,
    pub deferred_worker: Option<ScanoutBindRequest>,
    /// A refused SET that the worker must look at.
    pub fast_failure_wake: Option<ScanoutBindRequest>,
}

impl FastBindState {
    /// Nothing published and nothing waiting; only the epoch floor stays.
    pub open spec fn blank(floor: u64) -> FastBindState {
        FastBindState {
            completed: None,
            publication_request: None,
            publication: None,
            presentation_epoch_floor: floor,
            deferred_earliest: None,
            deferred_latest: None,
            host_accepted_seq: 0,
            host_accepted_resource: 0,
            host_accepted_fast: false,
            host_accepted_fast_request: None,
            retiring_resource: 0,
            retire_barrier: false,
            sync_worker_owned: None,
            deferred_worker: None,
            fast_failure_wake: None,
        }
    }

    pub open spec fn admission(self, request: ScanoutBindRequest) -> Admission {
        if request.resource_id == 0 {
            Admission::Untracked
        } else {
            admission_of(self.presentation_epoch_floor, request.present_epoch)
        }
    }

    pub open spec fn superseded(self, request: ScanoutBindRequest) -> bool {
        self.admission(request) == Admission::Superseded
    }

    /// After the queue has taken a SET: its epoch is the floor.
    pub open spec fn set_accepted(self, request: ScanoutBindRequest) -> FastBindState {
        if self.admission(request) == Admission::Newer {
            FastBindState { presentation_epoch_floor: request.present_epoch, ..self }
        } else {
            self
        }
    }

    /// After a SET became the active publication, if none was.
    pub open spec fn claimed(self, request: ScanoutBindRequest, seq: u64) -> (bool, FastBindState) {
        match claimed(self.publication, key_of(request), seq) {
            Some(p) => (
                true,
                FastBindState {
                    publication: p,
                    publication_request: Some(request),
                    ..self
                },
            ),
            None => (false, self),
        }
    }

    /// After the host has answered the active publication's SET.
    pub open spec fn set_done(self, request: ScanoutBindRequest, seq: u64, ok: bool) -> (
        bool,
        FastBindState,
    ) {
        if self.publication_request == Some(request) {
            match set_completed(self.publication, key_of(request), seq, ok) {
                Some(p) => (
                    true,
                    FastBindState {
                        publication: p,
                        publication_request: if ok {
                            Some(request)
                        } else {
                            None
                        },
                        ..self
                    },
                ),
                None => (false, self),
            }
        } else {
            (false, self)
        }
    }

    /// `key` is the identity of the active publication's request.
    pub open spec fn owns(self, key: PublicationKey) -> bool {
        self.publication_request matches Some(r) && key_of(r) == key
    }

    pub open spec fn armed(self, key: PublicationKey) -> (bool, FastBindState) {
        match flush_armed(self.publication, key) {
            Some(p) => if self.owns(key) {
                (true, FastBindState { publication: p, ..self })
            } else {
                (false, self)
            },
            None => (false, self),
        }
    }

    pub open spec fn rolled_back(self, key: PublicationKey) -> (bool, FastBindState) {
        match flush_rolled_back(self.publication, key) {
            Some(p) => if self.owns(key) {
                (true, FastBindState { publication: p, ..self })
            } else {
                (false, self)
            },
            None => (false, self),
        }
    }

    pub open spec fn flush_done(self, key: PublicationKey) -> (bool, FastBindState) {
        match flush_completed(self.publication, key) {
            Some(p) => (
                true,
                FastBindState { publication: p, publication_request: None, ..self },
            ),
            None => (false, self),
        }
    }

    pub open spec fn released(self, key: PublicationKey) -> (bool, FastBindState) {
        match cancelled(self.publication, key) {
            Some(p) => (
                true,
                FastBindState { publication: p, publication_request: None, ..self },
            ),
            None => (false, self),
        }
    }

    pub open spec fn request_for(self, resource_id: u32) -> Option<ScanoutBindRequest> {
        match self.publication_request {
            Some(r) => if r.resource_id == resource_id {
                Some(r)
            } else {
                None
            },
            None => None,
        }
    }

    pub open spec fn refresh_for(self, resource_id: u32) -> PublicationRefresh {
        match (self.publication, self.publication_request) {
            (None, _) => PublicationRefresh::NoActive,
            (Some(p), Some(r)) => if p.key == key_of(r) && r.resource_id == resource_id && p.phase
                == PublicationPhase::SetSucceeded {
                PublicationRefresh::ReadyExact(r)
            } else {
                PublicationRefresh::Blocked
            },
            (Some(_), None) => PublicationRefresh::Blocked,
        }
    }

    /// The accepted SET whose bookkeeping is to be applied is handed out.
    pub open spec fn completed_taken(self) -> (Option<CompletedBind>, FastBindState) {
        (self.completed, FastBindState { completed: None, ..self })
    }

    /// The refused SET that the worker must look at is handed out.
    pub open spec fn wake_taken(self) -> (Option<ScanoutBindRequest>, FastBindState) {
        (self.fast_failure_wake, FastBindState { fast_failure_wake: None, ..self })
    }

    /// New SETs are let through again.
    pub open spec fn retire_ended(self) -> FastBindState {
        FastBindState { retire_barrier: false, ..self }
    }

    /// The active publication of a resource that is being retired ends.
    pub open spec fn retired_for(self, resource_id: u32) -> (bool, FastBindState) {
        match self.request_for(resource_id) {
            Some(request) => self.released(key_of(request)),
            None => (false, self),
        }
    }

    /// After the host accepted SET number `seq` from the worker.
    pub open spec fn host_accepted(self, seq: u64, resource_id: u32) -> FastBindState {
        if seq >= self.host_accepted_seq {
            FastBindState {
                host_accepted_seq: seq,
                host_accepted_resource: resource_id,
                host_accepted_fast: false,
                host_accepted_fast_request: None,
                ..self
            }
        } else {
            self
        }
    }

    /// After the host accepted SET number `seq` without a waiter.
    pub open spec fn host_accepted_fast(self, seq: u64, request: ScanoutBindRequest) -> FastBindState {
        if seq >= self.host_accepted_seq {
            FastBindState {
                host_accepted_seq: seq,
                host_accepted_resource: request.resource_id,
                host_accepted_fast: true,
                host_accepted_fast_request: Some(request),
                ..self
            }
        } else {
            self
        }
    }

    pub fn new() -> (r: Self)
        ensures
            r == Self::blank(0),
    {
        Self::reset_to(0)
    }

    pub(crate) fn reset_to(floor: u64) -> (r: Self)
        ensures
            r == Self::blank(floor),
    {
        FastBindState {
            completed: None,
            publication_request: None,
            publication: None,
            presentation_epoch_floor: floor,
            deferred_earliest: None,
            deferred_latest: None,
            host_accepted_seq: 0,
            host_accepted_resource: 0,
            host_accepted_fast: false,
            host_accepted_fast_request: None,
            retiring_resource: 0,
            retire_barrier: false,
            sync_worker_owned: None,
            deferred_worker: None,
            fast_failure_wake: None,
        }
    }

    /// Whether a SET at or above the request's epoch was accepted already.
    pub fn presentation_epoch_is_superseded(&self, request: ScanoutBindRequest) -> (r: bool)
        ensures
            r == self.superseded(request),
    {
        request.resource_id != 0 && decide_epoch(
            self.presentation_epoch_floor,
            request.present_epoch,
        ) == Admission::Superseded
    }

    pub(crate) fn note_presentation_set_accepted(&mut self, request: ScanoutBindRequest)
        ensures
            *final(self) == old(self).set_accepted(request),
    {
        if request.resource_id != 0 && decide_epoch(
            self.presentation_epoch_floor,
            request.present_epoch,
        ) == Admission::Newer {
            self.presentation_epoch_floor = request.present_epoch;
        }
    }

    pub(crate) fn claim_publication(&mut self, request: ScanoutBindRequest, seq: u64) -> (r: bool)
        ensures
            r == old(self).claimed(request, seq).0,
            *final(self) == old(self).claimed(request, seq).1,
    {
        if self.publication.is_some() {
            return false;
        }
        self.publication = Some(
            Publication { key: publication_key(request), seq, phase: PublicationPhase::SetInFlight },
        );
        self.publication_request = Some(request);
        true
    }

    pub(crate) fn complete_publication_set(
        &mut self,
        request: ScanoutBindRequest,
        seq: u64,
        ok: bool,
    ) -> (r: bool)
        ensures
            r == old(self).set_done(request, seq, ok).0,
            *final(self) == old(self).set_done(request, seq, ok).1,
    {
        match (self.publication_request, self.publication) {
            (Some(owner), Some(p)) => {
                if owner == request && p.key == publication_key(request) && p.seq == seq && p.phase
                    == PublicationPhase::SetInFlight {
                    if ok {
                        self.publication = Some(
                            Publication { phase: PublicationPhase::SetSucceeded, ..p },
                        );
                    } else {
                        self.publication = None;
                        self.publication_request = None;
                    }
                    return true;
                }
                false
            },
            _ => false,
        }
    }

    fn change_phase(&mut self, key: PublicationKey, from: PublicationPhase, to: PublicationPhase) -> (r:
        bool)
        ensures
            r == (old(self).publication matches Some(p) && p.key == key && p.phase == from && old(
                self,
            ).owns(key)),
            *final(self) == if r {
                (FastBindState {
                    publication: Some(Publication { phase: to, ..old(self).publication->0 }),
                    ..*old(self)
                })
            } else {
                *old(self)
            },
    {
        match (self.publication_request, self.publication) {
            (Some(owner), Some(p)) => {
                if publication_key(owner) == key && p.key == key && p.phase == from {
                    self.publication = Some(Publication { phase: to, ..p });
                    return true;
                }
                false
            },
            _ => false,
        }
    }

    pub(crate) fn arm_flush(&mut self, key: PublicationKey) -> (r: bool)
        ensures
            r == old(self).armed(key).0,
            *final(self) == old(self).armed(key).1,
    {
        self.change_phase(key, PublicationPhase::SetSucceeded, PublicationPhase::FlushInFlight)
    }

    pub(crate) fn rollback_flush(&mut self, key: PublicationKey) -> (r: bool)
        ensures
            r == old(self).rolled_back(key).0,
            *final(self) == old(self).rolled_back(key).1,
    {
        self.change_phase(key, PublicationPhase::FlushInFlight, PublicationPhase::SetSucceeded)
    }

    pub(crate) fn complete_flush(&mut self, key: PublicationKey) -> (r: bool)
        ensures
            r == old(self).flush_done(key).0,
            *final(self) == old(self).flush_done(key).1,
    {
        if let Some(p) = self.publication {
            if p.key == key && p.phase == PublicationPhase::FlushInFlight {
                self.publication = None;
                self.publication_request = None;
                return true;
            }
        }
        false
    }

    pub(crate) fn cancel_exact(&mut self, key: PublicationKey) -> (r: bool)
        ensures
            r == old(self).released(key).0,
            *final(self) == old(self).released(key).1,
    {
        if let Some(p) = self.publication {
            if p.key == key {
                self.publication = None;
                self.publication_request = None;
                return true;
            }
        }
        false
    }

    pub(crate) fn publication_for(&self, resource_id: u32) -> (r: Option<ScanoutBindRequest>)
        ensures
            r == self.request_for(resource_id),
    {
        match self.publication_request {
            Some(r) => if r.resource_id == resource_id {
                Some(r)
            } else {
                None
            },
            None => None,
        }
    }

    pub(crate) fn classify_refresh(&self, resource_id: u32) -> (r: PublicationRefresh)
        ensures
            r == self.refresh_for(resource_id),
    {
        match (self.publication, self.publication_request) {
            (None, _) => PublicationRefresh::NoActive,
            (Some(p), Some(request)) => if p.key == publication_key(request) && request.resource_id
                == resource_id && p.phase == PublicationPhase::SetSucceeded {
                PublicationRefresh::ReadyExact(request)
            } else {
                PublicationRefresh::Blocked
            },
            (Some(_), None) => PublicationRefresh::Blocked,
        }
    }

    pub(crate) fn accept(&mut self, seq: u64, resource_id: u32)
        ensures
            *final(self) == old(self).host_accepted(seq, resource_id),
    {
        if seq >= self.host_accepted_seq {
            self.host_accepted_seq = seq;
            self.host_accepted_resource = resource_id;
            self.host_accepted_fast = false;
            self.host_accepted_fast_request = None;
        }
    }

    pub(crate) fn accept_fast(&mut self, seq: u64, request: ScanoutBindRequest)
        ensures
            *final(self) == old(self).host_accepted_fast(seq, request),
    {
        if seq >= self.host_accepted_seq {
            self.host_accepted_seq = seq;
            self.host_accepted_resource = request.resource_id;
            self.host_accepted_fast = true;
            self.host_accepted_fast_request = Some(request);
        }
    }
}

impl VirtioGpu {
    /// Whether a publication owns the host's reader.
    pub fn publication_active(&self) -> (r: bool)
        ensures
            r == self@.fast.publication is Some,
    {
        self.fast.publication.is_some()
    }

    /// Mark the active publication's flush as sent.
    pub fn arm_publication_flush(&mut self, resource_id: u32, present_epoch: u64) -> (r: bool)
        ensures
            ({
                let key = PublicationKey { resource_id, present_epoch };
                &&& r == old(self)@.fast.armed(key).0
                &&& final(self)@ == (GpuState { fast: old(self)@.fast.armed(key).1, ..old(self)@ })
            }),
            final(self)@.follows(old(self)@),
    {
        self.fast.arm_flush(PublicationKey { resource_id, present_epoch })
    }

    /// End the active publication: its flush came back. A flush of anything else
    /// changes nothing.
    pub fn complete_publication_flush(&mut self, resource_id: u32, present_epoch: u64) -> (r: bool)
        ensures
            ({
                let key = PublicationKey { resource_id, present_epoch };
                &&& r == old(self)@.fast.flush_done(key).0
                &&& final(self)@ == (GpuState {
                    fast: old(self)@.fast.flush_done(key).1,
                    ..old(self)@
                })
            }),
            final(self)@.follows(old(self)@),
    {
        self.fast.complete_flush(PublicationKey { resource_id, present_epoch })
    }

    /// End the active publication without a flush.
    pub fn cancel_publication_exact(&mut self, resource_id: u32, present_epoch: u64) -> (r: bool)
        ensures
            ({
                let key = PublicationKey { resource_id, present_epoch };
                &&& r == old(self)@.fast.released(key).0
                &&& final(self)@ == (GpuState {
                    fast: old(self)@.fast.released(key).1,
                    ..old(self)@
                })
            }),
            final(self)@.follows(old(self)@),
    {
        self.fast.cancel_exact(PublicationKey { resource_id, present_epoch })
    }

    /// The active publication's request, if it is for this resource.
    pub fn publication_request_for(&self, resource_id: u32) -> (r: Option<ScanoutBindRequest>)
        ensures
            r == self@.fast.request_for(resource_id),
    {
        self.fast.publication_for(resource_id)
    }

    /// Whether a flush of this resource may be sent.
    pub fn publication_refresh_for(&self, resource_id: u32) -> (r: PublicationRefresh)
        ensures
            r == self@.fast.refresh_for(resource_id),
    {
        self.fast.classify_refresh(resource_id)
    }

    /// End the active publication of a resource that is being retired.
    pub fn cancel_publication_for_retirement(&mut self, resource_id: u32) -> (r: bool)
        ensures
            r == old(self)@.fast.retired_for(resource_id).0,
            final(self)@ == (GpuState {
                fast: old(self)@.fast.retired_for(resource_id).1,
                ..old(self)@
            }),
            final(self)@.follows(old(self)@),
    {
        match self.fast.publication_for(resource_id) {
            Some(request) => self.fast.cancel_exact(publication_key(request)),
            None => false,
        }
    }

    /// Record that the host has accepted SET number `seq`.
    pub fn note_host_accepted_scanout_bind(&mut self, seq: u64, resource_id: u32)
        ensures
            final(self)@ == (GpuState {
                fast: old(self)@.fast.host_accepted(seq, resource_id),
                ..old(self)@
            }),
            final(self)@.follows(old(self)@),
    {
        self.fast.accept(seq, resource_id);
    }

    /// The newest SET that the host has accepted, and its resource.
    pub fn host_accepted_scanout_bind(&self) -> (r: (u64, u32))
        ensures
            r == (self@.fast.host_accepted_seq, self@.fast.host_accepted_resource),
    {
        (self.fast.host_accepted_seq, self.fast.host_accepted_resource)
    }

    /// Take the accepted SET whose bookkeeping is to be applied.
    pub fn take_completed_bind(&mut self) -> (r: Option<CompletedBind>)
        ensures
            r == old(self)@.fast.completed_taken().0,
            final(self)@ == (GpuState { fast: old(self)@.fast.completed_taken().1, ..old(self)@ }),
            final(self)@.follows(old(self)@),
    {
        let bind = self.fast.completed;
        self.fast.completed = None;
        bind
    }

    /// Take the refused SET that the worker must look at.
    pub fn take_fast_failure_wake(&mut self) -> (r: Option<ScanoutBindRequest>)
        ensures
            r == old(self)@.fast.wake_taken().0,
            final(self)@ == (GpuState { fast: old(self)@.fast.wake_taken().1, ..old(self)@ }),
            final(self)@.follows(old(self)@),
    {
        let request = self.fast.fast_failure_wake;
        self.fast.fast_failure_wake = None;
        request
    }

    /// Freeze new SETs while a resource is retired, and drop those that wait.
    /// Returns the newest SET that the host has accepted, and its resource.
    pub fn begin_scanout_resource_retire(&mut self, resource_id: u32) -> (r: (u64, u32))
        ensures
            r == (old(self)@.fast.host_accepted_seq, old(self)@.fast.host_accepted_resource),
            final(self)@ == old(self)@.retire_begun(resource_id),
            final(self)@.follows(old(self)@),
    {
        self.fast.retiring_resource = resource_id;
        self.fast.retire_barrier = true;
        self.fast.deferred_worker = keep_other_resource(self.fast.deferred_worker, resource_id);
        self.fast.sync_worker_owned = keep_other_resource(self.fast.sync_worker_owned, resource_id);
        self.fast.deferred_earliest = None;
        self.fast.deferred_latest = None;
        self.fast.fast_failure_wake = keep_other_resource(self.fast.fast_failure_wake, resource_id);
        (self.fast.host_accepted_seq, self.fast.host_accepted_resource)
    }

    /// Let new SETs through again.
    pub fn finish_scanout_resource_retire(&mut self)
        ensures
            final(self)@ == (GpuState { fast: old(self)@.fast.retire_ended(), ..old(self)@ }),
            final(self)@.goes_on(old(self)@),
    {
        self.fast.retire_barrier = false;
    }

    /// Stop keeping the worker from a request that was published without it.
    pub fn release_fast_owned_worker(&mut self, request: ScanoutBindRequest)
        ensures
            final(self)@ == (GpuState {
                fast: FastBindState {
                    host_accepted_fast: old(self)@.fast.host_accepted_fast
                        && old(self)@.fast.host_accepted_fast_request != Some(request),
                    host_accepted_fast_request: other_request(
                        old(self)@.fast.host_accepted_fast_request,
                        request,
                    ),
                    deferred_worker: other_request(old(self)@.fast.deferred_worker, request),
                    ..old(self)@.fast
                },
                ..old(self)@
            }),
            final(self)@.follows(old(self)@),
    {
        if self.fast.host_accepted_fast_request == Some(request) {
            self.fast.host_accepted_fast = false;
            self.fast.host_accepted_fast_request = None;
        }
        if self.fast.deferred_worker == Some(request) {
            self.fast.deferred_worker = None;
        }
    }

    /// Give up the worker's claim on a request whose SET failed.
    pub fn release_failed_sync_worker_bind(&mut self, request: ScanoutBindRequest)
        ensures
            final(self)@ == (GpuState {
                fast: FastBindState {
                    sync_worker_owned: other_request(old(self)@.fast.sync_worker_owned, request),
                    ..old(self)@.fast
                },
                ..old(self)@
            }),
            final(self)@.follows(old(self)@),
    {
        if self.fast.sync_worker_owned == Some(request) {
            self.fast.sync_worker_owned = None;
        }
    }
}

/// `slot`, unless it is for `resource_id`.
pub open spec fn other_resource(slot: Option<ScanoutBindRequest>, resource_id: u32) -> Option<
    ScanoutBindRequest,
> {
    match slot {
        Some(r) => if r.resource_id == resource_id {
            None
        } else {
            slot
        },
        None => None,
    }
}

/// `slot`, unless it is `request`.
pub open spec fn other_request(slot: Option<ScanoutBindRequest>, request: ScanoutBindRequest) -> Option<
    ScanoutBindRequest,
> {
    if slot == Some(request) {
        None
    } else {
        slot
    }
}

fn keep_other_resource(slot: Option<ScanoutBindRequest>, resource_id: u32) -> (r: Option<
    ScanoutBindRequest,
>)
    ensures
        r == other_resource(slot, resource_id),
{
    match slot {
        Some(r) => if r.resource_id == resource_id {
            None
        } else {
            slot
        },
        None => None,
    }
}

/// The floor of accepted epochs never falls, whatever happens to a publication.
pub proof fn law_epoch_floor_never_falls(
    f: FastBindState,
    request: ScanoutBindRequest,
    key: PublicationKey,
    seq: u64,
    ok: bool,
)
    ensures
        f.set_accepted(request).presentation_epoch_floor >= f.presentation_epoch_floor,
        f.claimed(request, seq).1.presentation_epoch_floor == f.presentation_epoch_floor,
        f.set_done(request, seq, ok).1.presentation_epoch_floor == f.presentation_epoch_floor,
        f.armed(key).1.presentation_epoch_floor == f.presentation_epoch_floor,
        f.flush_done(key).1.presentation_epoch_floor == f.presentation_epoch_floor,
        f.released(key).1.presentation_epoch_floor == f.presentation_epoch_floor,
        FastBindState::blank(f.presentation_epoch_floor).presentation_epoch_floor
            == f.presentation_epoch_floor,
{
}

/// An accepted SET makes itself and everything older superseded.
pub proof fn law_accepted_set_supersedes(
    f: FastBindState,
    accepted: ScanoutBindRequest,
    older: ScanoutBindRequest,
)
    requires
        accepted.resource_id != 0,
        older.resource_id != 0,
        0 < older.present_epoch <= accepted.present_epoch,
    ensures
        f.set_accepted(accepted).superseded(older),
{
}

/// What the host shows is the SET with the highest number, in whatever order the
/// answers are recorded.
pub proof fn law_host_selection_follows_the_highest_set(
    f: FastBindState,
    s1: u64,
    r1: u32,
    s2: u64,
    r2: u32,
)
    requires
        f.host_accepted_seq <= s1 < s2,
    ensures
        f.host_accepted(s1, r1).host_accepted(s2, r2).host_accepted_resource == r2,
        f.host_accepted(s2, r2).host_accepted(s1, r1).host_accepted_resource == r2,
        f.host_accepted(s2, r2).host_accepted(s1, r1).host_accepted_seq == s2,
{
}

} // verus!
