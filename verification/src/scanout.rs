//! Scan-out publication: which buffer the host shows, and which it may be asked
//! to show next.
//!
//! One publication is active at a time. It owns the host's reader from the
//! moment its SET was accepted until its flush has come back. Epochs of accepted
//! SETs only rise.
use vstd::prelude::*;

verus! {

/// A request to show a buffer.
#[derive(Clone, Copy, Debug, PartialEq, Eq, Structural)]
pub struct ScanoutBindRequest {
    pub resource_id: u32,
    pub width: u32,
    pub height: u32,
    /// Wire format word.
    pub format: u32,
    pub stride: u32,
    pub offset: u32,
    /// The presentation epoch; 0 is untracked.
    pub present_epoch: u64,
    /// The address reported once the buffer is shown.
    pub primary_address: u64,
    /// The boundary at which the frame is complete; 0 is none.
    pub carried_watermark: u64,
}

/// A SET that the host has accepted.
#[derive(Clone, Copy, Debug, PartialEq, Eq, Structural)]
pub struct CompletedBind {
    pub seq: u64,
    pub resource_id: u32,
    /// Width in the upper and height in the lower half.
    pub wh: u64,
    pub present_epoch: u64,
    pub primary_address: u64,
    pub carried_watermark: u64,
    pub format: u32,
    pub stride: u32,
    pub offset: u32,
}

/// Why a fast SET did not reach the wire.
#[derive(Clone, Copy, Debug, PartialEq, Eq, Structural)]
pub enum FastBindRefusal {
    /// No command buffer is free, or a publication is active.
    Busy,
    /// A SET at or above this epoch was accepted already.
    Superseded,
    /// The command could not be encoded or queued.
    Failed,
}

/// What became of a fast SET.
#[derive(Clone, Copy, Debug, PartialEq, Eq, Structural)]
pub enum FastBindDispatch {
    /// The SET is on the wire.
    Queued,
    /// It waits for its producer or for the active publication.
    Deferred,
    /// The synchronous worker owns this very request.
    Handled,
    /// A SET at or above this epoch was accepted already.
    Superseded,
    Busy,
    Failed,
}

/// Whether a flush of the shown buffer may be sent.
#[derive(Clone, Copy, Debug, PartialEq, Eq, Structural)]
pub enum PublicationRefresh {
    NoActive,
    ReadyExact(ScanoutBindRequest),
    Blocked,
}

/// What the synchronous worker does with a request.
#[derive(Clone, Copy, Debug, PartialEq, Eq, Structural)]
pub enum WorkerBindDispatch {
    Ready,
    Waiting,
    Abandoned,
    Superseded,
}

/// Width and height packed as `wh`.
pub open spec fn packed(width: u32, height: u32) -> u64 {
    (width * 0x1_0000_0000 + height) as u64
}

/// Pack width and height.
pub fn pack_wh(width: u32, height: u32) -> (r: u64)
    ensures
        r == packed(width, height),
{
    width as u64 * 0x1_0000_0000 + height as u64
}

pub open spec fn request_of(bind: CompletedBind) -> ScanoutBindRequest {
    ScanoutBindRequest {
        resource_id: bind.resource_id,
        width: (bind.wh / 0x1_0000_0000) as u32,
        height: (bind.wh % 0x1_0000_0000) as u32,
        format: bind.format,
        stride: bind.stride,
        offset: bind.offset,
        present_epoch: bind.present_epoch,
        primary_address: bind.primary_address,
        carried_watermark: bind.carried_watermark,
    }
}

/// The request that an accepted SET came from.
pub fn completed_request(bind: CompletedBind) -> (r: ScanoutBindRequest)
    ensures
        r == request_of(bind),
{
    ScanoutBindRequest {
        resource_id: bind.resource_id,
        width: (bind.wh / 0x1_0000_0000) as u32,
        height: (bind.wh % 0x1_0000_0000) as u32,
        format: bind.format,
        stride: bind.stride,
        offset: bind.offset,
        present_epoch: bind.present_epoch,
        primary_address: bind.primary_address,
        carried_watermark: bind.carried_watermark,
    }
}

pub open spec fn bind_of(seq: u64, request: ScanoutBindRequest) -> CompletedBind {
    CompletedBind {
        seq,
        resource_id: request.resource_id,
        wh: packed(request.width, request.height),
        present_epoch: request.present_epoch,
        primary_address: request.primary_address,
        carried_watermark: request.carried_watermark,
        format: request.format,
        stride: request.stride,
        offset: request.offset,
    }
}

/// The accepted SET number `seq` for a request.
pub fn completed_bind(seq: u64, request: ScanoutBindRequest) -> (r: CompletedBind)
    ensures
        r == bind_of(seq, request),
{
    CompletedBind {
        seq,
        resource_id: request.resource_id,
        wh: pack_wh(request.width, request.height),
        present_epoch: request.present_epoch,
        primary_address: request.primary_address,
        carried_watermark: request.carried_watermark,
        format: request.format,
        stride: request.stride,
        offset: request.offset,
    }
}

/// A request survives its trip through an accepted SET.
pub proof fn law_completed_request_round_trip(seq: u64, request: ScanoutBindRequest)
    ensures
        request_of(bind_of(seq, request)) == request,
        bind_of(seq, request).seq == seq,
{
}

/// Identity of a publication.
#[derive(Clone, Copy, Debug, PartialEq, Eq, Structural)]
pub struct PublicationKey {
    pub resource_id: u32,
    pub present_epoch: u64,
}

/// How far a publication is.
#[derive(Clone, Copy, Debug, PartialEq, Eq, Structural)]
pub enum PublicationPhase {
    /// The SET is on the wire.
    SetInFlight,
    /// The host accepted the SET.
    SetSucceeded,
    /// The flush is on the wire.
    FlushInFlight,
}

/// The publication that owns the host's reader.
#[derive(Clone, Copy, Debug, PartialEq, Eq, Structural)]
pub struct Publication {
    pub key: PublicationKey,
    pub seq: u64,
    pub phase: PublicationPhase,
}

pub open spec fn key_of(request: ScanoutBindRequest) -> PublicationKey {
    PublicationKey { resource_id: request.resource_id, present_epoch: request.present_epoch }
}

/// The identity of a request's publication.
pub fn publication_key(request: ScanoutBindRequest) -> (r: PublicationKey)
    ensures
        r == key_of(request),
{
    PublicationKey { resource_id: request.resource_id, present_epoch: request.present_epoch }
}

/// Publication transitions. `None` means that the step does not apply and the
/// state stays as it is; `Some(next)` is the state after it.
pub open spec fn claimed(active: Option<Publication>, key: PublicationKey, seq: u64) -> Option<
    Option<Publication>,
> {
    if active is None {
        Some(Some(Publication { key, seq, phase: PublicationPhase::SetInFlight }))
    } else {
        None
    }
}

pub open spec fn set_completed(
    active: Option<Publication>,
    key: PublicationKey,
    seq: u64,
    ok: bool,
) -> Option<Option<Publication>> {
    match active {
        Some(p) => if p.key == key && p.seq == seq && p.phase == PublicationPhase::SetInFlight {
            Some(
                if ok {
                    Some(Publication { phase: PublicationPhase::SetSucceeded, ..p })
                } else {
                    None
                },
            )
        } else {
            None
        },
        None => None,
    }
}

pub open spec fn flush_armed(active: Option<Publication>, key: PublicationKey) -> Option<
    Option<Publication>,
> {
    match active {
        Some(p) => if p.key == key && p.phase == PublicationPhase::SetSucceeded {
            Some(Some(Publication { phase: PublicationPhase::FlushInFlight, ..p }))
        } else {
            None
        },
        None => None,
    }
}

pub open spec fn flush_rolled_back(active: Option<Publication>, key: PublicationKey) -> Option<
    Option<Publication>,
> {
    match active {
        Some(p) => if p.key == key && p.phase == PublicationPhase::FlushInFlight {
            Some(Some(Publication { phase: PublicationPhase::SetSucceeded, ..p }))
        } else {
            None
        },
        None => None,
    }
}

pub open spec fn flush_completed(active: Option<Publication>, key: PublicationKey) -> Option<
    Option<Publication>,
> {
    match active {
        Some(p) => if p.key == key && p.phase == PublicationPhase::FlushInFlight {
            Some(None)
        } else {
            None
        },
        None => None,
    }
}

pub open spec fn cancelled(active: Option<Publication>, key: PublicationKey) -> Option<
    Option<Publication>,
> {
    match active {
        Some(p) => if p.key == key {
            Some(None)
        } else {
            None
        },
        None => None,
    }
}

/// Only its own terminal step releases a publication: no step for another key
/// applies, and none can be claimed while it is active.
pub proof fn law_publication_is_exclusive(
    p: Publication,
    other: PublicationKey,
    seq: u64,
    ok: bool,
)
    requires
        other != p.key,
    ensures
        claimed(Some(p), other, seq) is None,
        claimed(Some(p), p.key, seq) is None,
        set_completed(Some(p), other, seq, ok) is None,
        flush_armed(Some(p), other) is None,
        flush_rolled_back(Some(p), other) is None,
        flush_completed(Some(p), other) is None,
        cancelled(Some(p), other) is None,
{
}

/// A publication that succeeds goes from claim over SET and flush back to idle,
/// and a refused flush can be armed again.
pub proof fn law_publication_life(key: PublicationKey, seq: u64)
    ensures
        ({
            let a = claimed(None, key, seq)->0;
            let b = set_completed(a, key, seq, true)->0;
            let c = flush_armed(b, key)->0;
            &&& claimed(None, key, seq) is Some
            &&& set_completed(a, key, seq, true) is Some
            &&& set_completed(a, key, seq, false) == Some(None::<Publication>)
            &&& flush_armed(b, key) is Some
            &&& flush_rolled_back(c, key) == Some(b)
            &&& flush_completed(c, key) == Some(None::<Publication>)
            &&& flush_completed(b, key) is None
        }),
{
}

/// Whether a SET for an epoch may still be sent.
#[derive(Clone, Copy, Debug, PartialEq, Eq, Structural)]
pub enum Admission {
    /// Epoch 0: not ordered.
    Untracked,
    /// Above every accepted epoch.
    Newer,
    /// At or below an accepted epoch.
    Superseded,
}

pub open spec fn admission_of(floor: u64, epoch: u64) -> Admission {
    if epoch == 0 {
        Admission::Untracked
    } else if epoch > floor {
        Admission::Newer
    } else {
        Admission::Superseded
    }
}

/// Whether a SET for `epoch` may still be sent above `floor`.
pub fn decide_epoch(floor: u64, epoch: u64) -> (r: Admission)
    ensures
        r == admission_of(floor, epoch),
{
    if epoch == 0 {
        Admission::Untracked
    } else if epoch > floor {
        Admission::Newer
    } else {
        Admission::Superseded
    }
}

/// Once an epoch was accepted, it and every older one are refused for good.
pub proof fn law_epoch_floor_is_final(floor: u64, accepted: u64, epoch: u64)
    requires
        admission_of(floor, accepted) == Admission::Newer,
        0 < epoch <= accepted,
    ensures
        floor < accepted,
        admission_of(accepted, epoch) == Admission::Superseded,
{
}

/// A dirty scan-out buffer and the boundary after which it may be read.
#[derive(Clone, Copy, Debug, PartialEq, Eq, Structural)]
pub struct RefreshMarker {
    /// 0 means whatever is shown.
    pub resource_id: u32,
    pub boundary: u64,
}

/// At most two pending markers: the first, which nothing overtakes unless it is
/// ready, and the latest behind it.
#[derive(Clone, Copy, Debug, PartialEq, Eq, Structural)]
pub struct ScanoutRefreshState {
    pub earliest: Option<RefreshMarker>,
    pub latest: Option<RefreshMarker>,
}

impl ScanoutRefreshState {
    pub open spec fn idle() -> ScanoutRefreshState {
        ScanoutRefreshState { earliest: None, latest: None }
    }

    pub open spec fn wf(self) -> bool {
        self.latest is Some ==> self.earliest is Some
    }

    pub open spec fn noted(self, marker: RefreshMarker, ready: bool) -> ScanoutRefreshState {
        if ready {
            Self::idle()
        } else if self.earliest is None {
            ScanoutRefreshState { earliest: Some(marker), latest: self.latest }
        } else {
            ScanoutRefreshState { earliest: self.earliest, latest: Some(marker) }
        }
    }

    pub open spec fn taken(self, earliest_ready: bool, latest_ready: bool) -> (
        Option<RefreshMarker>,
        ScanoutRefreshState,
    ) {
        if self.latest is Some && latest_ready {
            (self.latest, Self::idle())
        } else if self.earliest is Some && earliest_ready {
            (self.earliest, ScanoutRefreshState { earliest: self.latest, latest: None })
        } else {
            (None, self)
        }
    }

    /// The markers that stay when only those that `keep` admits do.
    pub open spec fn kept(self, keep_earliest: bool, keep_latest: bool) -> ScanoutRefreshState {
        let latest = if keep_latest {
            self.latest
        } else {
            None
        };
        if keep_earliest {
            ScanoutRefreshState { earliest: self.earliest, latest }
        } else {
            ScanoutRefreshState { earliest: latest, latest: None }
        }
    }

    pub fn new() -> (r: Self)
        ensures
            r == Self::idle(),
            r.wf(),
    {
        ScanoutRefreshState { earliest: None, latest: None }
    }

    pub fn clear(&mut self)
        ensures
            *final(self) == Self::idle(),
    {
        self.earliest = None;
        self.latest = None;
    }

    /// Note a dirty buffer. A ready one replaces everything pending and `true`
    /// asks for the read now; else it waits.
    pub fn note(&mut self, marker: RefreshMarker, ready: bool) -> (r: bool)
        ensures
            r == ready,
            *final(self) == old(self).noted(marker, ready),
            old(self).wf() ==> final(self).wf(),
    {
        if ready {
            self.clear();
            return true;
        }
        if self.earliest.is_none() {
            self.earliest = Some(marker);
        } else {
            self.latest = Some(marker);
        }
        false
    }

    /// Take the marker to read now: the latest if it is ready, else the earliest
    /// if that is.
    pub fn take_ready(&mut self, earliest_ready: bool, latest_ready: bool) -> (r: Option<
        RefreshMarker,
    >)
        ensures
            r == old(self).taken(earliest_ready, latest_ready).0,
            *final(self) == old(self).taken(earliest_ready, latest_ready).1,
            old(self).wf() ==> final(self).wf(),
    {
        if latest_ready && self.latest.is_some() {
            let marker = self.latest;
            self.clear();
            return marker;
        }
        if earliest_ready && self.earliest.is_some() {
            let marker = self.earliest;
            self.earliest = self.latest;
            self.latest = None;
            return marker;
        }
        None
    }

    /// Drop cancelled markers.
    pub fn discard(&mut self, keep_earliest: bool, keep_latest: bool)
        ensures
            *final(self) == old(self).kept(keep_earliest, keep_latest),
            old(self).wf() ==> final(self).wf(),
    {
        if !keep_latest {
            self.latest = None;
        }
        if !keep_earliest {
            self.earliest = self.latest;
            self.latest = None;
        }
    }
}

/// The first pending marker stays first however many follow, so a producer that
/// never pauses cannot postpone every read.
pub proof fn law_earliest_marker_is_not_overtaken(s: ScanoutRefreshState, later: RefreshMarker)
    requires
        s.earliest is Some,
    ensures
        s.noted(later, false).earliest == s.earliest,
        s.noted(later, false).taken(true, false).0 == s.earliest,
        s.noted(later, false).taken(true, false).1.earliest == Some(later),
{
}

} // verus!
