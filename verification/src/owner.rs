//! Who owns tracked contexts and blobs.
use vstd::prelude::*;

verus! {

/// A device handle that can own tracked state; never null.
///
/// `None` in an `Option<DeviceOwner>` stands for the driver itself, so a null
/// handle from outside can never name the driver's own objects.
#[derive(Clone, Copy, Debug, PartialEq, Eq, Structural)]
pub struct DeviceOwner {
    handle: usize,
}

impl DeviceOwner {
    #[verifier::type_invariant]
    spec fn nonnull(self) -> bool {
        self.handle != 0
    }

    pub closed spec fn spec_raw(self) -> usize {
        self.handle
    }

    /// `None` for a null handle.
    pub fn new(raw: usize) -> (r: Option<Self>)
        ensures
            r is Some <==> raw != 0,
            r is Some ==> r->0.spec_raw() == raw,
    {
        if raw == 0 {
            None
        } else {
            Some(DeviceOwner { handle: raw })
        }
    }

    /// The handle value.
    pub fn raw(self) -> (r: usize)
        ensures
            r == self.spec_raw(),
            r != 0,
    {
        proof {
            use_type_invariant(self);
        }
        self.handle
    }

    /// Whether both are the same device.
    pub fn same(self, other: Self) -> (r: bool)
        ensures
            r == (self == other),
    {
        self.handle == other.handle
    }
}

/// Two owners are the same device exactly when their handles are equal.
pub proof fn law_owner_is_its_handle(a: DeviceOwner, b: DeviceOwner)
    ensures
        a == b <==> a.spec_raw() == b.spec_raw(),
{
}

/// Whether `a` and `b` name the same owner; the driver is one owner.
pub fn same_owner(a: Option<DeviceOwner>, b: Option<DeviceOwner>) -> (r: bool)
    ensures
        r == (a == b),
{
    match (a, b) {
        (Some(x), Some(y)) => x.same(y),
        (None, None) => true,
        _ => false,
    }
}

/// A context id that was resolved against its owner.
#[derive(Clone, Copy, Debug)]
pub struct OwnedCtx {
    id: u32,
}

impl OwnedCtx {
    pub closed spec fn spec_id(self) -> u32 {
        self.id
    }

    pub(crate) fn resolved(id: u32) -> (r: Self)
        ensures
            r.spec_id() == id,
    {
        OwnedCtx { id }
    }

    /// The wire context id.
    pub fn id(self) -> (r: u32)
        ensures
            r == self.spec_id(),
    {
        self.id
    }
}

/// Which slots a blob lookup may match.
#[derive(Clone, Copy, Debug)]
pub enum OwnerFilter {
    /// Every slot.
    Any,
    /// The slots of one owner; `None` is the driver itself.
    Exactly(Option<DeviceOwner>),
}

impl OwnerFilter {
    pub open spec fn admits(self, owner: Option<DeviceOwner>) -> bool {
        match self {
            OwnerFilter::Any => true,
            OwnerFilter::Exactly(o) => owner == o,
        }
    }

    /// Whether a slot of `owner` may match.
    pub fn matches_owner(self, owner: Option<DeviceOwner>) -> (r: bool)
        ensures
            r == self.admits(owner),
    {
        match self {
            OwnerFilter::Any => true,
            OwnerFilter::Exactly(o) => same_owner(owner, o),
        }
    }
}

} // verus!
