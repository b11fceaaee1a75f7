//! CAN identifiers, identifier masks and acceptance filters.

use vstd::prelude::*;
use vstd::slice::slice_to_vec;

verus! {

/// Largest 11-bit identifier.
pub const STD_ID_MAX: u16 = 0x7FF;

/// Largest 29-bit identifier.
pub const EXT_ID_MAX: u32 = 0x1FFF_FFFF;

/// Range check of an 11-bit identifier, by `embedded_can::StandardId::new` and `as_raw`.
///
/// `new` accepts a raw value exactly when it is at most `0x7FF`, and `as_raw` gives the accepted
/// value back.
#[verifier::external_body]
fn check_standard(raw: u16) -> (r: Option<u16>)
    ensures
        r == (if raw <= STD_ID_MAX {
            Some(raw)
        } else {
            None::<u16>
        }),
{
    match embedded_can::StandardId::new(raw) {
        Some(id) => Some(id.as_raw()),
        None => None,
    }
}

/// Range check of a 29-bit identifier, by `embedded_can::ExtendedId::new` and `as_raw`.
///
/// `new` accepts a raw value exactly when it is at most `0x1FFF_FFFF`, and `as_raw` gives the
/// accepted value back.
#[verifier::external_body]
fn check_extended(raw: u32) -> (r: Option<u32>)
    ensures
        r == (if raw <= EXT_ID_MAX {
            Some(raw)
        } else {
            None::<u32>
        }),
{
    match embedded_can::ExtendedId::new(raw) {
        Some(id) => Some(id.as_raw()),
        None => None,
    }
}

/// Standard 11-bit identifier (`0..=0x7FF`); its view is the raw number.
#[derive(Clone, Copy, Debug, PartialEq, Eq, PartialOrd, Ord, Hash, Structural)]
pub struct StandardId {
    raw: u16,
}

impl View for StandardId {
    type V = u16;

    closed spec fn view(&self) -> u16 {
        self.raw
    }
}

impl StandardId {
    #[verifier::type_invariant]
    spec fn in_range(self) -> bool {
        self.raw <= STD_ID_MAX
    }

    /// The identifier with this raw number, or `None` if it does not fit in 11 bits.
    pub fn new(raw: u16) -> (r: Option<StandardId>)
        ensures
            match r {
                Some(id) => raw <= STD_ID_MAX && id@ == raw,
                None => raw > STD_ID_MAX,
            },
    {
        match check_standard(raw) {
            Some(raw) => Some(StandardId { raw }),
            None => None,
        }
    }

    /// The raw number.
    pub fn as_raw(&self) -> (raw: u16)
        ensures
            raw == self@,
            raw <= STD_ID_MAX,
    {
        proof {
            use_type_invariant(self);
        }
        self.raw
    }
}

/// Extended 29-bit identifier (`0..=0x1FFF_FFFF`); its view is the raw number.
#[derive(Clone, Copy, Debug, PartialEq, Eq, PartialOrd, Ord, Hash, Structural)]
pub struct ExtendedId {
    raw: u32,
}

impl View for ExtendedId {
    type V = u32;

    closed spec fn view(&self) -> u32 {
        self.raw
    }
}

impl ExtendedId {
    #[verifier::type_invariant]
    spec fn in_range(self) -> bool {
        self.raw <= EXT_ID_MAX
    }

    /// The identifier with this raw number, or `None` if it does not fit in 29 bits.
    pub fn new(raw: u32) -> (r: Option<ExtendedId>)
        ensures
            match r {
                Some(id) => raw <= EXT_ID_MAX && id@ == raw,
                None => raw > EXT_ID_MAX,
            },
    {
        match check_extended(raw) {
            Some(raw) => Some(ExtendedId { raw }),
            None => None,
        }
    }

    /// The raw number.
    pub fn as_raw(&self) -> (raw: u32)
        ensures
            raw == self@,
            raw <= EXT_ID_MAX,
    {
        proof {
            use_type_invariant(self);
        }
        self.raw
    }
}

/// A CAN identifier of either width.
#[derive(Clone, Copy, Debug, PartialEq, Eq, Hash, Structural)]
pub enum Id {
    /// 11-bit identifier.
    Standard(StandardId),
    /// 29-bit identifier.
    Extended(ExtendedId),
}

impl Id {
    /// Whether this is a 29-bit identifier.
    pub open spec fn extended(self) -> bool {
        self is Extended
    }

    /// The raw number, whatever the width.
    pub open spec fn raw(self) -> u32 {
        match self {
            Id::Standard(id) => id@ as u32,
            Id::Extended(id) => id@,
        }
    }

    /// Whether the number fits the width, as it does for every identifier that was constructed.
    pub open spec fn in_range(self) -> bool {
        match self {
            Id::Standard(id) => id@ <= STD_ID_MAX,
            Id::Extended(id) => id@ <= EXT_ID_MAX,
        }
    }
}

/// Whether width and number both agree.
pub fn id_matches(actual: Id, expected: &Id) -> (r: bool)
    ensures
        r == (actual == *expected),
{
    actual == *expected
}

/// The 29-bit identifier with this number.
pub closed spec fn ext_id(raw: u32) -> Id {
    Id::Extended(ExtendedId { raw })
}

/// The 29-bit identifier with a number has that width and number.
pub proof fn ext_id_has_its_number(raw: u32)
    ensures
        ext_id(raw) is Extended,
        ext_id(raw).raw() == raw,
{
}

/// The 11-bit identifier with this number.
pub closed spec fn std_id(raw: u16) -> Id {
    Id::Standard(StandardId { raw })
}

/// The 11-bit identifier with a number has that width and number.
pub proof fn std_id_has_its_number(raw: u16)
    ensures
        std_id(raw) is Standard,
        std_id(raw).raw() == raw,
{
}

/// Two identifiers of the same width and number are the same value.
pub proof fn equal_raw_ids_are_equal(a: Id, b: Id)
    requires
        a.extended() == b.extended(),
        a.raw() == b.raw(),
    ensures
        a == b,
{
}

/// A mask over the bits of an identifier.
#[derive(Clone, Copy, Debug, PartialEq, Eq, Hash, Structural)]
pub enum IdMask {
    /// Mask over 11-bit identifiers.
    Standard(u16),
    /// Mask over 29-bit identifiers.
    Extended(u32),
}

/// An acceptance filter: accept identifiers that agree with `id` in the bits set in `mask`.
#[derive(Clone, Copy, Debug, PartialEq, Eq, Hash, Structural)]
pub struct IdMaskFilter {
    /// Identifier to agree with.
    pub id: Id,
    /// Bits that are compared.
    pub mask: IdMask,
}

impl IdMaskFilter {
    /// Whether the filter accepts `id`: all widths agree, and the masked bits agree.
    pub open spec fn accepts(self, id: Id) -> bool {
        match (self.id, self.mask, id) {
            (Id::Standard(want), IdMask::Standard(mask), Id::Standard(got)) => got@ & mask == want@
                & mask,
            (Id::Extended(want), IdMask::Extended(mask), Id::Extended(got)) => got@ & mask == want@
                & mask,
            _ => false,
        }
    }
}

/// A CAN data frame: an identifier and the bytes it carries.
#[derive(Debug)]
pub struct Frame {
    /// Identifier the frame is sent under.
    pub id: Id,
    /// Payload bytes.
    pub data: Vec<u8>,
}

/// A frame with its bytes as a mathematical sequence.
pub struct FrameView {
    /// Identifier.
    pub id: Id,
    /// Payload bytes.
    pub data: Seq<u8>,
}

impl View for Frame {
    type V = FrameView;

    open spec fn view(&self) -> FrameView {
        FrameView { id: self.id, data: self.data@ }
    }
}

impl Clone for Frame {
    fn clone(&self) -> (r: Self)
        ensures
            r@ == self@,
    {
        Frame { id: self.id, data: slice_to_vec(self.data.as_slice()) }
    }
}

/// An identifier can have any number below 2^11, or below 2^29, and no other, and keeps it.
pub proof fn identifiers_fit_their_width(
    std_raw: u16,
    std: Option<StandardId>,
    ext_raw: u32,
    ext: Option<ExtendedId>,
)
    requires
        call_ensures(StandardId::new, (std_raw,), std),
        call_ensures(ExtendedId::new, (ext_raw,), ext),
    ensures
        std is Some <==> std_raw < 0x800,
        std matches Some(id) ==> id@ == std_raw,
        ext is Some <==> ext_raw < 0x2000_0000,
        ext matches Some(id) ==> id@ == ext_raw,
{
}

/// A filter accepts exactly the identifiers of its own width whose number agrees with its own in
/// every bit that the mask has; a mask of the other width accepts nothing.
pub proof fn filters_compare_masked_bits(filter: IdMaskFilter, id: Id)
    ensures
        filter.mask matches IdMask::Standard(mask) ==> (filter.accepts(id) <==> filter.id is Standard
            && id is Standard && id.raw() & (mask as u32) == filter.id.raw() & (mask as u32)),
        filter.mask matches IdMask::Extended(mask) ==> (filter.accepts(id) <==> filter.id is Extended
            && id is Extended && id.raw() & mask == filter.id.raw() & mask),
{
}

} // verus!
