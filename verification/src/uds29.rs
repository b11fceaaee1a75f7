//! 29-bit CAN identifier schemes commonly used with UDS (Unified Diagnostic Services).
//!
//! A widely-used diagnostics scheme uses 29-bit identifiers of the form `0x18DA_TA_SA` (physical)
//! or `0x18DB_TA_SA` (functional), where `TA` is the **target address** and `SA` is the **source
//! address**.

use crate::id;
use crate::id::{ExtendedId, Id, IdMask, IdMaskFilter};
use vstd::prelude::*;
use vstd::slice::slice_subrange;

pub use crate::id::EXT_ID_MAX;

verus! {

/// 29-bit UDS addressing kind (normal fixed).
#[derive(Debug, Clone, Copy, PartialEq, Eq, Structural)]
pub enum Uds29Kind {
    /// Physical addressing (PDU Format `0xDA`): `0x18DA_TA_SA`.
    Physical,
    /// Functional addressing (PDU Format `0xDB`): `0x18DB_TA_SA`.
    Functional,
}

/// Parsed 29-bit UDS addressing identifier (`0x18DA/0x18DB _TA_SA`).
#[derive(Debug, Clone, Copy, PartialEq, Eq, Structural)]
pub struct Uds29Id {
    pub kind: Uds29Kind,
    pub target: u8,
    pub source: u8,
}

/// UDS physical addressing base for 29-bit "normal fixed" addressing.
pub const PHYS_BASE: u32 = 0x18DA_0000;

/// UDS functional addressing base for 29-bit "normal fixed" addressing.
pub const FUNC_BASE: u32 = 0x18DB_0000;

/// Mask that matches the fixed "base" bits for the `0x18DA_TA_SA` / `0x18DB_TA_SA` patterns.
pub const BASE_MASK: u32 = 0x1FFF_0000;

/// Mask that matches a single `TA` but ignores `SA` (useful for "accept all senders to me").
pub const TARGET_MASK: u32 = 0x1FFF_FF00;

impl Uds29Kind {
    /// Base of the identifiers of this kind.
    pub open spec fn base(self) -> u32 {
        match self {
            Uds29Kind::Physical => PHYS_BASE,
            Uds29Kind::Functional => FUNC_BASE,
        }
    }
}

impl Uds29Id {
    /// The raw identifier: base, then one byte of target, then one byte of source.
    pub open spec fn raw(self) -> int {
        self.kind.base() + self.target * 0x100 + self.source
    }
}

/// The number of an addressing kind: 0 for physical, 1 for functional.
pub fn uds_kind_code(kind: Uds29Kind) -> (r: u8)
    ensures
        r == kind.base() / 0x1_0000 - 0x18DA,
{
    match kind {
        Uds29Kind::Physical => 0,
        Uds29Kind::Functional => 1,
    }
}

/// Encode a 29-bit UDS identifier as a raw `u32`.
pub fn encode_id_raw(kind: Uds29Kind, target: u8, source: u8) -> (raw: u32)
    ensures
        raw == (Uds29Id { kind, target, source }).raw(),
{
    let base: u32 = match kind {
        Uds29Kind::Physical => PHYS_BASE,
        Uds29Kind::Functional => FUNC_BASE,
    };
    base + target as u32 * 0x100 + source as u32
}

/// Decode a raw 29-bit CAN identifier of the form `0x18DA_TA_SA` / `0x18DB_TA_SA`.
pub fn decode_id_raw(raw: u32) -> (r: Option<Uds29Id>)
    ensures
        match r {
            Some(id) => raw == id.raw(),
            None => forall|id: Uds29Id| raw != #[trigger] id.raw(),
        },
{
    let base: u32 = raw - raw % 0x1_0000;
    let kind = if base == PHYS_BASE {
        Uds29Kind::Physical
    } else if base == FUNC_BASE {
        Uds29Kind::Functional
    } else {
        return None;
    };
    let target: u8 = (raw / 0x100 % 0x100) as u8;
    let source: u8 = (raw % 0x100) as u8;
    Some(Uds29Id { kind, target, source })
}

/// The CAN identifier of an address.
pub open spec fn uds_id(kind: Uds29Kind, target: u8, source: u8) -> Id {
    id::ext_id((Uds29Id { kind, target, source }).raw() as u32)
}

/// The address that a CAN identifier stands for, if any.
pub open spec fn address_of(id: Id) -> Option<Uds29Id> {
    let target = (id.raw() / 0x100 % 0x100) as u8;
    let source = (id.raw() % 0x100) as u8;
    if id is Extended && id.raw() / 0x1_0000 == 0x18DA {
        Some(Uds29Id { kind: Uds29Kind::Physical, target, source })
    } else if id is Extended && id.raw() / 0x1_0000 == 0x18DB {
        Some(Uds29Id { kind: Uds29Kind::Functional, target, source })
    } else {
        None
    }
}

/// Kind, target and source can be read off an address's raw identifier.
proof fn raw_parts(id: Uds29Id)
    ensures
        id.raw() / 0x1_0000 == (if id.kind is Physical {
            0x18DAint
        } else {
            0x18DBint
        }),
        id.raw() / 0x100 % 0x100 == id.target,
        id.raw() % 0x100 == id.source,
{
    let low = id.target * 0x100 + id.source;
    let high = if id.kind is Physical {
        0x18DAint
    } else {
        0x18DBint
    };
    assert(id.raw() == high * 0x1_0000 + low);
    assert(id.raw() / 0x1_0000 == high);
    let middle = high * 0x100 + id.target;
    assert(id.raw() == middle * 0x100 + id.source);
    assert(id.raw() / 0x100 == middle);
    assert(id.raw() % 0x100 == id.source);
    assert(middle % 0x100 == id.target);
}

/// The address of an address's identifier is that address.
pub proof fn address_of_uds_id(kind: Uds29Kind, target: u8, source: u8)
    ensures
        address_of(uds_id(kind, target, source)) == Some(Uds29Id { kind, target, source }),
{
    id::ext_id_has_its_number((Uds29Id { kind, target, source }).raw() as u32);
    raw_parts(Uds29Id { kind, target, source });
}

/// Encode a 29-bit UDS identifier as a CAN [`Id`].
pub fn encode_id(kind: Uds29Kind, target: u8, source: u8) -> (r: Id)
    ensures
        r is Extended,
        r.raw() == (Uds29Id { kind, target, source }).raw(),
        r == uds_id(kind, target, source),
{
    let raw: u32 = encode_id_raw(kind, target, source);
    let r = Id::Extended(ExtendedId::new(raw).unwrap());
    proof {
        id::ext_id_has_its_number(raw);
        id::equal_raw_ids_are_equal(r, id::ext_id(raw));
    }
    r
}

/// Decode a CAN [`Id`] as a 29-bit UDS identifier.
pub fn decode_id(id: Id) -> (r: Option<Uds29Id>)
    ensures
        r == address_of(id),
        match r {
            Some(uds) => id is Extended && id.raw() == uds.raw(),
            None => id is Standard || forall|uds: Uds29Id| id.raw() != #[trigger] uds.raw(),
        },
{
    match id {
        Id::Extended(ext) => {
            let r = decode_id_raw(ext.as_raw());
            proof {
                match r {
                    Some(uds) => raw_parts(uds),
                    None => not_a_uds_identifier(ext@),
                }
            }
            r
        },
        Id::Standard(_) => None,
    }
}

/// Encode a 29-bit physical-addressing CAN identifier as a raw `u32` (`0x18DA_TA_SA`).
pub fn encode_phys_id_raw(target: u8, source: u8) -> (raw: u32)
    ensures
        raw == PHYS_BASE + target * 0x100 + source,
{
    encode_id_raw(Uds29Kind::Physical, target, source)
}

/// Encode a 29-bit functional-addressing CAN identifier as a raw `u32` (`0x18DB_TA_SA`).
pub fn encode_func_id_raw(target: u8, source: u8) -> (raw: u32)
    ensures
        raw == FUNC_BASE + target * 0x100 + source,
{
    encode_id_raw(Uds29Kind::Functional, target, source)
}

/// Decode a raw 29-bit CAN identifier of the form `0x18DA_TA_SA`.
pub fn decode_phys_id_raw(raw: u32) -> (r: Option<(u8, u8)>)
    ensures
        match r {
            Some((target, source)) => raw == PHYS_BASE + target * 0x100 + source,
            None => !(PHYS_BASE <= raw < PHYS_BASE + 0x1_0000),
        },
{
    match decode_id_raw(raw) {
        Some(Uds29Id { kind: Uds29Kind::Physical, target, source }) => Some((target, source)),
        Some(_) => None,
        None => {
            proof {
                not_a_uds_identifier(raw);
            }
            None
        },
    }
}

/// Decode a raw 29-bit CAN identifier of the form `0x18DB_TA_SA`.
pub fn decode_func_id_raw(raw: u32) -> (r: Option<(u8, u8)>)
    ensures
        match r {
            Some((target, source)) => raw == FUNC_BASE + target * 0x100 + source,
            None => !(FUNC_BASE <= raw < FUNC_BASE + 0x1_0000),
        },
{
    match decode_id_raw(raw) {
        Some(Uds29Id { kind: Uds29Kind::Functional, target, source }) => Some((target, source)),
        Some(_) => None,
        None => {
            proof {
                not_a_uds_identifier(raw);
            }
            None
        },
    }
}

/// Encode a 29-bit physical-addressing CAN identifier as a CAN [`Id`].
pub fn encode_phys_id(target: u8, source: u8) -> (r: Id)
    ensures
        r is Extended,
        r.raw() == PHYS_BASE + target * 0x100 + source,
        r == uds_id(Uds29Kind::Physical, target, source),
{
    encode_id(Uds29Kind::Physical, target, source)
}

/// Encode a 29-bit functional-addressing CAN identifier as a CAN [`Id`].
pub fn encode_func_id(target: u8, source: u8) -> (r: Id)
    ensures
        r is Extended,
        r.raw() == FUNC_BASE + target * 0x100 + source,
        r == uds_id(Uds29Kind::Functional, target, source),
{
    encode_id(Uds29Kind::Functional, target, source)
}

/// Decode a CAN [`Id`] as a 29-bit UDS physical identifier.
pub fn decode_phys_id(id: Id) -> (r: Option<(u8, u8)>)
    ensures
        match r {
            Some((target, source)) => id is Extended && id.raw() == PHYS_BASE + target * 0x100
                + source,
            None => id is Standard || !(PHYS_BASE <= id.raw() < PHYS_BASE + 0x1_0000),
        },
{
    match id {
        Id::Extended(ext) => decode_phys_id_raw(ext.as_raw()),
        Id::Standard(_) => None,
    }
}

/// Decode a CAN [`Id`] as a 29-bit UDS functional identifier.
pub fn decode_func_id(id: Id) -> (r: Option<(u8, u8)>)
    ensures
        match r {
            Some((target, source)) => id is Extended && id.raw() == FUNC_BASE + target * 0x100
                + source,
            None => id is Standard || !(FUNC_BASE <= id.raw() < FUNC_BASE + 0x1_0000),
        },
{
    match id {
        Id::Extended(ext) => decode_func_id_raw(ext.as_raw()),
        Id::Standard(_) => None,
    }
}

/// A small helper for returning 1 or 2 acceptance filters without allocation; its view is the
/// sequence of filters.
#[derive(Debug, Clone, Copy, PartialEq, Eq)]
pub struct AcceptanceFilters {
    filters: [IdMaskFilter; 2],
    len: usize,
}

impl View for AcceptanceFilters {
    type V = Seq<IdMaskFilter>;

    closed spec fn view(&self) -> Seq<IdMaskFilter> {
        self.filters@.take(self.len as int)
    }
}

impl AcceptanceFilters {
    #[verifier::type_invariant]
    spec fn in_bounds(self) -> bool {
        self.len <= 2
    }

    /// The filters.
    pub fn as_slice(&self) -> (r: &[IdMaskFilter])
        ensures
            r@ == self@,
    {
        proof {
            use_type_invariant(self);
        }
        slice_subrange(self.filters.as_slice(), 0, self.len)
    }
}

/// The filter for all identifiers of one kind and target.
pub open spec fn is_target_filter(filter: IdMaskFilter, kind: Uds29Kind, target: u8) -> bool {
    &&& filter.id is Extended
    &&& filter.id.raw() == (Uds29Id { kind, target, source: 0 }).raw()
    &&& filter.mask == IdMask::Extended(TARGET_MASK)
}

fn filter_for_target_kind(kind: Uds29Kind, target: u8) -> (r: IdMaskFilter)
    ensures
        is_target_filter(r, kind, target),
{
    IdMaskFilter { id: encode_id(kind, target, 0), mask: IdMask::Extended(TARGET_MASK) }
}

/// Build an acceptance filter that matches any physical-addressing ID with `target`.
pub fn filter_phys_for_target(target: u8) -> (r: IdMaskFilter)
    ensures
        is_target_filter(r, Uds29Kind::Physical, target),
{
    filter_for_target_kind(Uds29Kind::Physical, target)
}

/// Build an acceptance filter that matches any functional-addressing ID with `target`.
pub fn filter_func_for_target(target: u8) -> (r: IdMaskFilter)
    ensures
        is_target_filter(r, Uds29Kind::Functional, target),
{
    filter_for_target_kind(Uds29Kind::Functional, target)
}

/// Build acceptance filters for:
/// - all physical frames addressed to `phys_target`, and
/// - (optionally) all functional frames addressed to `func_target`.
pub fn filters_for_targets(phys_target: u8, func_target: Option<u8>) -> (r: AcceptanceFilters)
    ensures
        are_target_filters(r@, phys_target, func_target),
{
    let phys = filter_phys_for_target(phys_target);
    if let Some(ft) = func_target {
        let func = filter_func_for_target(ft);
        AcceptanceFilters { filters: [phys, func], len: 2 }
    } else {
        AcceptanceFilters { filters: [phys, phys], len: 1 }
    }
}

/// A filter for all physical frames to `phys_target` and, where asked for, one for all functional
/// frames to `func_target`.
pub open spec fn are_target_filters(
    filters: Seq<IdMaskFilter>,
    phys_target: u8,
    func_target: Option<u8>,
) -> bool {
    &&& filters.len() == (if func_target is Some {
        2nat
    } else {
        1nat
    })
    &&& is_target_filter(filters[0], Uds29Kind::Physical, phys_target)
    &&& func_target matches Some(target) ==> is_target_filter(
        filters[1],
        Uds29Kind::Functional,
        target,
    )
}

/// No two addresses share a raw identifier, so decoding an encoded identifier gives the address
/// back.
pub proof fn identifiers_are_distinct(a: Uds29Id, b: Uds29Id)
    requires
        a.raw() == b.raw(),
    ensures
        a == b,
{
}

/// A number that is no address's raw identifier lies outside both identifier ranges.
pub proof fn not_a_uds_identifier(raw: u32)
    requires
        forall|id: Uds29Id| raw != #[trigger] id.raw(),
    ensures
        !(PHYS_BASE <= raw < PHYS_BASE + 0x1_0000),
        !(FUNC_BASE <= raw < FUNC_BASE + 0x1_0000),
{
    let target = (raw / 0x100 % 0x100) as u8;
    let source = (raw % 0x100) as u8;
    if PHYS_BASE <= raw < PHYS_BASE + 0x1_0000 {
        assert(raw == (Uds29Id { kind: Uds29Kind::Physical, target, source }).raw());
    }
    if FUNC_BASE <= raw < FUNC_BASE + 0x1_0000 {
        assert(raw == (Uds29Id { kind: Uds29Kind::Functional, target, source }).raw());
    }
}

/// A target filter accepts an identifier exactly when it is a UDS identifier of that kind and
/// target, whatever its source.
pub proof fn target_filter_accepts_exactly_its_target(
    filter: IdMaskFilter,
    kind: Uds29Kind,
    target: u8,
    id: Id,
)
    requires
        is_target_filter(filter, kind, target),
        id.in_range(),
    ensures
        filter.accepts(id) <==> id is Extended && exists|source: u8|
            id.raw() == #[trigger] (Uds29Id { kind, target, source }).raw(),
{
    if id is Extended {
        let got = id.raw();
        let want = filter.id.raw();
        assert((got & 0x1FFF_FF00 == want & 0x1FFF_FF00) == (got / 256 == want / 256))
            by (bit_vector)
            requires
                got <= 0x1FFF_FFFF,
                want <= 0x1FFF_FFFF,
        ;
        if filter.accepts(id) {
            let source = (got % 0x100) as u8;
            assert(got == (Uds29Id { kind, target, source }).raw());
        }
    }
}

/// An address is written into a 29-bit identifier as 0x18DA or 0x18DB for physical and functional,
/// then a byte of target, then a byte of source.
pub proof fn identifiers_spell_addresses(kind: Uds29Kind, target: u8, source: u8)
    ensures
        uds_id(kind, target, source) is Extended,
        uds_id(kind, target, source).in_range(),
        uds_id(kind, target, source).raw() == (match kind {
            Uds29Kind::Physical => 0x18DA_0000int,
            Uds29Kind::Functional => 0x18DB_0000int,
        }) + target * 256 + source,
{
    id::ext_id_has_its_number((Uds29Id { kind, target, source }).raw() as u32);
}

/// An identifier stands for an address exactly when it has 29 bits and lies in one of the two
/// ranges; then the address is the one that it spells.
pub proof fn addresses_are_read_off_identifiers(id: Id)
    ensures
        address_of(id) is Some <==> id is Extended && 0x18DA_0000 <= id.raw() <= 0x18DB_FFFF,
        address_of(id) matches Some(uds) ==> {
            &&& uds.kind is Physical <==> id.raw() <= 0x18DA_FFFF
            &&& id.raw() == (if uds.kind is Physical {
                0x18DA_0000int
            } else {
                0x18DB_0000
            }) + uds.target * 256 + uds.source
        },
{
}

/// The filters for a physical and perhaps a functional target let through exactly the frames that
/// are addressed to one of them, from whatever source.
pub proof fn target_filters_accept_what_is_addressed(
    filters: Seq<IdMaskFilter>,
    phys_target: u8,
    func_target: Option<u8>,
    id: Id,
)
    requires
        are_target_filters(filters, phys_target, func_target),
        id.in_range(),
    ensures
        (exists|i: int| 0 <= i < filters.len() && (#[trigger] filters[i]).accepts(id)) <==> (
        address_of(id) matches Some(uds) && match uds.kind {
            Uds29Kind::Physical => uds.target == phys_target,
            Uds29Kind::Functional => func_target == Some(uds.target),
        }),
{
    addresses_are_read_off_identifiers(id);
    target_filter_accepts_exactly_its_target(filters[0], Uds29Kind::Physical, phys_target, id);
    if let Some(target) = func_target {
        target_filter_accepts_exactly_its_target(filters[1], Uds29Kind::Functional, target, id);
    }
    if let Some(uds) = address_of(id) {
        assert(id.raw() == uds.raw());
        let target = uds.target;
        if uds.kind is Physical && target == phys_target {
            assert(filters[0].accepts(id));
        }
        if uds.kind is Functional && func_target == Some(target) {
            assert(filters[1].accepts(id));
        }
    }
    if filters[0].accepts(id) {
        let source = choose|source: u8|
            id.raw() == #[trigger] (Uds29Id {
                kind: Uds29Kind::Physical,
                target: phys_target,
                source,
            }).raw();
        raw_parts(Uds29Id { kind: Uds29Kind::Physical, target: phys_target, source });
    }
    if func_target is Some && filters[1].accepts(id) {
        let target = func_target->0;
        let source = choose|source: u8|
            id.raw() == #[trigger] (Uds29Id { kind: Uds29Kind::Functional, target, source }).raw();
        raw_parts(Uds29Id { kind: Uds29Kind::Functional, target, source });
    }
}

/// Raw numbers are encoded and decoded by the same spelling; a number of the other range, or of
/// none, is not decoded.
pub proof fn raw_codecs_agree(
    kind: Uds29Kind,
    target: u8,
    source: u8,
    raw: u32,
    phys: Option<(u8, u8)>,
    func: Option<(u8, u8)>,
)
    requires
        call_ensures(decode_phys_id_raw, (raw,), phys),
        call_ensures(decode_func_id_raw, (raw,), func),
    ensures
        call_ensures(encode_id_raw, (kind, target, source), raw) ==> {
            &&& raw == (match kind {
                Uds29Kind::Physical => 0x18DA_0000int,
                Uds29Kind::Functional => 0x18DB_0000int,
            }) + target * 256 + source
            &&& kind is Physical ==> phys == Some((target, source)) && func is None
            &&& kind is Functional ==> func == Some((target, source)) && phys is None
        },
        phys is Some <==> 0x18DA_0000 <= raw <= 0x18DA_FFFF,
        func is Some <==> 0x18DB_0000 <= raw <= 0x18DB_FFFF,
{
}

} // verus!
