//! Acceptance filters of raw SocketCAN sockets.

use crate::id::{Id, IdMask, IdMaskFilter, EXT_ID_MAX};
use vstd::prelude::*;

verus! {

/// Flag bit of a 29-bit identifier in a raw SocketCAN identifier.
pub const EFF_FLAG: u32 = 0x8000_0000;

/// The flag bit `libc::CAN_EFF_FLAG`, which is `0x8000_0000`.
#[verifier::external_body]
fn can_eff_flag() -> (r: u32)
    ensures
        r == EFF_FLAG,
{
    libc::CAN_EFF_FLAG
}

/// Why filters cannot be installed: an identifier and its mask differ in width.
#[derive(Debug, Clone, Copy, PartialEq, Eq, Structural)]
pub struct WidthMismatch;

/// A raw SocketCAN filter: accept `received` when `received & mask == id & mask`.
#[derive(Debug, Clone, Copy, PartialEq, Eq, Structural)]
pub struct RawFilter {
    /// Identifier bits, flags among them.
    pub id: u32,
    /// Bits that are compared.
    pub mask: u32,
}

impl RawFilter {
    /// Whether the kernel lets a raw identifier, flags among its bits, through.
    pub open spec fn matches(self, received: u32) -> bool {
        received & self.mask == self.id & self.mask
    }
}

/// The raw identifier of a data frame: its number, and the flag for 29 bits.
pub open spec fn raw_identifier(id: Id) -> u32 {
    match id {
        Id::Standard(id) => id@ as u32,
        Id::Extended(id) => id@ | EFF_FLAG,
    }
}

/// Whether identifier and mask have one width.
pub open spec fn widths_agree(f: IdMaskFilter) -> bool {
    f.id.extended() <==> f.mask is Extended
}

/// The raw filter for a filter whose widths agree.
///
/// The mask always covers the width flag, so that the other width is never let through.
pub open spec fn raw_filter(f: IdMaskFilter) -> RawFilter {
    match (f.id, f.mask) {
        (Id::Standard(id), IdMask::Standard(mask)) => RawFilter {
            id: id@ as u32,
            mask: mask as u32 | EFF_FLAG,
        },
        (Id::Extended(id), IdMask::Extended(mask)) => RawFilter {
            id: id@ | EFF_FLAG,
            mask: (mask & EXT_ID_MAX) | EFF_FLAG,
        },
        _ => arbitrary(),
    }
}

/// Turn a filter into the form of the socket.
pub fn to_socketcan_filter(f: &IdMaskFilter) -> (r: Result<RawFilter, WidthMismatch>)
    ensures
        r is Ok <==> widths_agree(*f),
        r matches Ok(raw) ==> raw == raw_filter(*f),
{
    match (f.id, f.mask) {
        (Id::Standard(id), IdMask::Standard(mask)) => {
            let mask: u32 = mask as u32;
            Ok(RawFilter { id: id.as_raw() as u32, mask: mask | can_eff_flag() })
        },
        (Id::Extended(id), IdMask::Extended(mask)) => Ok(
            RawFilter {
                id: id.as_raw() | can_eff_flag(),
                mask: (mask & 0x1FFF_FFFF) | can_eff_flag(),
            },
        ),
        _ => Err(WidthMismatch),
    }
}

/// What to install on a socket.
#[derive(Debug)]
pub enum SocketFilters {
    /// Let every frame through.
    AcceptAll,
    /// Let through what any of these lets through.
    Only(Vec<RawFilter>),
}

/// Whether one of the raw filters lets a raw identifier through.
pub open spec fn some_matches(list: Seq<RawFilter>, received: u32) -> bool {
    exists|i: int| 0 <= i < list.len() && (#[trigger] list[i]).matches(received)
}

impl SocketFilters {
    /// Whether a socket with these filters lets a raw identifier through.
    pub open spec fn matches(self, received: u32) -> bool {
        match self {
            SocketFilters::AcceptAll => true,
            SocketFilters::Only(list) => some_matches(list@, received),
        }
    }
}

/// What a list of filters comes to on a socket; no filter at all lets everything through.
pub fn set_filters(filters: &[IdMaskFilter]) -> (r: Result<SocketFilters, WidthMismatch>)
    ensures
        r is Ok <==> forall|i: int| 0 <= i < filters@.len() ==> widths_agree(#[trigger] filters@[i]),
        r matches Ok(SocketFilters::AcceptAll) ==> filters@.len() == 0,
        r matches Ok(SocketFilters::Only(list)) ==> filters@.len() > 0 && list@ == filters@.map_values(
            |f: IdMaskFilter| raw_filter(f),
        ),
{
    if filters.len() == 0 {
        return Ok(SocketFilters::AcceptAll);
    }
    let mut list: Vec<RawFilter> = Vec::new();
    let mut i: usize = 0;
    while i < filters.len()
        invariant
            i <= filters@.len(),
            filters@.len() > 0,
            forall|k: int| 0 <= k < i ==> widths_agree(#[trigger] filters@[k]),
            list@.len() == i,
            forall|k: int| 0 <= k < i ==> #[trigger] list@[k] == raw_filter(filters@[k]),
        decreases filters@.len() - i,
    {
        match to_socketcan_filter(&filters[i]) {
            Ok(raw) => list.push(raw),
            Err(e) => {
                assert(!widths_agree(filters@[i as int]));
                return Err(e);
            },
        }
        i += 1;
    }
    assert(list@ =~= filters@.map_values(|f: IdMaskFilter| raw_filter(f)));
    Ok(SocketFilters::Only(list))
}

/// The kernel lets a data frame through a raw filter exactly when the filter it was made from
/// accepts the frame's identifier.
pub proof fn raw_filter_accepts_what_its_filter_accepts(f: IdMaskFilter, id: Id)
    requires
        widths_agree(f),
        f.id.in_range(),
        id.in_range(),
    ensures
        raw_filter(f).matches(raw_identifier(id)) <==> f.accepts(id),
{
    match (f.id, f.mask) {
        (Id::Standard(want), IdMask::Standard(mask)) => {
            let want = want@;
            match id {
                Id::Standard(got) => {
                    let got = got@;
                    assert((got as u32 & (mask as u32 | 0x8000_0000u32) == want as u32 & (
                    mask as u32 | 0x8000_0000u32)) == (got & mask == want & mask)) by (bit_vector);
                },
                Id::Extended(got) => {
                    let got = got@;
                    assert((got | 0x8000_0000u32) & (mask as u32 | 0x8000_0000u32) != want as u32
                        & (mask as u32 | 0x8000_0000u32)) by (bit_vector);
                },
            }
        },
        (Id::Extended(want), IdMask::Extended(mask)) => {
            let want = want@;
            match id {
                Id::Standard(got) => {
                    let got = got@;
                    assert(got as u32 & ((mask & 0x1FFF_FFFFu32) | 0x8000_0000u32) != (want
                        | 0x8000_0000u32) & ((mask & 0x1FFF_FFFFu32) | 0x8000_0000u32))
                        by (bit_vector);
                },
                Id::Extended(got) => {
                    let got = got@;
                    assert(((got | 0x8000_0000u32) & ((mask & 0x1FFF_FFFFu32) | 0x8000_0000u32) == (
                    want | 0x8000_0000u32) & ((mask & 0x1FFF_FFFFu32) | 0x8000_0000u32)) == (got
                        & mask == want & mask)) by (bit_vector)
                        requires
                            got <= 0x1FFF_FFFFu32,
                            want <= 0x1FFF_FFFFu32,
                    ;
                },
            }
        },
        _ => {},
    }
}

/// A socket lets a data frame through exactly when one of the filters accepts its identifier.
pub proof fn socket_accepts_what_some_filter_accepts(
    filters: Seq<IdMaskFilter>,
    list: Vec<RawFilter>,
    id: Id,
)
    requires
        list@ == filters.map_values(|f: IdMaskFilter| raw_filter(f)),
        forall|i: int|
            0 <= i < filters.len() ==> widths_agree(#[trigger] filters[i])
                && filters[i].id.in_range(),
        id.in_range(),
    ensures
        SocketFilters::Only(list).matches(raw_identifier(id)) <==> exists|i: int|
            0 <= i < filters.len() && (#[trigger] filters[i]).accepts(id),
{
    assert forall|i: int| 0 <= i < filters.len() implies list@[i].matches(raw_identifier(id))
        == (#[trigger] filters[i]).accepts(id) by {
        raw_filter_accepts_what_its_filter_accepts(filters[i], id);
        assert(list@[i] == raw_filter(filters[i]));
    }
    let raw = raw_identifier(id);
    let only = SocketFilters::Only(list);
    assert(only.matches(raw) == some_matches(list@, raw));
    if only.matches(raw) {
        let i = choose|i: int| 0 <= i < list@.len() && (#[trigger] list@[i]).matches(raw);
        assert(filters[i].accepts(id));
    }
    if exists|i: int| 0 <= i < filters.len() && (#[trigger] filters[i]).accepts(id) {
        let i = choose|i: int| 0 <= i < filters.len() && (#[trigger] filters[i]).accepts(id);
        assert(list@[i].matches(raw));
    }
}

/// A raw identifier is the number, with the topmost bit set for 29 bits; a raw filter compares that
/// bit always, and of the number the bits of the mask that the width has.
pub proof fn raw_numbers(f: IdMaskFilter, id: Id)
    requires
        widths_agree(f),
        f.id.in_range(),
        id.in_range(),
    ensures
        raw_identifier(id) == id.raw() + (if id is Extended {
            0x8000_0000int
        } else {
            0
        }),
        raw_filter(f).id == raw_identifier(f.id),
        f.mask matches IdMask::Standard(mask) ==> raw_filter(f).mask == 0x8000_0000 + mask,
        f.mask matches IdMask::Extended(mask) ==> raw_filter(f).mask == 0x8000_0000 + mask
            % 0x2000_0000,
{
    let raw = id.raw();
    assert(raw | 0x8000_0000u32 == raw + 0x8000_0000) by (bit_vector)
        requires
            raw <= 0x1FFF_FFFFu32,
    ;
    match f.mask {
        IdMask::Standard(mask) => {
            assert(mask as u32 | 0x8000_0000u32 == mask + 0x8000_0000) by (bit_vector);
        },
        IdMask::Extended(mask) => {
            assert((mask & 0x1FFF_FFFFu32) | 0x8000_0000u32 == mask % 0x2000_0000 + 0x8000_0000)
                by (bit_vector);
        },
    }
}

/// A filter is turned into the form of the socket exactly when its widths agree.
pub proof fn filters_are_turned_raw(f: &IdMaskFilter, r: Result<RawFilter, WidthMismatch>)
    requires
        call_ensures(to_socketcan_filter, (f,), r),
    ensures
        r is Ok <==> (f.id is Extended <==> f.mask is Extended),
        r matches Ok(raw) ==> raw == raw_filter(*f),
{
}

} // verus!
