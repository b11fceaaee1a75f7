//! ISO-TP addressing schemes (ISO 15765-2): which identifiers and addressing bytes a pair of
//! addresses comes to.

use crate::config::IsoTpConfig;
use crate::errors::IsoTpError;
use crate::id;
use crate::id::{ExtendedId, Id};
use crate::time;
use vstd::prelude::*;

verus! {

/// Whether one node or every node is addressed.
#[derive(Debug, Clone, Copy, PartialEq, Eq, Structural)]
pub enum TargetAddressType {
    /// One node.
    Physical,
    /// Every node that listens to the functional address.
    Functional,
}

/// First identifier of normal fixed addressing.
pub open spec fn normal_fixed_base(kind: TargetAddressType) -> u32 {
    match kind {
        TargetAddressType::Physical => 0x18DA_0000,
        TargetAddressType::Functional => 0x18DB_0000,
    }
}

/// First identifier of mixed addressing with 29 bits.
pub open spec fn mixed_base(kind: TargetAddressType) -> u32 {
    match kind {
        TargetAddressType::Physical => 0x18CE_0000,
        TargetAddressType::Functional => 0x18CD_0000,
    }
}

/// The 29-bit identifier at `base` from one address to another.
pub open spec fn fixed_id(base: u32, to: u8, from: u8) -> Id {
    id::ext_id((base + to * 0x100 + from) as u32)
}

fn fixed_29(base: u32, to: u8, from: u8) -> (r: Option<Id>)
    requires
        base <= 0x18FF_0000,
    ensures
        r == Some(fixed_id(base, to, from)),
        r matches Some(id) ==> id is Extended && id.raw() == base + to * 0x100 + from,
{
    let raw: u32 = base + to as u32 * 0x100 + from as u32;
    match ExtendedId::new(raw) {
        Some(id) => {
            proof {
                id::ext_id_has_its_number(raw);
                id::equal_raw_ids_are_equal(Id::Extended(id), id::ext_id(raw));
            }
            Some(Id::Extended(id))
        },
        None => None,
    }
}

/// Identifier and addressing byte of sent frames.
#[derive(Debug, Clone, Copy, PartialEq, Eq, Structural)]
pub struct TxAddress {
    /// Identifier.
    pub id: Id,
    /// Addressing byte before the PCI, if any.
    pub addr: Option<u8>,
}

impl TxAddress {
    /// No addressing byte.
    pub fn normal(id: Id) -> (r: Self)
        ensures
            r == (TxAddress { id, addr: None }),
    {
        TxAddress { id, addr: None }
    }

    /// With an addressing byte.
    pub fn extended(id: Id, addr: u8) -> (r: Self)
        ensures
            r == (TxAddress { id, addr: Some(addr) }),
    {
        TxAddress { id, addr: Some(addr) }
    }
}

/// Identifier and addressing byte of received frames.
#[derive(Debug, Clone, Copy, PartialEq, Eq, Structural)]
pub struct RxAddress {
    /// Identifier.
    pub id: Id,
    /// Addressing byte before the PCI, if any.
    pub addr: Option<u8>,
}

impl RxAddress {
    /// No addressing byte.
    pub fn normal(id: Id) -> (r: Self)
        ensures
            r == (RxAddress { id, addr: None }),
    {
        RxAddress { id, addr: None }
    }

    /// With an addressing byte.
    pub fn extended(id: Id, addr: u8) -> (r: Self)
        ensures
            r == (RxAddress { id, addr: Some(addr) }),
    {
        RxAddress { id, addr: Some(addr) }
    }
}

/// Identifiers and addressing bytes of both directions.
#[derive(Debug, Clone, Copy, PartialEq, Eq, Structural)]
pub struct IsoTpAddress {
    /// Identifier of sent frames.
    pub tx_id: Id,
    /// Identifier of received frames.
    pub rx_id: Id,
    /// Addressing byte of sent frames, if any.
    pub tx_addr: Option<u8>,
    /// Addressing byte of received frames, if any.
    pub rx_addr: Option<u8>,
}

impl IsoTpAddress {
    /// Normal addressing: the identifiers say it all.
    pub fn normal(tx_id: Id, rx_id: Id) -> (r: Self)
        ensures
            r == (IsoTpAddress { tx_id, rx_id, tx_addr: None, rx_addr: None }),
    {
        IsoTpAddress { tx_id, rx_id, tx_addr: None, rx_addr: None }
    }

    /// Extended addressing: sent frames carry the target, received ones the source.
    pub fn extended(tx_id: Id, rx_id: Id, source: u8, target: u8) -> (r: Self)
        ensures
            r == (IsoTpAddress { tx_id, rx_id, tx_addr: Some(target), rx_addr: Some(source) }),
    {
        IsoTpAddress { tx_id, rx_id, tx_addr: Some(target), rx_addr: Some(source) }
    }

    /// Mixed addressing with 11-bit identifiers: one extension byte for both directions.
    pub fn mixed_11(tx_id: Id, rx_id: Id, extension: u8) -> (r: Self)
        ensures
            r == (IsoTpAddress {
                tx_id,
                rx_id,
                tx_addr: Some(extension),
                rx_addr: Some(extension),
            }),
    {
        IsoTpAddress { tx_id, rx_id, tx_addr: Some(extension), rx_addr: Some(extension) }
    }

    /// Normal fixed addressing with 29-bit identifiers.
    pub fn normal_fixed_29(source: u8, target: u8, kind: TargetAddressType) -> (r: Result<
        Self,
        IsoTpError<()>,
    >)
        ensures
            r == Ok::<IsoTpAddress, IsoTpError<()>>(
                IsoTpAddress {
                    tx_id: fixed_id(normal_fixed_base(kind), target, source),
                    rx_id: fixed_id(normal_fixed_base(kind), source, target),
                    tx_addr: None,
                    rx_addr: None,
                },
            ),
            r matches Ok(a) ==> a.tx_id.raw() == normal_fixed_base(kind) + target * 0x100 + source
                && a.rx_id.raw() == normal_fixed_base(kind) + source * 0x100 + target,
    {
        let base: u32 = match kind {
            TargetAddressType::Physical => 0x18DA_0000,
            TargetAddressType::Functional => 0x18DB_0000,
        };
        match (fixed_29(base, target, source), fixed_29(base, source, target)) {
            (Some(tx_id), Some(rx_id)) => Ok(IsoTpAddress::normal(tx_id, rx_id)),
            _ => Err(IsoTpError::InvalidConfig),
        }
    }

    /// Mixed addressing with 29-bit identifiers: one extension byte for both directions.
    pub fn mixed_29(source: u8, target: u8, extension: u8, kind: TargetAddressType) -> (r: Result<
        Self,
        IsoTpError<()>,
    >)
        ensures
            r == Ok::<IsoTpAddress, IsoTpError<()>>(
                IsoTpAddress {
                    tx_id: fixed_id(mixed_base(kind), target, source),
                    rx_id: fixed_id(mixed_base(kind), source, target),
                    tx_addr: Some(extension),
                    rx_addr: Some(extension),
                },
            ),
            r matches Ok(a) ==> a.tx_id.raw() == mixed_base(kind) + target * 0x100 + source
                && a.rx_id.raw() == mixed_base(kind) + source * 0x100 + target,
    {
        let base: u32 = match kind {
            TargetAddressType::Physical => 0x18CE_0000,
            TargetAddressType::Functional => 0x18CD_0000,
        };
        match (fixed_29(base, target, source), fixed_29(base, source, target)) {
            (Some(tx_id), Some(rx_id)) => Ok(IsoTpAddress::mixed_11(tx_id, rx_id, extension)),
            _ => Err(IsoTpError::InvalidConfig),
        }
    }
}

/// The default configuration under the identifiers and addressing bytes of an address.
pub open spec fn config_for(addr: IsoTpAddress) -> IsoTpConfig {
    IsoTpConfig {
        tx_id: addr.tx_id,
        rx_id: addr.rx_id,
        tx_addr: addr.tx_addr,
        rx_addr: addr.rx_addr,
        block_size: 0,
        st_min: time::span(0),
        wft_max: 0,
        padding: None,
        max_payload_len: 4095,
        n_as: time::span(1_000_000_000),
        n_ar: time::span(1_000_000_000),
        n_bs: time::span(1_000_000_000),
        n_br: time::span(1_000_000_000),
        n_cs: time::span(1_000_000_000),
        frame_len: 8,
    }
}

impl From<IsoTpAddress> for IsoTpConfig {
    /// The default configuration under these addresses.
    fn from(addr: IsoTpAddress) -> (r: Self) {
        let mut cfg = IsoTpConfig::default();
        cfg.tx_id = addr.tx_id;
        cfg.rx_id = addr.rx_id;
        cfg.tx_addr = addr.tx_addr;
        cfg.rx_addr = addr.rx_addr;
        proof {
            time::span_has_its_length(0);
            time::span_has_its_length(1_000_000_000);
            time::equal_lengths_are_equal(cfg.st_min, time::span(0));
            time::equal_lengths_are_equal(cfg.n_as, time::span(1_000_000_000));
            time::equal_lengths_are_equal(cfg.n_ar, time::span(1_000_000_000));
            time::equal_lengths_are_equal(cfg.n_bs, time::span(1_000_000_000));
            time::equal_lengths_are_equal(cfg.n_br, time::span(1_000_000_000));
            time::equal_lengths_are_equal(cfg.n_cs, time::span(1_000_000_000));
        }
        cfg
    }
}

impl vstd::std_specs::convert::FromSpecImpl<IsoTpAddress> for IsoTpConfig {
    open spec fn obeys_from_spec() -> bool {
        true
    }

    open spec fn from_spec(addr: IsoTpAddress) -> IsoTpConfig {
        config_for(addr)
    }
}

/// Under normal fixed and mixed 29-bit addressing the two directions between different addresses
/// have different identifiers, and both fit in 29 bits.
pub proof fn fixed_directions_differ(base: u32, a: u8, b: u8)
    requires
        base == normal_fixed_base(TargetAddressType::Physical) || base == normal_fixed_base(
            TargetAddressType::Functional,
        ) || base == mixed_base(TargetAddressType::Physical) || base == mixed_base(
            TargetAddressType::Functional,
        ),
        a != b,
    ensures
        fixed_id(base, a, b) != fixed_id(base, b, a),
        fixed_id(base, a, b).in_range(),
{
    id::ext_id_has_its_number((base + a * 0x100 + b) as u32);
    id::ext_id_has_its_number((base + b * 0x100 + a) as u32);
}

/// Under normal fixed addressing a node sends to its target from its source under 29 bits that
/// spell both, behind 0x18DA for one node and 0x18DB for all, and listens to the same with the two
/// exchanged; nothing is added to the frames.
pub proof fn normal_fixed_addressing(
    source: u8,
    target: u8,
    kind: TargetAddressType,
    r: Result<IsoTpAddress, IsoTpError<()>>,
)
    requires
        call_ensures(IsoTpAddress::normal_fixed_29, (source, target, kind), r),
    ensures
        r matches Ok(addr) && {
            let base = match kind {
                TargetAddressType::Physical => 0x18DA_0000int,
                TargetAddressType::Functional => 0x18DB_0000int,
            };
            &&& addr.tx_id is Extended && addr.tx_id.raw() == base + target * 256 + source
            &&& addr.rx_id is Extended && addr.rx_id.raw() == base + source * 256 + target
            &&& addr.tx_addr is None && addr.rx_addr is None
        },
{
    id::ext_id_has_its_number((normal_fixed_base(kind) + target * 0x100 + source) as u32);
    id::ext_id_has_its_number((normal_fixed_base(kind) + source * 0x100 + target) as u32);
}

/// Mixed addressing with 29 bits is the same behind 0x18CE and 0x18CD, with the extension byte in
/// front of every frame of both directions.
pub proof fn mixed_fixed_addressing(
    source: u8,
    target: u8,
    extension: u8,
    kind: TargetAddressType,
    r: Result<IsoTpAddress, IsoTpError<()>>,
)
    requires
        call_ensures(IsoTpAddress::mixed_29, (source, target, extension, kind), r),
    ensures
        r matches Ok(addr) && {
            let base = match kind {
                TargetAddressType::Physical => 0x18CE_0000int,
                TargetAddressType::Functional => 0x18CD_0000int,
            };
            &&& addr.tx_id is Extended && addr.tx_id.raw() == base + target * 256 + source
            &&& addr.rx_id is Extended && addr.rx_id.raw() == base + source * 256 + target
            &&& addr.tx_addr == Some(extension) && addr.rx_addr == Some(extension)
        },
{
    id::ext_id_has_its_number((mixed_base(kind) + target * 0x100 + source) as u32);
    id::ext_id_has_its_number((mixed_base(kind) + source * 0x100 + target) as u32);
}

/// Two ends that exchange their identifiers and addresses hear each other: each listens to exactly
/// what the other sends under.
pub proof fn ends_hear_each_other(
    a_id: Id,
    b_id: Id,
    a: u8,
    b: u8,
    extension: u8,
    ends: (IsoTpAddress, IsoTpAddress),
)
    requires
        ({
            ||| call_ensures(IsoTpAddress::normal, (a_id, b_id), ends.0) && call_ensures(
                IsoTpAddress::normal,
                (b_id, a_id),
                ends.1,
            )
            ||| call_ensures(IsoTpAddress::extended, (a_id, b_id, a, b), ends.0) && call_ensures(
                IsoTpAddress::extended,
                (b_id, a_id, b, a),
                ends.1,
            )
            ||| call_ensures(IsoTpAddress::mixed_11, (a_id, b_id, extension), ends.0)
                && call_ensures(IsoTpAddress::mixed_11, (b_id, a_id, extension), ends.1)
        }),
    ensures
        ends.0.tx_id == a_id && ends.1.tx_id == b_id,
        ends.0.rx_id == ends.1.tx_id && ends.1.rx_id == ends.0.tx_id,
        ends.0.rx_addr == ends.1.tx_addr && ends.1.rx_addr == ends.0.tx_addr,
{
}

/// Normal addressing adds no byte; extended addressing puts the target into sent frames and expects
/// the source in received ones; mixed addressing has the extension in both.
pub proof fn addressing_bytes(
    tx_id: Id,
    rx_id: Id,
    source: u8,
    target: u8,
    extension: u8,
    normal: IsoTpAddress,
    extended: IsoTpAddress,
    mixed: IsoTpAddress,
)
    requires
        call_ensures(IsoTpAddress::normal, (tx_id, rx_id), normal),
        call_ensures(IsoTpAddress::extended, (tx_id, rx_id, source, target), extended),
        call_ensures(IsoTpAddress::mixed_11, (tx_id, rx_id, extension), mixed),
    ensures
        normal.tx_addr is None && normal.rx_addr is None,
        extended.tx_addr == Some(target) && extended.rx_addr == Some(source),
        mixed.tx_addr == Some(extension) && mixed.rx_addr == Some(extension),
        normal.tx_id == tx_id && extended.tx_id == tx_id && mixed.tx_id == tx_id,
        normal.rx_id == rx_id && extended.rx_id == rx_id && mixed.rx_id == rx_id,
{
}

/// A configuration made from an address has these identifiers and bytes and is otherwise the
/// default one: classic frames, payloads up to 4095 bytes, no padding, no limit on blocks, no gap,
/// no waiting, and timeouts of one second. It is valid exactly when the directions can be told
/// apart.
pub proof fn configuration_of_an_address(addr: IsoTpAddress)
    ensures
        ({
            let cfg = config_for(addr);
            &&& cfg.tx_id == addr.tx_id && cfg.rx_id == addr.rx_id
            &&& cfg.tx_addr == addr.tx_addr && cfg.rx_addr == addr.rx_addr
            &&& cfg.frame_len == 8 && cfg.max_payload_len == 4095 && cfg.padding is None
            &&& cfg.block_size == 0 && cfg.st_min@ == 0 && cfg.wft_max == 0
            &&& cfg.n_as@ == 1_000_000_000 && cfg.n_ar@ == 1_000_000_000
            &&& cfg.n_bs@ == 1_000_000_000 && cfg.n_br@ == 1_000_000_000
            &&& cfg.n_cs@ == 1_000_000_000
            &&& cfg.valid() <==> addr.tx_id != addr.rx_id || (addr.tx_addr is Some
                && addr.rx_addr is Some && addr.tx_addr != addr.rx_addr)
        }),
{
    time::span_has_its_length(0);
    time::span_has_its_length(1_000_000_000);
}

} // verus!
