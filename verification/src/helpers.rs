//! Builder for common demux setups.

use crate::async_demux::IsoTpAsyncDemux;
use crate::config::{IsoTpConfig, RxFlowControl};
use crate::demux::rx_storages_from_buffers;
use crate::errors::IsoTpError;
use crate::rx::RxStorage;
use crate::time::Duration;
use crate::timer::Clock;
use crate::uds29;
use crate::uds29::Uds29Kind;
use vstd::prelude::*;

verus! {

/// Builder for a 29-bit UDS async demux with sane defaults.
///
/// This hides the boilerplate of setting up base IDs and wiring borrowed RX buffers.
/// Callers can override any ISO-TP config field they care about.
#[derive(Debug)]
pub struct Uds29AsyncDemuxBuilder<C> {
    /// Clock of the demux.
    pub clock: C,
    /// Address of this node.
    pub local_addr: u8,
    /// Configuration so far.
    pub cfg: IsoTpConfig,
}

impl<C: Clock> Uds29AsyncDemuxBuilder<C> {
    /// Nothing but the configuration differs.
    pub open spec fn same_but_cfg(self, other: Self) -> bool {
        self.clock == other.clock && self.local_addr == other.local_addr
    }

    /// Start a new builder for a local UDS-29 address.
    ///
    /// The identifiers are a distinct, valid baseline; the demux rewrites them per peer.
    pub fn new(clock: C, local_addr: u8) -> (r: Self)
        ensures
            r.clock == clock,
            r.local_addr == local_addr,
            r.cfg.tx_id == uds29::uds_id(Uds29Kind::Physical, 0, local_addr),
            r.cfg.rx_id == uds29::uds_id(Uds29Kind::Physical, local_addr, 0),
            r.cfg.tx_addr is None && r.cfg.rx_addr is None,
            r.cfg.block_size == 0 && r.cfg.wft_max == 0,
            r.cfg.st_min@ == 0,
            r.cfg.padding is None,
            r.cfg.max_payload_len == 4095,
            r.cfg.n_as@ == 1_000_000_000,
            r.cfg.n_ar@ == 1_000_000_000,
            r.cfg.n_bs@ == 1_000_000_000,
            r.cfg.n_br@ == 1_000_000_000,
            r.cfg.n_cs@ == 1_000_000_000,
            r.cfg.frame_len == 8,
    {
        let mut cfg = IsoTpConfig::default();
        cfg.tx_id = uds29::encode_phys_id(0, local_addr);
        cfg.rx_id = uds29::encode_phys_id(local_addr, 0);
        Uds29AsyncDemuxBuilder { clock, local_addr, cfg }
    }

    /// Replace the entire ISO-TP config.
    pub fn with_config(self, cfg: IsoTpConfig) -> (r: Self)
        ensures
            r.same_but_cfg(self),
            r.cfg == cfg,
    {
        Uds29AsyncDemuxBuilder { clock: self.clock, local_addr: self.local_addr, cfg }
    }

    /// Set the maximum payload length.
    pub fn max_payload_len(self, len: usize) -> (r: Self)
        ensures
            r.same_but_cfg(self),
            r.cfg == (IsoTpConfig { max_payload_len: len, ..self.cfg }),
    {
        let cfg = IsoTpConfig { max_payload_len: len, ..self.cfg };
        self.with_config(cfg)
    }

    /// Set the CAN frame length (DLC).
    pub fn frame_len(self, len: usize) -> (r: Self)
        ensures
            r.same_but_cfg(self),
            r.cfg == (IsoTpConfig { frame_len: len, ..self.cfg }),
    {
        let cfg = IsoTpConfig { frame_len: len, ..self.cfg };
        self.with_config(cfg)
    }

    /// Set the FlowControl block size.
    pub fn block_size(self, bs: u8) -> (r: Self)
        ensures
            r.same_but_cfg(self),
            r.cfg == (IsoTpConfig { block_size: bs, ..self.cfg }),
    {
        let cfg = IsoTpConfig { block_size: bs, ..self.cfg };
        self.with_config(cfg)
    }

    /// Set the FlowControl minimum separation time.
    pub fn st_min(self, st: Duration) -> (r: Self)
        ensures
            r.same_but_cfg(self),
            r.cfg == (IsoTpConfig { st_min: st, ..self.cfg }),
    {
        let cfg = IsoTpConfig { st_min: st, ..self.cfg };
        self.with_config(cfg)
    }

    /// Set the optional padding byte.
    pub fn padding(self, pad: Option<u8>) -> (r: Self)
        ensures
            r.same_but_cfg(self),
            r.cfg == (IsoTpConfig { padding: pad, ..self.cfg }),
    {
        let cfg = IsoTpConfig { padding: pad, ..self.cfg };
        self.with_config(cfg)
    }

    /// Set all ISO-TP timeouts to the same duration.
    pub fn timeouts_all(self, t: Duration) -> (r: Self)
        ensures
            r.same_but_cfg(self),
            r.cfg == (IsoTpConfig { n_as: t, n_ar: t, n_bs: t, n_br: t, n_cs: t, ..self.cfg }),
    {
        self.timeouts(t, t, t, t, t)
    }

    /// Set ISO-TP timeouts individually.
    pub fn timeouts(
        self,
        n_as: Duration,
        n_ar: Duration,
        n_bs: Duration,
        n_br: Duration,
        n_cs: Duration,
    ) -> (r: Self)
        ensures
            r.same_but_cfg(self),
            r.cfg == (IsoTpConfig { n_as, n_ar, n_bs, n_br, n_cs, ..self.cfg }),
    {
        let cfg = IsoTpConfig { n_as, n_ar, n_bs, n_br, n_cs, ..self.cfg };
        self.with_config(cfg)
    }

    /// Build an async demux using borrowed RX buffers (one per peer).
    pub fn build_with_borrowed_rx_buffers<'a, const MAX: usize, const L: usize>(
        self,
        bufs: &'a mut [[u8; L]; MAX],
    ) -> (r: Result<IsoTpAsyncDemux<'a, C, MAX>, IsoTpError<()>>)
        ensures
            match r {
                Ok(demux) => {
                    &&& self.cfg.payload_limit_ok()
                    &&& MAX > 0 ==> L >= self.cfg.max_payload_len
                    &&& demux.wf()
                    &&& demux.cfg_spec() == self.cfg
                    &&& demux.fc_spec() == RxFlowControl::of(self.cfg)
                    &&& demux.clock_spec() == self.clock
                    &&& demux.local_spec() == self.local_addr
                    &&& demux.functional_spec() is None
                    &&& demux@.peers.len() == 0
                    &&& demux@.free == Seq::new(MAX as nat, |i: int| old(bufs)@[i]@)
                    &&& demux@.ready.len() == 0
                    &&& demux.pool_spec().len() == MAX
                    &&& forall|i: int|
                        0 <= i < MAX ==> (
                        #[trigger] demux.pool_spec()[i] matches RxStorage::Borrowed(held)
                            && final(held)@ == final(bufs)@[i]@)
                },
                Err(e) => {
                    &&& e is InvalidConfig
                    &&& !(self.cfg.payload_limit_ok() && (MAX > 0 ==> L
                        >= self.cfg.max_payload_len))
                    &&& forall|i: int|
                        0 <= i < MAX ==> #[trigger] final(bufs)@[i]@ == old(bufs)@[i]@
                },
            },
    {
        let ghost before = bufs@;
        let ghost end = final(bufs)@;
        let storages: Vec<RxStorage<'a>> = rx_storages_from_buffers(bufs);
        let ghost given = storages@;
        assert(MAX > 0 ==> given[0]@.len() == L);
        assert(given.map_values(|s: RxStorage<'a>| s@) =~= Seq::new(
            MAX as nat,
            |i: int| before[i]@,
        ));
        let r = IsoTpAsyncDemux::new(self.cfg, self.clock, self.local_addr, None, storages);
        proof {
            if r is Err {
                assert forall|i: int| 0 <= i < MAX implies #[trigger] end[i]@ == before[i]@ by {
                    assert(given[i] is Borrowed);
                }
            }
        }
        r
    }
}

/// Each setting of a builder changes its own field and no other.
pub proof fn settings_are_kept_apart<C: Clock>(
    b: Uds29AsyncDemuxBuilder<C>,
    len: usize,
    size: usize,
    bs: u8,
    st: Duration,
    pad: Option<u8>,
    r: (
        Uds29AsyncDemuxBuilder<C>,
        Uds29AsyncDemuxBuilder<C>,
        Uds29AsyncDemuxBuilder<C>,
        Uds29AsyncDemuxBuilder<C>,
        Uds29AsyncDemuxBuilder<C>,
    ),
)
    requires
        call_ensures(Uds29AsyncDemuxBuilder::<C>::max_payload_len, (b, len), r.0),
        call_ensures(Uds29AsyncDemuxBuilder::<C>::frame_len, (b, size), r.1),
        call_ensures(Uds29AsyncDemuxBuilder::<C>::block_size, (b, bs), r.2),
        call_ensures(Uds29AsyncDemuxBuilder::<C>::st_min, (b, st), r.3),
        call_ensures(Uds29AsyncDemuxBuilder::<C>::padding, (b, pad), r.4),
    ensures
        r.0 == (Uds29AsyncDemuxBuilder {
            cfg: IsoTpConfig { max_payload_len: len, ..b.cfg },
            ..b
        }),
        r.1 == (Uds29AsyncDemuxBuilder { cfg: IsoTpConfig { frame_len: size, ..b.cfg }, ..b }),
        r.2 == (Uds29AsyncDemuxBuilder { cfg: IsoTpConfig { block_size: bs, ..b.cfg }, ..b }),
        r.3 == (Uds29AsyncDemuxBuilder { cfg: IsoTpConfig { st_min: st, ..b.cfg }, ..b }),
        r.4 == (Uds29AsyncDemuxBuilder { cfg: IsoTpConfig { padding: pad, ..b.cfg }, ..b }),
{
}

/// Each timeout of a builder is set to the time given for it; or all of them to one.
pub proof fn timeouts_are_kept_apart<C: Clock>(
    b: Uds29AsyncDemuxBuilder<C>,
    t: (Duration, Duration, Duration, Duration, Duration),
    each: Uds29AsyncDemuxBuilder<C>,
    all: Uds29AsyncDemuxBuilder<C>,
)
    requires
        call_ensures(Uds29AsyncDemuxBuilder::<C>::timeouts, (b, t.0, t.1, t.2, t.3, t.4), each),
        call_ensures(Uds29AsyncDemuxBuilder::<C>::timeouts_all, (b, t.0), all),
    ensures
        each.cfg.n_as == t.0 && each.cfg.n_ar == t.1 && each.cfg.n_bs == t.2 && each.cfg.n_br
            == t.3 && each.cfg.n_cs == t.4,
        all.cfg.n_as == t.0 && all.cfg.n_ar == t.0 && all.cfg.n_bs == t.0 && all.cfg.n_br == t.0
            && all.cfg.n_cs == t.0,
        each.cfg.max_payload_len == b.cfg.max_payload_len && each.cfg.block_size
            == b.cfg.block_size && each.cfg.st_min == b.cfg.st_min,
{
}

/// A new builder speaks 29-bit identifiers of its own address, with the default of everything else;
/// its configuration is valid for every address but zero, whose two directions coincide.
pub proof fn builders_start_from_the_defaults<C: Clock>(
    clock: C,
    local: u8,
    b: Uds29AsyncDemuxBuilder<C>,
)
    requires
        call_ensures(Uds29AsyncDemuxBuilder::<C>::new, (clock, local), b),
    ensures
        b.clock == clock && b.local_addr == local,
        b.cfg.tx_id is Extended && b.cfg.tx_id.raw() == 0x18DA_0000 + local,
        b.cfg.rx_id is Extended && b.cfg.rx_id.raw() == 0x18DA_0000 + local * 256,
        b.cfg.frame_len == 8 && b.cfg.max_payload_len == 4095 && b.cfg.padding is None,
        b.cfg.valid() <==> local != 0,
{
    uds29::identifiers_spell_addresses(Uds29Kind::Physical, 0, local);
    uds29::identifiers_spell_addresses(Uds29Kind::Physical, local, 0);
}

} // verus!
