//! Acceptance filters of the STM32 CAN peripherals: which hardware filter gets which mask.

use crate::id;
use crate::id::{ExtendedId, Id, IdMask, IdMaskFilter, StandardId};
use vstd::prelude::*;

verus! {

/// Errors of the STM32 adapters; `B` is the error of the bus.
#[derive(Debug, Clone, Copy, PartialEq, Eq)]
pub enum EmbassyStm32CanError<B> {
    /// Bus-level error.
    Bus(B),
    /// More filters than the hardware holds.
    TooManyFilters,
    /// A filter's identifier and mask differ in width.
    MaskWidthMismatch,
    /// A filter's mask does not fit the identifier width.
    MaskOutOfRange,
}

/// An 11-bit identifier with its mask.
#[derive(Debug, Clone, Copy, PartialEq, Eq, Structural)]
pub struct StdMask {
    /// Identifier to agree with.
    pub id: StandardId,
    /// Bits that are compared.
    pub mask: u16,
}

/// A 29-bit identifier with its mask.
#[derive(Debug, Clone, Copy, PartialEq, Eq, Structural)]
pub struct ExtMask {
    /// Identifier to agree with.
    pub id: ExtendedId,
    /// Bits that are compared.
    pub mask: u32,
}

impl StdMask {
    /// The filter that this is the hardware form of.
    pub open spec fn filter(self) -> IdMaskFilter {
        IdMaskFilter { id: Id::Standard(self.id), mask: IdMask::Standard(self.mask) }
    }
}

impl ExtMask {
    /// The filter that this is the hardware form of.
    pub open spec fn filter(self) -> IdMaskFilter {
        IdMaskFilter { id: Id::Extended(self.id), mask: IdMask::Extended(self.mask) }
    }
}

/// What one filter is to the hardware.
pub enum Sorted {
    /// A filter over 11-bit identifiers.
    Std(StdMask),
    /// A filter over 29-bit identifiers.
    Ext(ExtMask),
}

/// Sort a filter by width, or say why it cannot be programmed.
pub open spec fn sorted<B>(f: IdMaskFilter) -> Result<Sorted, EmbassyStm32CanError<B>> {
    match (f.id, f.mask) {
        (Id::Standard(id), IdMask::Standard(mask)) => if mask <= id::STD_ID_MAX {
            Ok(Sorted::Std(StdMask { id, mask }))
        } else {
            Err(EmbassyStm32CanError::MaskOutOfRange)
        },
        (Id::Extended(id), IdMask::Extended(mask)) => if mask <= id::EXT_ID_MAX {
            Ok(Sorted::Ext(ExtMask { id, mask }))
        } else {
            Err(EmbassyStm32CanError::MaskOutOfRange)
        },
        _ => Err(EmbassyStm32CanError::MaskWidthMismatch),
    }
}

/// Contents of one bxCAN filter bank.
#[derive(Debug, Clone, Copy, PartialEq, Eq, Structural)]
pub enum FilterBank {
    /// Let every frame through.
    AcceptAll,
    /// Two filters over 11-bit identifiers, which share the bank.
    StdPair(StdMask, StdMask),
    /// One filter over 11-bit identifiers.
    Std(StdMask),
    /// One filter over 29-bit identifiers.
    Ext(ExtMask),
}

impl FilterBank {
    /// The filters that the bank holds.
    pub open spec fn filters(self) -> Seq<IdMaskFilter> {
        match self {
            FilterBank::AcceptAll => seq![],
            FilterBank::StdPair(a, b) => seq![a.filter(), b.filter()],
            FilterBank::Std(a) => seq![a.filter()],
            FilterBank::Ext(a) => seq![a.filter()],
        }
    }
}

/// Banks filled so far, and an 11-bit filter that waits for another one to share its bank with.
pub struct BankPlan {
    /// Full banks.
    pub banks: Seq<FilterBank>,
    /// Waiting filter.
    pub pending: Option<StdMask>,
}

impl BankPlan {
    /// The plan with the waiting filter, if any, in a bank of its own.
    pub open spec fn flushed(self) -> Seq<FilterBank> {
        match self.pending {
            Some(p) => self.banks.push(FilterBank::Std(p)),
            None => self.banks,
        }
    }

    /// The plan after one more filter.
    pub open spec fn with(self, s: Sorted) -> BankPlan {
        match s {
            Sorted::Std(m) => match self.pending {
                Some(p) => BankPlan {
                    banks: self.banks.push(FilterBank::StdPair(p, m)),
                    pending: None,
                },
                None => BankPlan { banks: self.banks, pending: Some(m) },
            },
            Sorted::Ext(m) => BankPlan {
                banks: self.flushed().push(FilterBank::Ext(m)),
                pending: None,
            },
        }
    }
}

/// The plan for a list of filters, or the error of the first that cannot be programmed.
pub open spec fn bank_plan<B>(filters: Seq<IdMaskFilter>) -> Result<
    BankPlan,
    EmbassyStm32CanError<B>,
>
    decreases filters.len(),
{
    if filters.len() == 0 {
        Ok(BankPlan { banks: seq![], pending: None })
    } else {
        match bank_plan(filters.drop_last()) {
            Ok(plan) => match sorted(filters.last()) {
                Ok(s) => Ok(plan.with(s)),
                Err(e) => Err(e),
            },
            Err(e) => Err(e),
        }
    }
}

/// The filters of a list of banks, bank after bank.
pub open spec fn held(banks: Seq<FilterBank>) -> Seq<IdMaskFilter>
    decreases banks.len(),
{
    if banks.len() == 0 {
        seq![]
    } else {
        held(banks.drop_last()) + banks.last().filters()
    }
}

proof fn held_push(banks: Seq<FilterBank>, bank: FilterBank)
    ensures
        held(banks.push(bank)) == held(banks) + bank.filters(),
{
    assert(banks.push(bank).drop_last() =~= banks);
}

/// The banks hold exactly the filters, in their order.
pub proof fn banks_hold_the_filters<B>(filters: Seq<IdMaskFilter>)
    requires
        bank_plan::<B>(filters) is Ok,
    ensures
        held(bank_plan::<B>(filters)->Ok_0.flushed()) == filters,
    decreases filters.len(),
{
    if filters.len() > 0 {
        let before = filters.drop_last();
        banks_hold_the_filters::<B>(before);
        let plan = bank_plan::<B>(before)->Ok_0;
        let s = sorted::<B>(filters.last())->Ok_0;
        let last = seq![filters.last()];
        assert(filters =~= before + last);
        match s {
            Sorted::Std(m) => {
                assert(m.filter() == filters.last());
                match plan.pending {
                    Some(p) => {
                        held_push(plan.banks, FilterBank::Std(p));
                        held_push(plan.banks, FilterBank::StdPair(p, m));
                        assert(held(plan.banks) + seq![p.filter()] =~= before);
                        assert(held(plan.banks.push(FilterBank::StdPair(p, m))) =~= before + last);
                    },
                    None => {
                        held_push(plan.banks, FilterBank::Std(m));
                    },
                }
            },
            Sorted::Ext(m) => {
                assert(m.filter() == filters.last());
                held_push(plan.flushed(), FilterBank::Ext(m));
            },
        }
    }
}

/// Every filter of a plan has an error-free prefix behind it: a list that can be programmed stays
/// so when filters are taken off its end.
proof fn prefix_error<B>(filters: Seq<IdMaskFilter>, n: int)
    requires
        0 <= n <= filters.len(),
        bank_plan::<B>(filters.take(n)) is Err,
    ensures
        bank_plan::<B>(filters) == bank_plan::<B>(filters.take(n)),
    decreases filters.len() - n,
{
    if n < filters.len() {
        assert(filters.take(n + 1).drop_last() =~= filters.take(n));
        prefix_error::<B>(filters, n + 1);
    } else {
        assert(filters.take(n) =~= filters);
    }
}

/// Fill the banks of a bxCAN peripheral with `bank_limit` of them, from bank 0 on.
///
/// Two 11-bit filters in a row share a bank. No filter at all lets every frame through. Nothing is
/// to be written when this fails.
pub fn bxcan_set_filters<B>(filters: &[IdMaskFilter], bank_limit: usize) -> (r: Result<
    Vec<FilterBank>,
    EmbassyStm32CanError<B>,
>)
    ensures
        filters@.len() == 0 ==> (r matches Ok(banks) && banks@ == seq![FilterBank::AcceptAll]),
        filters@.len() > 0 ==> match bank_plan::<B>(filters@) {
            Err(e) => r == Err::<Vec<FilterBank>, EmbassyStm32CanError<B>>(e),
            Ok(plan) => if plan.flushed().len() > bank_limit {
                r == Err::<Vec<FilterBank>, EmbassyStm32CanError<B>>(
                    EmbassyStm32CanError::TooManyFilters,
                )
            } else {
                r matches Ok(banks) && banks@ == plan.flushed()
            },
        },
{
    let mut banks: Vec<FilterBank> = Vec::new();
    if filters.len() == 0 {
        banks.push(FilterBank::AcceptAll);
        assert(banks@ =~= seq![FilterBank::AcceptAll]);
        return Ok(banks);
    }
    let mut pending: Option<StdMask> = None;
    let mut i: usize = 0;
    assert(filters@.take(0) =~= seq![]);
    while i < filters.len()
        invariant
            i <= filters@.len(),
            filters@.len() > 0,
            bank_plan::<B>(filters@.take(i as int)) matches Ok(plan) && plan.banks == banks@
                && plan.pending == pending,
        decreases filters@.len() - i,
    {
        let f = filters[i];
        proof {
            assert(filters@.take(i + 1).drop_last() =~= filters@.take(i as int));
            assert(filters@.take(i + 1).last() == f);
        }
        match (f.id, f.mask) {
            (Id::Standard(id), IdMask::Standard(mask)) => {
                if StandardId::new(mask).is_none() {
                    proof {
                        prefix_error::<B>(filters@, i + 1);
                    }
                    return Err(EmbassyStm32CanError::MaskOutOfRange);
                }
                let this = StdMask { id, mask };
                match pending {
                    Some(first) => {
                        banks.push(FilterBank::StdPair(first, this));
                        pending = None;
                    },
                    None => {
                        pending = Some(this);
                    },
                }
            },
            (Id::Extended(id), IdMask::Extended(mask)) => {
                if ExtendedId::new(mask).is_none() {
                    proof {
                        prefix_error::<B>(filters@, i + 1);
                    }
                    return Err(EmbassyStm32CanError::MaskOutOfRange);
                }
                if let Some(first) = pending {
                    banks.push(FilterBank::Std(first));
                    pending = None;
                }
                banks.push(FilterBank::Ext(ExtMask { id, mask }));
            },
            _ => {
                proof {
                    prefix_error::<B>(filters@, i + 1);
                }
                return Err(EmbassyStm32CanError::MaskWidthMismatch);
            },
        }
        i += 1;
    }
    assert(filters@.take(i as int) =~= filters@);
    if let Some(first) = pending {
        banks.push(FilterBank::Std(first));
    }
    if banks.len() > bank_limit {
        return Err(EmbassyStm32CanError::TooManyFilters);
    }
    Ok(banks)
}

/// Hardware filters of an FDCAN peripheral, the rest being disabled.
#[derive(Debug)]
pub enum FdFilters {
    /// Let every frame of either width through.
    AcceptAll,
    /// Store frames that one of these accepts.
    Only {
        /// Filters over 11-bit identifiers.
        std: Vec<StdMask>,
        /// Filters over 29-bit identifiers.
        ext: Vec<ExtMask>,
    },
}

/// FDCAN filters so far.
pub struct FdPlan {
    /// Filters over 11-bit identifiers.
    pub std: Seq<StdMask>,
    /// Filters over 29-bit identifiers.
    pub ext: Seq<ExtMask>,
}

impl FdPlan {
    /// The plan after one more filter, or why there is none. Room is looked at before the mask.
    pub open spec fn with<B>(self, f: IdMaskFilter, std_max: int, ext_max: int) -> Result<
        FdPlan,
        EmbassyStm32CanError<B>,
    > {
        if f.id is Standard && f.mask is Standard && self.std.len() >= std_max {
            Err(EmbassyStm32CanError::TooManyFilters)
        } else if f.id is Extended && f.mask is Extended && self.ext.len() >= ext_max {
            Err(EmbassyStm32CanError::TooManyFilters)
        } else {
            match sorted::<B>(f) {
                Ok(Sorted::Std(m)) => Ok(FdPlan { std: self.std.push(m), ext: self.ext }),
                Ok(Sorted::Ext(m)) => Ok(FdPlan { std: self.std, ext: self.ext.push(m) }),
                Err(e) => Err(e),
            }
        }
    }
}

/// The FDCAN plan for a list of filters, or the error of the first that cannot be programmed.
pub open spec fn fd_plan<B>(filters: Seq<IdMaskFilter>, std_max: int, ext_max: int) -> Result<
    FdPlan,
    EmbassyStm32CanError<B>,
>
    decreases filters.len(),
{
    if filters.len() == 0 {
        Ok(FdPlan { std: seq![], ext: seq![] })
    } else {
        match fd_plan::<B>(filters.drop_last(), std_max, ext_max) {
            Ok(plan) => plan.with(filters.last(), std_max, ext_max),
            Err(e) => Err(e),
        }
    }
}

proof fn fd_prefix_error<B>(filters: Seq<IdMaskFilter>, n: int, std_max: int, ext_max: int)
    requires
        0 <= n <= filters.len(),
        fd_plan::<B>(filters.take(n), std_max, ext_max) is Err,
    ensures
        fd_plan::<B>(filters, std_max, ext_max) == fd_plan::<B>(filters.take(n), std_max, ext_max),
    decreases filters.len() - n,
{
    if n < filters.len() {
        assert(filters.take(n + 1).drop_last() =~= filters.take(n));
        fd_prefix_error::<B>(filters, n + 1, std_max, ext_max);
    } else {
        assert(filters.take(n) =~= filters);
    }
}

/// Whether an FDCAN plan stores frames under an identifier.
pub open spec fn fd_accepts(plan: FdPlan, id: Id) -> bool {
    ||| exists|i: int| 0 <= i < plan.std.len() && (#[trigger] plan.std[i]).filter().accepts(id)
    ||| exists|i: int| 0 <= i < plan.ext.len() && (#[trigger] plan.ext[i]).filter().accepts(id)
}

/// Whether one of the filters accepts an identifier.
pub open spec fn some_accepts(filters: Seq<IdMaskFilter>, id: Id) -> bool {
    exists|i: int| 0 <= i < filters.len() && (#[trigger] filters[i]).accepts(id)
}

/// An FDCAN peripheral stores a frame exactly when one of the filters accepts its identifier, and
/// it never holds more filters than it has room for.
pub proof fn fd_filters_accept_what_the_filters_accept<B>(
    filters: Seq<IdMaskFilter>,
    std_max: int,
    ext_max: int,
    id: Id,
)
    requires
        0 <= std_max,
        0 <= ext_max,
        fd_plan::<B>(filters, std_max, ext_max) is Ok,
    ensures
        ({
            let plan = fd_plan::<B>(filters, std_max, ext_max)->Ok_0;
            &&& fd_accepts(plan, id) <==> some_accepts(filters, id)
            &&& plan.std.len() <= std_max
            &&& plan.ext.len() <= ext_max
        }),
    decreases filters.len(),
{
    let plan = fd_plan::<B>(filters, std_max, ext_max)->Ok_0;
    if filters.len() > 0 {
        let before = filters.drop_last();
        fd_filters_accept_what_the_filters_accept::<B>(before, std_max, ext_max, id);
        let prior = fd_plan::<B>(before, std_max, ext_max)->Ok_0;
        let last = filters.last();
        assert(some_accepts(filters, id) <==> some_accepts(before, id) || last.accepts(id)) by {
            if some_accepts(filters, id) {
                let i = choose|i: int| 0 <= i < filters.len() && (#[trigger] filters[i]).accepts(id);
                if i < before.len() {
                    assert(before[i].accepts(id));
                }
            }
            if some_accepts(before, id) {
                let i = choose|i: int| 0 <= i < before.len() && (#[trigger] before[i]).accepts(id);
                assert(filters[i].accepts(id));
            }
            if last.accepts(id) {
                assert(filters[filters.len() - 1].accepts(id));
            }
        }
        assert(fd_accepts(plan, id) <==> fd_accepts(prior, id) || last.accepts(id)) by {
            match sorted::<B>(last)->Ok_0 {
                Sorted::Std(m) => {
                    assert(plan.std == prior.std.push(m));
                    assert(m.filter() == last);
                    if exists|i: int|
                        0 <= i < plan.std.len() && (#[trigger] plan.std[i]).filter().accepts(id) {
                        let i = choose|i: int|
                            0 <= i < plan.std.len() && (#[trigger] plan.std[i]).filter().accepts(id);
                        if i < prior.std.len() {
                            assert(prior.std[i].filter().accepts(id));
                        }
                    }
                    if exists|i: int|
                        0 <= i < prior.std.len() && (#[trigger] prior.std[i]).filter().accepts(id) {
                        let i = choose|i: int|
                            0 <= i < prior.std.len() && (#[trigger] prior.std[i]).filter().accepts(
                                id,
                            );
                        assert(plan.std[i].filter().accepts(id));
                    }
                    if last.accepts(id) {
                        assert(plan.std[prior.std.len() as int].filter().accepts(id));
                    }
                },
                Sorted::Ext(m) => {
                    assert(plan.ext == prior.ext.push(m));
                    assert(m.filter() == last);
                    if exists|i: int|
                        0 <= i < plan.ext.len() && (#[trigger] plan.ext[i]).filter().accepts(id) {
                        let i = choose|i: int|
                            0 <= i < plan.ext.len() && (#[trigger] plan.ext[i]).filter().accepts(id);
                        if i < prior.ext.len() {
                            assert(prior.ext[i].filter().accepts(id));
                        }
                    }
                    if exists|i: int|
                        0 <= i < prior.ext.len() && (#[trigger] prior.ext[i]).filter().accepts(id) {
                        let i = choose|i: int|
                            0 <= i < prior.ext.len() && (#[trigger] prior.ext[i]).filter().accepts(
                                id,
                            );
                        assert(plan.ext[i].filter().accepts(id));
                    }
                    if last.accepts(id) {
                        assert(plan.ext[prior.ext.len() as int].filter().accepts(id));
                    }
                },
            }
        }
    }
}

/// Fill the filters of an FDCAN peripheral with room for `std_max` filters over 11-bit identifiers
/// and `ext_max` over 29-bit ones.
///
/// No filter at all lets every frame through. Nothing is to be written when this fails.
pub fn fdcan_set_filters<B>(filters: &[IdMaskFilter], std_max: usize, ext_max: usize) -> (r: Result<
    FdFilters,
    EmbassyStm32CanError<B>,
>)
    ensures
        filters@.len() == 0 ==> r == Ok::<FdFilters, EmbassyStm32CanError<B>>(FdFilters::AcceptAll),
        filters@.len() > 0 ==> match fd_plan::<B>(filters@, std_max as int, ext_max as int) {
            Err(e) => r == Err::<FdFilters, EmbassyStm32CanError<B>>(e),
            Ok(plan) => r matches Ok(FdFilters::Only { std, ext }) && std@ == plan.std && ext@
                == plan.ext,
        },
{
    if filters.len() == 0 {
        return Ok(FdFilters::AcceptAll);
    }
    let mut std: Vec<StdMask> = Vec::new();
    let mut ext: Vec<ExtMask> = Vec::new();
    let mut i: usize = 0;
    assert(filters@.take(0) =~= seq![]);
    while i < filters.len()
        invariant
            i <= filters@.len(),
            filters@.len() > 0,
            fd_plan::<B>(filters@.take(i as int), std_max as int, ext_max as int) matches Ok(plan)
                && plan.std == std@ && plan.ext == ext@,
        decreases filters@.len() - i,
    {
        let f = filters[i];
        proof {
            assert(filters@.take(i + 1).drop_last() =~= filters@.take(i as int));
            assert(filters@.take(i + 1).last() == f);
            if fd_plan::<B>(filters@.take(i + 1), std_max as int, ext_max as int) is Err {
                fd_prefix_error::<B>(filters@, i + 1, std_max as int, ext_max as int);
            }
        }
        match (f.id, f.mask) {
            (Id::Standard(id), IdMask::Standard(mask)) => {
                if std.len() >= std_max {
                    return Err(EmbassyStm32CanError::TooManyFilters);
                }
                if StandardId::new(mask).is_none() {
                    return Err(EmbassyStm32CanError::MaskOutOfRange);
                }
                std.push(StdMask { id, mask });
            },
            (Id::Extended(id), IdMask::Extended(mask)) => {
                if ext.len() >= ext_max {
                    return Err(EmbassyStm32CanError::TooManyFilters);
                }
                if ExtendedId::new(mask).is_none() {
                    return Err(EmbassyStm32CanError::MaskOutOfRange);
                }
                ext.push(ExtMask { id, mask });
            },
            _ => {
                return Err(EmbassyStm32CanError::MaskWidthMismatch);
            },
        }
        i += 1;
    }
    assert(filters@.take(i as int) =~= filters@);
    Ok(FdFilters::Only { std, ext })
}

/// Whether the hardware can hold a filter: identifier and mask have the same width, and the mask has
/// no bit outside it.
pub open spec fn programmable(f: IdMaskFilter) -> bool {
    match (f.id, f.mask) {
        (Id::Standard(_), IdMask::Standard(mask)) => mask < 0x800,
        (Id::Extended(_), IdMask::Extended(mask)) => mask < 0x2000_0000,
        _ => false,
    }
}

/// Number of filters over identifiers of one width.
pub open spec fn filters_of_width(filters: Seq<IdMaskFilter>, extended: bool) -> nat
    decreases filters.len(),
{
    if filters.len() == 0 {
        0
    } else {
        filters_of_width(filters.drop_last(), extended) + (if filters.last().id.extended()
            == extended {
            1nat
        } else {
            0nat
        })
    }
}

/// Filters that the hardware can hold can all be programmed into banks; where some cannot, the first
/// of them says why: its mask has another width, or else bits outside it.
pub proof fn programmable_filters_get_banks<B>(filters: Seq<IdMaskFilter>)
    ensures
        bank_plan::<B>(filters) is Ok <==> forall|i: int|
            0 <= i < filters.len() ==> programmable(#[trigger] filters[i]),
        bank_plan::<B>(filters) matches Err(e) ==> exists|n: int|
            {
                &&& 0 <= n < filters.len()
                &&& !programmable(#[trigger] filters[n])
                &&& forall|i: int| 0 <= i < n ==> programmable(#[trigger] filters[i])
                &&& if filters[n].id is Standard == filters[n].mask is Standard {
                    e is MaskOutOfRange
                } else {
                    e is MaskWidthMismatch
                }
            },
    decreases filters.len(),
{
    if filters.len() > 0 {
        let before = filters.drop_last();
        let last = filters.len() - 1;
        programmable_filters_get_banks::<B>(before);
        if bank_plan::<B>(before) is Err {
            let e = bank_plan::<B>(before)->Err_0;
            let n = choose|n: int|
                {
                    &&& 0 <= n < before.len()
                    &&& !programmable(#[trigger] before[n])
                    &&& forall|i: int| 0 <= i < n ==> programmable(#[trigger] before[i])
                    &&& if before[n].id is Standard == before[n].mask is Standard {
                        e is MaskOutOfRange
                    } else {
                        e is MaskWidthMismatch
                    }
                };
            assert(filters[n] == before[n]);
            assert forall|i: int| 0 <= i < n implies programmable(#[trigger] filters[i]) by {
                assert(filters[i] == before[i]);
            }
        } else {
            assert forall|i: int| 0 <= i < last implies programmable(#[trigger] filters[i]) by {
                assert(filters[i] == before[i]);
            }
            assert(filters[last] == filters.last());
        }
    }
}

/// Banks are not wasted: each holds one filter or two, and a filter over 11-bit identifiers has a
/// bank to itself only at the end or in front of one over 29-bit identifiers.
pub proof fn banks_are_shared<B>(filters: Seq<IdMaskFilter>)
    requires
        bank_plan::<B>(filters) is Ok,
    ensures
        ({
            let banks = bank_plan::<B>(filters)->Ok_0.flushed();
            &&& forall|k: int| 0 <= k < banks.len() ==> !(#[trigger] banks[k] is AcceptAll)
            &&& forall|k: int|
                0 <= k < banks.len() - 1 && (#[trigger] banks[k]) is Std ==> banks[k + 1] is Ext
        }),
    decreases filters.len(),
{
    if filters.len() > 0 {
        banks_are_shared::<B>(filters.drop_last());
        let plan = bank_plan::<B>(filters.drop_last())->Ok_0;
        let prior = plan.flushed();
        let after = bank_plan::<B>(filters)->Ok_0;
        let banks = after.flushed();
        assert forall|k: int| 0 <= k < plan.banks.len() implies #[trigger] plan.banks[k]
            == prior[k] by {}
        assert forall|k: int| 0 <= k < banks.len() - 1 && (#[trigger] banks[k]) is Std implies banks[
        k + 1] is Ext by {
            if k + 1 < plan.banks.len() {
                assert(banks[k] == prior[k] && banks[k + 1] == prior[k + 1]);
            } else if k < plan.banks.len() {
                assert(banks[k] == prior[k]);
                if plan.pending is Some {
                    assert(prior[k + 1] is Std);
                }
            }
        }
        assert forall|k: int| 0 <= k < banks.len() implies !(#[trigger] banks[k] is AcceptAll) by {
            if k < plan.banks.len() {
                assert(banks[k] == prior[k]);
            }
        }
    }
}

/// Filters fit into an FDCAN peripheral exactly when the hardware can hold each of them and there is
/// room for those of either width.
pub proof fn programmable_filters_fit_where_there_is_room<B>(
    filters: Seq<IdMaskFilter>,
    std_max: int,
    ext_max: int,
)
    requires
        0 <= std_max,
        0 <= ext_max,
    ensures
        fd_plan::<B>(filters, std_max, ext_max) is Ok <==> {
            &&& forall|i: int| 0 <= i < filters.len() ==> programmable(#[trigger] filters[i])
            &&& filters_of_width(filters, false) <= std_max
            &&& filters_of_width(filters, true) <= ext_max
        },
        fd_plan::<B>(filters, std_max, ext_max) matches Ok(plan) ==> plan.std.len()
            == filters_of_width(filters, false) && plan.ext.len() == filters_of_width(
            filters,
            true,
        ),
    decreases filters.len(),
{
    if filters.len() > 0 {
        let before = filters.drop_last();
        let last = filters.len() - 1;
        programmable_filters_fit_where_there_is_room::<B>(before, std_max, ext_max);
        assert(filters[last] == filters.last());
        if forall|i: int| 0 <= i < filters.len() ==> programmable(#[trigger] filters[i]) {
            assert forall|i: int| 0 <= i < before.len() implies programmable(
                #[trigger] before[i],
            ) by {
                assert(before[i] == filters[i]);
            }
        }
        if forall|i: int| 0 <= i < before.len() ==> programmable(#[trigger] before[i]) {
            assert forall|i: int| 0 <= i < last implies programmable(#[trigger] filters[i]) by {
                assert(before[i] == filters[i]);
            }
        }
    }
}

/// A list that does not fit says why at its first filter that does not: no room for it, looked at
/// first, or a mask of another width or with bits outside it.
pub proof fn misfit_says_why<B>(filters: Seq<IdMaskFilter>, std_max: int, ext_max: int)
    requires
        0 <= std_max,
        0 <= ext_max,
        fd_plan::<B>(filters, std_max, ext_max) is Err,
    ensures
        exists|n: int|
            {
                let f = #[trigger] filters[n];
                let e = fd_plan::<B>(filters, std_max, ext_max)->Err_0;
                let widths_agree = f.id is Standard == f.mask is Standard;
                let used = filters_of_width(filters.take(n), f.id.extended());
                let room = if f.id is Standard {
                    std_max
                } else {
                    ext_max
                };
                &&& 0 <= n < filters.len()
                &&& fd_plan::<B>(filters.take(n), std_max, ext_max) is Ok
                &&& if !widths_agree {
                    e is MaskWidthMismatch
                } else if used >= room {
                    e is TooManyFilters
                } else {
                    e is MaskOutOfRange && !programmable(f)
                }
            },
    decreases filters.len(),
{
    let before = filters.drop_last();
    let last = filters.len() - 1;
    if fd_plan::<B>(before, std_max, ext_max) is Err {
        misfit_says_why::<B>(before, std_max, ext_max);
        let e = fd_plan::<B>(before, std_max, ext_max)->Err_0;
        let n = choose|n: int|
            {
                let f = #[trigger] before[n];
                let widths_agree = f.id is Standard == f.mask is Standard;
                let used = filters_of_width(before.take(n), f.id.extended());
                let room = if f.id is Standard {
                    std_max
                } else {
                    ext_max
                };
                &&& 0 <= n < before.len()
                &&& fd_plan::<B>(before.take(n), std_max, ext_max) is Ok
                &&& if !widths_agree {
                    e is MaskWidthMismatch
                } else if used >= room {
                    e is TooManyFilters
                } else {
                    e is MaskOutOfRange && !programmable(f)
                }
            };
        assert(filters[n] == before[n]);
        assert(filters.take(n) =~= before.take(n));
    } else {
        assert(filters.take(last) =~= before);
        assert(filters[last] == filters.last());
        programmable_filters_fit_where_there_is_room::<B>(before, std_max, ext_max);
    }
}

/// No list takes more banks than it has filters; filters over 11-bit identifiers alone take half as
/// many, and filters over 29-bit identifiers alone one each.
pub proof fn banks_are_counted<B>(filters: Seq<IdMaskFilter>)
    requires
        bank_plan::<B>(filters) is Ok,
    ensures
        ({
            let plan = bank_plan::<B>(filters)->Ok_0;
            &&& plan.flushed().len() <= filters.len()
            &&& filters_of_width(filters, true) == 0 ==> 2 * plan.banks.len() + (
            if plan.pending is Some {
                1int
            } else {
                0
            }) == filters.len()
            &&& filters_of_width(filters, false) == 0 ==> plan.flushed().len() == filters.len()
                && plan.pending is None
        }),
    decreases filters.len(),
{
    if filters.len() > 0 {
        banks_are_counted::<B>(filters.drop_last());
    }
}

/// A bxCAN peripheral without filters lets everything through. With filters it gets banks that hold
/// exactly these in their order, as long as each can be programmed and there are banks enough; there
/// always are where there is one for each filter.
pub proof fn bxcan_gets_its_filters<B>(
    filters: &[IdMaskFilter],
    bank_limit: usize,
    r: Result<Vec<FilterBank>, EmbassyStm32CanError<B>>,
)
    requires
        call_ensures(bxcan_set_filters::<B>, (filters, bank_limit), r),
    ensures
        filters@.len() == 0 ==> (r matches Ok(banks) && banks@ == seq![FilterBank::AcceptAll]),
        filters@.len() > 0 ==> (r matches Ok(banks) ==> held(banks@) == filters@ && banks@.len()
            <= bank_limit),
        (r matches Err(e) && (e is MaskOutOfRange || e is MaskWidthMismatch)) <==> exists|i: int|
            0 <= i < filters@.len() && !programmable(#[trigger] filters@[i]),
        (forall|i: int| 0 <= i < filters@.len() ==> programmable(#[trigger] filters@[i]))
            && filters@.len() <= bank_limit ==> r is Ok,
        r matches Err(e) ==> e is MaskOutOfRange || e is MaskWidthMismatch || (
        e is TooManyFilters && filters@.len() > bank_limit),
{
    programmable_filters_get_banks::<B>(filters@);
    if filters@.len() > 0 && bank_plan::<B>(filters@) is Ok {
        banks_hold_the_filters::<B>(filters@);
        banks_are_counted::<B>(filters@);
    }
}

/// An FDCAN peripheral without filters lets everything through. With filters it gets those over
/// either width, as long as each can be programmed and there is room.
pub proof fn fdcan_gets_its_filters<B>(
    filters: &[IdMaskFilter],
    std_max: usize,
    ext_max: usize,
    r: Result<FdFilters, EmbassyStm32CanError<B>>,
)
    requires
        call_ensures(fdcan_set_filters::<B>, (filters, std_max, ext_max), r),
    ensures
        filters@.len() == 0 ==> (r matches Ok(FdFilters::AcceptAll)),
        filters@.len() > 0 ==> (r is Ok <==> {
            &&& forall|i: int| 0 <= i < filters@.len() ==> programmable(#[trigger] filters@[i])
            &&& filters_of_width(filters@, false) <= std_max
            &&& filters_of_width(filters@, true) <= ext_max
        }),
        filters@.len() > 0 ==> (r matches Ok(set) ==> (set matches FdFilters::Only { std, ext }
            && std@.len() == filters_of_width(filters@, false) && ext@.len() == filters_of_width(
            filters@,
            true,
        ))),
{
    programmable_filters_fit_where_there_is_room::<B>(filters@, std_max as int, ext_max as int);
}

} // verus!
