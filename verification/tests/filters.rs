use can_iso_tp::id::{ExtendedId, Id, IdMask, IdMaskFilter, StandardId};
use can_iso_tp::non_linux;
use can_iso_tp::socketcan::{set_filters, to_socketcan_filter, RawFilter, SocketFilters};
use can_iso_tp::stm32::{
    bxcan_set_filters, fdcan_set_filters, EmbassyStm32CanError, ExtMask, FdFilters, FilterBank,
    StdMask,
};

fn std_filter(id: u16, mask: u16) -> IdMaskFilter {
    IdMaskFilter {
        id: Id::Standard(StandardId::new(id).unwrap()),
        mask: IdMask::Standard(mask),
    }
}

fn ext_filter(id: u32, mask: u32) -> IdMaskFilter {
    IdMaskFilter {
        id: Id::Extended(ExtendedId::new(id).unwrap()),
        mask: IdMask::Extended(mask),
    }
}

fn mixed_filter() -> IdMaskFilter {
    IdMaskFilter {
        id: Id::Standard(StandardId::new(1).unwrap()),
        mask: IdMask::Extended(1),
    }
}

fn std_mask(id: u16, mask: u16) -> StdMask {
    StdMask {
        id: StandardId::new(id).unwrap(),
        mask,
    }
}

fn ext_mask(id: u32, mask: u32) -> ExtMask {
    ExtMask {
        id: ExtendedId::new(id).unwrap(),
        mask,
    }
}

#[test]
fn raw_filters_compare_the_width_flag() {
    assert_eq!(
        to_socketcan_filter(&std_filter(0x123, 0x7FF)).unwrap(),
        RawFilter {
            id: 0x123,
            mask: 0x8000_07FF
        }
    );
    assert_eq!(
        to_socketcan_filter(&ext_filter(0x18DA_10F1, 0xFFFF_FF00)).unwrap(),
        RawFilter {
            id: 0x98DA_10F1,
            mask: 0x9FFF_FF00
        }
    );
    assert!(to_socketcan_filter(&mixed_filter()).is_err());
}

#[test]
fn sockets_accept_what_some_filter_accepts() {
    assert!(matches!(set_filters(&[]), Ok(SocketFilters::AcceptAll)));
    assert!(set_filters(&[std_filter(1, 1), mixed_filter()]).is_err());
    let list = match set_filters(&[std_filter(0x100, 0x700), ext_filter(0x100, 0x1FFF_FFFF)]) {
        Ok(SocketFilters::Only(list)) => list,
        _ => panic!("expected filters"),
    };
    let passes = |raw: u32| list.iter().any(|f| raw & f.mask == f.id & f.mask);
    assert!(passes(0x1FF));
    assert!(!passes(0x200));
    assert!(passes(0x8000_0100));
    assert!(!passes(0x8000_0101));
}

#[test]
fn standard_filters_share_banks() {
    let banks = bxcan_set_filters::<()>(
        &[
            std_filter(1, 0x7FF),
            std_filter(2, 0x7FF),
            std_filter(3, 0x7FF),
            ext_filter(4, 0x1FFF_FFFF),
            std_filter(5, 0x7FF),
        ],
        14,
    )
    .unwrap();
    assert_eq!(
        banks,
        vec![
            FilterBank::StdPair(std_mask(1, 0x7FF), std_mask(2, 0x7FF)),
            FilterBank::Std(std_mask(3, 0x7FF)),
            FilterBank::Ext(ext_mask(4, 0x1FFF_FFFF)),
            FilterBank::Std(std_mask(5, 0x7FF)),
        ]
    );
    assert_eq!(
        bxcan_set_filters::<()>(&[], 14).unwrap(),
        vec![FilterBank::AcceptAll]
    );
}

#[test]
fn banks_run_out() {
    let filters = [ext_filter(1, 1), ext_filter(2, 1), std_filter(3, 1)];
    assert!(bxcan_set_filters::<()>(&filters, 3).is_ok());
    assert_eq!(
        bxcan_set_filters::<()>(&filters, 2),
        Err(EmbassyStm32CanError::TooManyFilters)
    );
}

#[test]
fn bad_masks_are_reported_in_order() {
    assert_eq!(
        bxcan_set_filters::<()>(&[std_filter(1, 0x800), mixed_filter()], 1),
        Err(EmbassyStm32CanError::MaskOutOfRange)
    );
    assert_eq!(
        bxcan_set_filters::<()>(&[mixed_filter(), std_filter(1, 0x800)], 1),
        Err(EmbassyStm32CanError::MaskWidthMismatch)
    );
    assert_eq!(
        bxcan_set_filters::<()>(&[ext_filter(1, 0x2000_0000)], 1),
        Err(EmbassyStm32CanError::MaskOutOfRange)
    );
}

#[test]
fn fd_filters_are_sorted_by_width() {
    let filters = [
        std_filter(1, 0x7FF),
        ext_filter(2, 0xFF),
        std_filter(3, 0x700),
    ];
    match fdcan_set_filters::<()>(&filters, 28, 8).unwrap() {
        FdFilters::Only { std, ext } => {
            assert_eq!(std, vec![std_mask(1, 0x7FF), std_mask(3, 0x700)]);
            assert_eq!(ext, vec![ext_mask(2, 0xFF)]);
        }
        FdFilters::AcceptAll => panic!("expected filters"),
    }
    assert!(matches!(
        fdcan_set_filters::<()>(&[], 28, 8),
        Ok(FdFilters::AcceptAll)
    ));
    assert!(matches!(
        fdcan_set_filters::<()>(&filters, 1, 8),
        Err(EmbassyStm32CanError::TooManyFilters)
    ));
    // A full table is noticed before a bad mask.
    assert!(matches!(
        fdcan_set_filters::<()>(&[ext_filter(2, 0xFFFF_FFFF)], 28, 0),
        Err(EmbassyStm32CanError::TooManyFilters)
    ));
    assert!(matches!(
        fdcan_set_filters::<()>(&[ext_filter(2, 0xFFFF_FFFF)], 28, 1),
        Err(EmbassyStm32CanError::MaskOutOfRange)
    ));
    assert!(matches!(
        fdcan_set_filters::<()>(&[mixed_filter()], 28, 1),
        Err(EmbassyStm32CanError::MaskWidthMismatch)
    ));
}

#[test]
fn adapters_without_sockets_never_open() {
    assert!(non_linux::SocketCan::open("can0").is_err());
    assert!(non_linux::SocketCanFd::open("can0").is_err());
    assert!(matches!(Default::default(), non_linux::SocketCan));
    assert!(matches!(Default::default(), non_linux::SocketCanFd));
    assert!(matches!(Default::default(), non_linux::TokioSocketCan));
    assert!(matches!(Default::default(), non_linux::TokioSocketCanFd));
    assert_eq!(
        non_linux::UnsupportedPlatformError.message(),
        "embedded-can-socketcan is only supported on Linux targets"
    );
    assert_eq!(
        non_linux::Error.message(),
        "linux-socketcan-iso-tp is only supported on Linux targets"
    );
}
