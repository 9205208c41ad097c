//! Clocks, permissions and numbers as text.
use moss_kernel::clock::gettime::{clock_source, sys_clock_gettime, ClockSource};
use moss_kernel::clock::id::ClockId;
use moss_kernel::clock::timespec::TimeSpec;
use moss_kernel::error::KernelError;
use moss_kernel::fs::attr::{FileAttr, FileType};
use moss_kernel::fs::chmod::sys_fchmodat;
use moss_kernel::text::{
    decimal_string, parse_i32, parse_u32, same_text, signed_decimal_string,
};

#[test]
fn clocks_are_numbered() {
    let known = [
        (0, ClockId::Monotonic),
        (1, ClockId::Realtime),
        (2, ClockId::ProcessCpuTimeId),
        (3, ClockId::ThreadCpuTimeId),
        (4, ClockId::MonotonicRaw),
        (5, ClockId::RealtimeCoarse),
        (6, ClockId::MonotonicCoarse),
        (7, ClockId::BootTime),
        (8, ClockId::RealtimeAlarm),
        (9, ClockId::BootTimeAlarm),
        (11, ClockId::Tai),
    ];
    for (number, id) in known {
        assert_eq!(ClockId::try_from(number), Ok(id));
        assert_eq!(id.as_i32(), number);
    }
    for number in [-1, 10, 12, i32::MAX] {
        assert_eq!(ClockId::try_from(number), Err(()));
    }
}

#[test]
fn two_clocks_can_be_read() {
    let uptime = TimeSpec {
        tv_sec: 5,
        tv_nsec: 6,
    };
    let date = TimeSpec {
        tv_sec: 7,
        tv_nsec: 8,
    };
    assert_eq!(sys_clock_gettime(0, uptime, date), Ok(uptime));
    assert_eq!(sys_clock_gettime(1, uptime, date), Ok(date));
    for clock in [2, 7, 11, 10, -3] {
        assert_eq!(
            sys_clock_gettime(clock, uptime, date),
            Err(KernelError::InvalidValue)
        );
    }
    assert_eq!(clock_source(0), Ok(ClockSource::Uptime));
    assert_eq!(clock_source(1), Ok(ClockSource::Date));
}

#[test]
fn permissions_are_replaced() {
    let attr = FileAttr {
        file_type: FileType::Directory,
        mode: 0o755,
        size: 12,
    };
    let changed = FileAttr {
        mode: 0o640,
        ..attr
    };
    assert_eq!(sys_fchmodat(0, Ok(attr), 0o640), Ok(changed));
    assert_eq!(sys_fchmodat(0x1000, Ok(attr), 0o640), Ok(changed));
    assert_eq!(
        sys_fchmodat(0, Err(KernelError::Fault), 0o640),
        Err(KernelError::Fault)
    );
    assert_eq!(
        sys_fchmodat(0x100, Ok(attr), 0o640),
        Err(KernelError::NotSupported)
    );
    assert_eq!(
        sys_fchmodat(0x1100, Err(KernelError::Fault), 0o640),
        Err(KernelError::NotSupported)
    );
}

#[test]
fn numbers_are_written_as_usual() {
    for n in [0u64, 7, 10, 99, 100, 4294967295, u64::MAX] {
        assert_eq!(decimal_string(n), n.to_string());
    }
    for n in [0i64, -1, 42, -128, i64::MIN, i64::MAX] {
        assert_eq!(signed_decimal_string(n), n.to_string());
    }
}

#[test]
fn numbers_are_read_as_usual() {
    let texts = [
        "0", "7", "007", "+7", "-7", "-0", "", "+", "-", "++7", "+-7", "7 ", " 7", "7a", "4294967295",
        "4294967296", "2147483647", "2147483648", "-2147483648", "-2147483649",
        "99999999999999999999999", "00000000000000000000001", "\u{0667}",
    ];
    for text in texts {
        assert_eq!(parse_u32(text), text.parse::<u32>().ok(), "{}", text);
        assert_eq!(parse_i32(text), text.parse::<i32>().ok(), "{}", text);
    }
    for n in [0u32, 12, 345678, u32::MAX] {
        assert_eq!(parse_u32(&decimal_string(n as u64)), Some(n));
    }
}

#[test]
fn texts_are_compared_whole() {
    assert!(same_text("", ""));
    assert!(same_text("s\u{e9}lf", "s\u{e9}lf"));
    assert!(!same_text("self", "selfs"));
    assert!(!same_text("self", "selg"));
}
