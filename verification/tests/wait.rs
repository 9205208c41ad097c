//! Waiting for children.
use moss_kernel::error::KernelError;
use moss_kernel::process::thread_group::id::{PidT, Tgid};
use moss_kernel::process::thread_group::signal::{SigId, SigSet};
use moss_kernel::process::thread_group::wait::{
    do_wait, find_waitable, ChildNotifiers, ChildState, SigInfo, WaitFlags, WALL, WCLONE,
    WCONTINUED, WEXITED, WNOHANG, WNOTHREAD, WNOWAIT, WSTOPPED,
};
use moss_kernel::process::thread_group::wait_calls::{sys_wait4, sys_waitid, IdType, WaitOutcome};
use std::collections::BTreeMap;

fn signal(id: u8) -> SigId {
    SigId::from_user_id(id).unwrap()
}

fn notifiers() -> ChildNotifiers {
    let mut n = ChildNotifiers::new();
    n.child_update(Tgid(9), ChildState::NormalExit { code: 3 });
    n.child_update(Tgid(5), ChildState::Stop { signal: signal(19) });
    n.child_update(
        Tgid(7),
        ChildState::SignalExit {
            signal: signal(11),
            core: true,
        },
    );
    n
}

fn groups() -> BTreeMap<u32, u32> {
    BTreeMap::from([(9, 100), (5, 100), (7, 200)])
}

fn wait4(n: &mut ChildNotifiers, children: usize, pid: PidT, flags: u32) -> WaitOutcome<i32> {
    sys_wait4(n, &groups(), children, pid, false, flags, true)
}

fn done(ret: usize, status: i32) -> WaitOutcome<i32> {
    WaitOutcome::Done {
        ret,
        copy_out: Some(status),
    }
}

#[test]
fn any_child_means_the_one_with_the_smallest_number() {
    let mut n = notifiers();
    assert_eq!(wait4(&mut n, 3, -1, 0), done(7, 11 | 0x80));
    assert_eq!(wait4(&mut n, 3, -1, 0), done(9, 3 << 8));
    assert_eq!(
        wait4(&mut n, 3, -1, 0),
        WaitOutcome::Sleep {
            interruptible: true
        }
    );
    assert_eq!(wait4(&mut n, 3, -1, WSTOPPED), done(5, (19 << 8) | 0x7f));
    assert!(n.inner.is_empty());
}

#[test]
fn a_process_group_selects_its_children() {
    let mut n = notifiers();
    assert_eq!(wait4(&mut n, 3, -200, 0), done(7, 11 | 0x80));
    assert_eq!(wait4(&mut n, 3, -100, 0), done(9, 3 << 8));
    // A thread group that has gone is in no process group.
    n.child_update(Tgid(6), ChildState::NormalExit { code: 0 });
    assert_eq!(
        wait4(&mut n, 3, -100, WNOHANG),
        WaitOutcome::Done {
            ret: 0,
            copy_out: None
        }
    );
    assert_eq!(
        wait4(&mut n, 3, PidT::MIN, WNOHANG),
        WaitOutcome::Done {
            ret: 0,
            copy_out: None
        }
    );
}

#[test]
fn one_child_is_waited_for_by_number() {
    let mut n = notifiers();
    assert_eq!(wait4(&mut n, 3, 9, 0), done(9, 3 << 8));
    assert_eq!(
        wait4(&mut n, 3, 9, WNOHANG),
        WaitOutcome::Done {
            ret: 0,
            copy_out: None
        }
    );
    assert_eq!(
        wait4(&mut n, 0, 9, 0),
        WaitOutcome::Failed(KernelError::NoChildProcess)
    );
    assert_eq!(
        wait4(&mut n, 0, 9, WNOHANG),
        WaitOutcome::Failed(KernelError::NoChildProcess)
    );
}

#[test]
fn a_report_is_found_without_children() {
    let mut n = notifiers();
    assert_eq!(wait4(&mut n, 0, 9, 0), done(9, 3 << 8));
}

#[test]
fn later_reports_replace_earlier_ones() {
    let mut n = ChildNotifiers::default();
    n.child_update(Tgid(4), ChildState::Continue);
    n.child_update(Tgid(4), ChildState::NormalExit { code: 0x1ff });
    assert_eq!(wait4(&mut n, 1, 4, WCONTINUED), done(4, 0xff00));
    assert!(n.inner.is_empty());
}

#[test]
fn continued_and_trapped_children_are_encoded() {
    let mut n = ChildNotifiers::new();
    n.child_update(Tgid(4), ChildState::Continue);
    n.child_update(
        Tgid(5),
        ChildState::TraceTrap {
            signal: signal(5),
            mask: 1 << 8,
        },
    );
    assert_eq!(wait4(&mut n, 2, 4, WCONTINUED), done(4, 0xffff));
    // A trace trap is told of whatever was asked for.
    assert_eq!(
        wait4(&mut n, 2, -1, 0),
        done(5, (5 << 8) | 0x7f | (1 << 16))
    );
}

#[test]
fn the_status_is_copied_out_only_where_asked() {
    let mut n = notifiers();
    assert_eq!(
        sys_wait4(&mut n, &groups(), 3, 9, true, 0, true),
        WaitOutcome::Done {
            ret: 9,
            copy_out: None
        }
    );
}

#[test]
fn wait4_refuses_what_it_does_not_know() {
    let mut n = notifiers();
    for flags in [0x10, WEXITED, WNOWAIT, 0x0800_0000] {
        assert_eq!(
            wait4(&mut n, 3, -1, flags),
            WaitOutcome::Failed(KernelError::InvalidValue)
        );
    }
    assert_eq!(
        sys_wait4(&mut n, &groups(), 3, -1, false, 0, false),
        WaitOutcome::Failed(KernelError::NotSupported)
    );
    assert_eq!(
        sys_wait4(&mut n, &groups(), 3, -1, false, 0x10, false),
        WaitOutcome::Failed(KernelError::InvalidValue)
    );
    assert_eq!(n.inner.len(), 3);
    assert_eq!(
        wait4(&mut n, 3, 9, WNOHANG | WNOTHREAD | WALL | WCLONE | WCONTINUED),
        done(9, 3 << 8)
    );
}

fn waitid(
    n: &mut ChildNotifiers,
    children: usize,
    idtype: i32,
    id: PidT,
    options: u32,
) -> WaitOutcome<SigInfo> {
    sys_waitid(n, &groups(), children, idtype, id, false, options, true)
}

fn told(code: i32, errno: i32) -> WaitOutcome<SigInfo> {
    WaitOutcome::Done {
        ret: 0,
        copy_out: Some(SigInfo {
            signo: 17,
            code,
            errno,
        }),
    }
}

#[test]
fn waitid_tells_why_a_child_changed() {
    let mut n = notifiers();
    n.child_update(Tgid(1), ChildState::Continue);
    n.child_update(
        Tgid(2),
        ChildState::TraceTrap {
            signal: signal(5),
            mask: 0,
        },
    );
    n.child_update(
        Tgid(3),
        ChildState::SignalExit {
            signal: signal(9),
            core: false,
        },
    );
    assert_eq!(waitid(&mut n, 6, 1, 1, WCONTINUED), told(6, 0));
    assert_eq!(waitid(&mut n, 6, 1, 2, 0), told(5, 5));
    assert_eq!(waitid(&mut n, 6, 1, 3, WEXITED), told(2, 9));
    assert_eq!(waitid(&mut n, 6, 1, 7, WEXITED), told(3, 11));
    assert_eq!(waitid(&mut n, 6, 1, 9, WEXITED), told(1, 3));
    assert_eq!(waitid(&mut n, 6, 1, 5, WSTOPPED), told(4, 19));
    assert!(n.inner.is_empty());
}

#[test]
fn a_report_ends_waitid() {
    let mut n = ChildNotifiers::new();
    let sleeps = WaitOutcome::Sleep {
        interruptible: false,
    };
    assert_eq!(waitid(&mut n, 3, 1, 9, WEXITED), sleeps);
    // Not what it asks for.
    n.child_update(Tgid(9), ChildState::Continue);
    assert_eq!(waitid(&mut n, 3, 1, 9, WEXITED), sleeps);
    // Not the child it is for.
    n.child_update(Tgid(8), ChildState::NormalExit { code: 1 });
    assert_eq!(waitid(&mut n, 3, 1, 9, WEXITED), sleeps);
    n.child_update(Tgid(9), ChildState::NormalExit { code: 3 });
    assert_eq!(waitid(&mut n, 3, 1, 9, WEXITED), told(1, 3));
}

#[test]
fn waitid_selects_by_kind() {
    let mut n = notifiers();
    assert_eq!(waitid(&mut n, 3, 2, 200, WEXITED | WNOWAIT), told(3, 11));
    assert_eq!(waitid(&mut n, 3, 2, -100, WEXITED), told(1, 3));
    assert_eq!(waitid(&mut n, 3, 0, 77, WEXITED), told(3, 11));
    assert_eq!(
        waitid(&mut n, 3, 0, 77, WEXITED),
        WaitOutcome::Sleep {
            interruptible: false
        }
    );
    assert_eq!(
        waitid(&mut n, 3, 0, 77, WEXITED | WNOHANG),
        WaitOutcome::Done {
            ret: 0,
            copy_out: None
        }
    );
    assert_eq!(
        waitid(&mut n, 0, 0, 77, WEXITED),
        WaitOutcome::Failed(KernelError::NoChildProcess)
    );
    assert_eq!(IdType::P_PGID.select(PidT::MIN), PidT::MIN);
    assert_eq!(IdType::P_PGID.select(6), -6);
    // These cannot be told from other ways to select.
    assert_eq!(IdType::P_PGID.select(1), IdType::P_ALL.select(77));
    assert_eq!(IdType::P_PGID.select(-1), -1);
    assert_eq!(IdType::P_PGID.select(0), IdType::P_PID.select(0));
}

#[test]
fn nowait_leaves_the_report() {
    let mut n = notifiers();
    for _ in 0..3 {
        assert_eq!(waitid(&mut n, 3, 1, 9, WEXITED | WNOWAIT), told(1, 3));
    }
    assert_eq!(waitid(&mut n, 3, 1, 9, WEXITED), told(1, 3));
    assert_eq!(
        waitid(&mut n, 3, 1, 9, WEXITED | WNOHANG),
        WaitOutcome::Done {
            ret: 0,
            copy_out: None
        }
    );
}

#[test]
fn waitid_refuses_what_it_does_not_know() {
    let mut n = notifiers();
    for (idtype, options) in [(3, WEXITED), (-1, WEXITED), (0, WALL), (0, 0x20), (1, WCLONE)] {
        assert_eq!(
            waitid(&mut n, 3, idtype, 9, options),
            WaitOutcome::Failed(KernelError::InvalidValue)
        );
        assert_eq!(
            sys_waitid(&mut n, &groups(), 3, idtype, 9, false, options, false),
            WaitOutcome::Failed(KernelError::InvalidValue)
        );
    }
    assert_eq!(n.inner.len(), 3);
}

#[test]
fn finding_and_collecting_agree() {
    let flags = WaitFlags::from_bits_retain(WEXITED | WSTOPPED);
    let mut n = notifiers();
    for _ in 0..3 {
        let seen = find_waitable(&n.inner, &groups(), -1, flags);
        assert!(seen.is_some());
        assert_eq!(do_wait(&mut n.inner, &groups(), -1, flags), seen);
    }
    assert_eq!(find_waitable(&n.inner, &groups(), -1, flags), None);
    assert_eq!(do_wait(&mut n.inner, &groups(), -1, flags), None);
}

#[test]
fn user_space_reads_status_words_back() {
    for code in [0u32, 1, 127, 255, 256 + 42] {
        let word = ChildState::NormalExit { code }.wait_status();
        assert_eq!(word & 0x7f, 0);
        assert_eq!((word >> 8) & 0xff, (code % 256) as i32);
    }
    for id in 1..=64u8 {
        for core in [false, true] {
            let word = ChildState::SignalExit {
                signal: signal(id),
                core,
            }
            .wait_status();
            assert_eq!(word & 0x7f, id as i32);
            assert_eq!(word & 0x80 != 0, core);
        }
        let word = ChildState::Stop { signal: signal(id) }.wait_status();
        assert_eq!(word & 0xff, 0x7f);
        assert_eq!((word >> 8) & 0xff, id as i32);
    }
}

#[test]
fn signals_are_counted_from_one() {
    assert!(SigId::from_user_id(0).is_none());
    assert!(SigId::from_user_id(65).is_none());
    let mut set = SigSet::empty();
    set.insert(signal(1));
    set.insert(signal(64));
    for id in 1..=64 {
        assert_eq!(set.contains(signal(id)), id == 1 || id == 64);
    }
}

#[test]
fn a_report_ends_the_wait() {
    let mut n = ChildNotifiers::new();
    let sleep = WaitOutcome::Sleep {
        interruptible: true,
    };
    assert_eq!(wait4(&mut n, 1, -100, 0), sleep);
    n.child_update(Tgid(7), ChildState::NormalExit { code: 0 });
    assert_eq!(wait4(&mut n, 1, -100, 0), sleep);
    n.child_update(Tgid(9), ChildState::NormalExit { code: 1 });
    assert_eq!(wait4(&mut n, 1, -100, 0), done(9, 1 << 8));
    assert_eq!(n.inner.len(), 1);
}
