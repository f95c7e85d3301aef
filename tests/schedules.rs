use gpu_ntt::schedule::{
    check_size, max_degree, prefers_radix, radix_round, should_break, FftError, InplaceSchedule, InplaceStep,
    RadixRound, RadixSchedule, RadixStep, MIN_RADIX_MEMORY,
};

fn run_radix(lgn: u32) -> (Vec<RadixRound>, bool) {
    let mut s = RadixSchedule::new(1usize << lgn, lgn, false).unwrap();
    let mut rounds = Vec::new();
    loop {
        match s.step(false) {
            RadixStep::Launch(r) => rounds.push(r),
            RadixStep::ReadBack { from_src } => return (rounds, from_src),
            RadixStep::Cancelled => panic!("not preempted"),
        }
    }
}

#[test]
fn radix_single_stage_reads_back_destination() {
    let (rounds, from_src) = run_radix(3);
    assert_eq!(rounds.len(), 1);
    let r = rounds[0];
    assert_eq!((r.n, r.lgp, r.deg, r.max_deg, r.read_src), (8, 0, 3, 3, true));
    assert_eq!(r.global_work_size, 4);
    assert_eq!(r.local_work_size, 4);
    assert_eq!(r.local_scratch_len, 8);
    assert!(!from_src);
}

#[test]
fn radix_two_stages_read_back_source() {
    let (rounds, from_src) = run_radix(16);
    assert_eq!(rounds.len(), 2);
    assert_eq!((rounds[0].lgp, rounds[0].deg, rounds[0].read_src), (0, 8, true));
    assert_eq!((rounds[1].lgp, rounds[1].deg, rounds[1].read_src), (8, 8, false));
    assert_eq!(rounds[0].global_work_size, (65536 >> 8) << 7);
    assert_eq!(rounds[0].local_work_size, 128);
    assert!(from_src);
}

#[test]
fn radix_uneven_last_stage() {
    let (rounds, from_src) = run_radix(20);
    let degs: Vec<u32> = rounds.iter().map(|r| r.deg).collect();
    let lgps: Vec<u32> = rounds.iter().map(|r| r.lgp).collect();
    assert_eq!(degs, vec![8, 8, 4]);
    assert_eq!(lgps, vec![0, 8, 16]);
    assert!(rounds.iter().all(|r| r.max_deg == 8 && r.n == 1 << 20));
    assert_eq!(rounds[2].global_work_size, ((1u64 << 20) >> 4) << 3);
    assert_eq!(rounds[2].local_work_size, 8);
    assert_eq!(rounds[2].local_scratch_len, 16);
    assert!(!from_src);
}

#[test]
fn radix_largest_size() {
    let r = radix_round(32, 24, 8, 8, true);
    assert_eq!(r.n, 1u64 << 32);
    assert_eq!(r.global_work_size, (1u64 << 24) << 7);
    let (rounds, from_src) = run_radix(12);
    assert_eq!(rounds.len(), 2);
    assert_eq!(rounds[1].deg, 4);
    assert!(from_src);
}

#[test]
fn radix_degree_one() {
    let (rounds, from_src) = run_radix(1);
    assert_eq!(rounds.len(), 1);
    assert_eq!(rounds[0].global_work_size, 1);
    assert_eq!(rounds[0].local_work_size, 1);
    assert_eq!(rounds[0].local_scratch_len, 2);
    assert!(!from_src);
}

#[test]
fn radix_cancelled_before_first_stage() {
    let mut s = RadixSchedule::new(1024, 10, false).unwrap();
    assert_eq!(s.step(true), RadixStep::Cancelled);
    assert_eq!(s.rounds, 0);
    assert_eq!(s.lgp, 0);
}

#[test]
fn radix_cancelled_between_stages() {
    let mut s = RadixSchedule::new(1 << 20, 20, false).unwrap();
    assert!(matches!(s.step(false), RadixStep::Launch(_)));
    let before = s;
    assert_eq!(s.step(true), RadixStep::Cancelled);
    assert_eq!(s, before);
    assert_eq!(s.step(true), RadixStep::Cancelled);
    assert_eq!(s.rounds, 1);
}

#[test]
fn radix_priority_holder_ignores_signal() {
    let mut s = RadixSchedule::new(1 << 20, 20, true).unwrap();
    let mut launched = 0;
    loop {
        match s.step(true) {
            RadixStep::Launch(_) => launched += 1,
            RadixStep::ReadBack { .. } => break,
            RadixStep::Cancelled => panic!("priority holder cancelled"),
        }
    }
    assert_eq!(launched, 3);
}

#[test]
fn radix_rejects_bad_sizes() {
    assert_eq!(RadixSchedule::new(1, 0, false), Err(FftError::InvalidSize));
    assert_eq!(RadixSchedule::new(8, 4, false), Err(FftError::InvalidSize));
    assert_eq!(RadixSchedule::new(1 << 33, 33, false), Err(FftError::InvalidSize));
}

#[test]
fn size_checks() {
    assert_eq!(check_size(2, 1), Ok(()));
    assert_eq!(check_size(1 << 12, 12), Ok(()));
    assert_eq!(check_size(1usize << 32, 32), Ok(()));
    assert_eq!(check_size(1, 0), Err(FftError::InvalidSize));
    assert_eq!(check_size(0, 0), Err(FftError::InvalidSize));
    assert_eq!(check_size(7, 3), Err(FftError::InvalidSize));
    assert_eq!(check_size(16, 3), Err(FftError::InvalidSize));
}

#[test]
fn inplace_kernel_sequence() {
    let mut s = InplaceSchedule::start(8, 3, false, false).unwrap();
    assert_eq!(s.step(), InplaceStep::ReverseBits { global_work_size: 8, lgn: 3 });
    for lgm in 0..3 {
        assert_eq!(s.step(), InplaceStep::Butterfly { global_work_size: 4, lgn: 3, lgm });
    }
    assert_eq!(s.step(), InplaceStep::ReadBack);
    assert_eq!(s.step(), InplaceStep::ReadBack);
}

#[test]
fn inplace_checks_signal_at_entry_only() {
    assert_eq!(InplaceSchedule::start(8, 3, false, true), Err(FftError::GpuTaken));
    assert_eq!(InplaceSchedule::start(7, 3, false, true), Err(FftError::GpuTaken));
    assert!(InplaceSchedule::start(8, 3, true, true).is_ok());
    assert_eq!(InplaceSchedule::start(7, 3, false, false), Err(FftError::InvalidSize));
    assert_eq!(InplaceSchedule::start(1, 0, true, false), Err(FftError::InvalidSize));
}

#[test]
fn cancellation_gate() {
    assert!(should_break(false, true));
    assert!(!should_break(true, true));
    assert!(!should_break(false, false));
    assert!(!should_break(true, false));
}

#[test]
fn strategy_threshold() {
    assert_eq!(MIN_RADIX_MEMORY, 9 * 1024 * 1024 * 1024);
    assert!(!prefers_radix(MIN_RADIX_MEMORY));
    assert!(prefers_radix(MIN_RADIX_MEMORY + 1));
    assert!(!prefers_radix(8 * 1024 * 1024 * 1024));
    assert!(prefers_radix(16 * 1024 * 1024 * 1024));
}

#[test]
fn max_degree_is_capped() {
    assert_eq!(max_degree(1), 1);
    assert_eq!(max_degree(8), 8);
    assert_eq!(max_degree(9), 8);
    assert_eq!(max_degree(32), 8);
}
