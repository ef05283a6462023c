use patchbay::infiniband::log::{
    finish, Budget, BudgetExhausted, CappedFile, Drain, DrainStep, Drained, PER_FABRIC, PER_LOG,
};

/// Drains a stream, given as the sizes of what each read brings, into a log. Gives the number of
/// bytes read, the number retained, and whether the log is whole.
fn drain(budget: &mut Budget, mut file: CappedFile, reads: &[usize]) -> (usize, usize, bool) {
    let mut drain = Drain::new();
    let (mut read, mut held) = (0, 0);
    let mut reads = reads.iter();
    loop {
        let count = *reads.next().unwrap_or(&0);
        match drain.read(count) {
            DrainStep::Keep => {
                let (n, whole) = file.write_all(budget, count);
                held += n;
                drain.written(whole);
            }
            DrainStep::Discard => {}
            DrainStep::Flush => return (read, held, true),
            DrainStep::Incomplete => return (read, held, false),
        }
        read += count;
    }
}

#[test]
fn noisy_streams_share_a_hard_budget_and_are_fully_drained() {
    let mut budget = Budget::of(100);
    let one = budget.file();
    let (read, held, whole) = drain(&mut budget, one, &[200]);
    assert!(!whole);
    assert_eq!(read, 200);
    assert_eq!(held, 100);
    let two = budget.file();
    let (_, held, whole) = drain(&mut budget, two, &[10]);
    assert!(!whole);
    assert_eq!(held, 0);
}

#[test]
fn a_log_that_fits_is_whole() {
    let mut budget = Budget::of(100);
    let file = budget.file();
    assert_eq!(drain(&mut budget, file, &[60, 40]), (100, 100, true));
    let file = budget.file();
    assert_eq!(drain(&mut budget, file, &[]), (0, 0, true));
}

#[test]
fn interleaved_logs_share_the_budget() {
    let mut budget = Budget::of(100);
    let mut a = budget.file();
    let mut b = budget.file();
    assert_eq!(a.write(&mut budget, 60), Ok(60));
    assert_eq!(b.write(&mut budget, 60), Ok(40));
    assert_eq!(a.write(&mut budget, 1), Err(BudgetExhausted));
    assert_eq!(a.write(&mut budget, 0), Ok(0));
    assert_eq!(b.write_all(&mut budget, 0), (0, true));
}

#[test]
fn a_log_has_its_own_limit() {
    assert_eq!(PER_LOG, 16 * 1024 * 1024);
    assert_eq!(PER_FABRIC, 64 * 1024 * 1024);
    let mut budget = Budget::new();
    for _ in 0..4 {
        let mut file = budget.file();
        assert_eq!(file.write_all(&mut budget, PER_LOG + 1), (PER_LOG, false));
        assert_eq!(file.write(&mut budget, 1), Err(BudgetExhausted));
    }
    let mut file = budget.file();
    assert_eq!(file.write(&mut budget, 1), Err(BudgetExhausted));
}

#[test]
fn only_an_ended_drain_without_failure_is_whole() {
    assert_eq!(finish(Drained::Ended { failure: None }), Ok(()));
    let disk = Some("disk full".to_string());
    assert_eq!(finish(Drained::Ended { failure: disk }), Err("disk full".to_string()));
    assert_eq!(finish(Drained::TimedOut), Err("IB log drain timed out".to_string()));
    let lost = Drained::Lost("channel closed".to_string());
    assert_eq!(finish(lost), Err("channel closed".to_string()));
}
