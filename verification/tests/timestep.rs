use spellsim::fixed::DT;
use spellsim::ticks::TickAccumulator;

#[test]
fn scripted_deltas_run_five_ticks() {
    // frame deltas of 0.017, 0.003 and 0.031 seconds at one hundred ticks
    // per second: five ticks in all, with the leftover carried between calls
    let mut acc = TickAccumulator::new();
    let mut total: u64 = 0;
    let t1 = acc.advance(170);
    assert_eq!(t1, 1);
    assert_eq!(acc.leftover, 70);
    total += t1;
    let t2 = acc.advance(30);
    assert_eq!(t2, 1);
    assert_eq!(acc.leftover, 0);
    total += t2;
    let t3 = acc.advance(310);
    assert_eq!(t3, 3);
    assert_eq!(acc.leftover, 10);
    total += t3;
    assert_eq!(total, 5);
}

#[test]
fn no_time_is_lost_or_invented() {
    let mut acc = TickAccumulator::new();
    let deltas: [i64; 6] = [1, 99, 100, 37, 0, 263];
    let mut fed: i64 = 0;
    let mut ticks: i64 = 0;
    for d in deltas {
        fed += d;
        ticks += acc.advance(d) as i64;
    }
    assert_eq!(DT * ticks + acc.leftover, fed);
}

#[test]
fn sub_tick_deltas_accumulate() {
    let mut acc = TickAccumulator::new();
    assert_eq!(acc.advance(99), 0);
    assert_eq!(acc.leftover, 99);
    assert_eq!(acc.advance(0), 0);
    assert_eq!(acc.leftover, 99);
    assert_eq!(acc.advance(1), 1);
    assert_eq!(acc.leftover, 0);
}

#[test]
fn long_stall_catches_up_unbounded() {
    // one second of stalled frame time runs a hundred ticks at once
    let mut acc = TickAccumulator::new();
    assert_eq!(acc.advance(10_000), 100);
    assert_eq!(acc.leftover, 0);
}
