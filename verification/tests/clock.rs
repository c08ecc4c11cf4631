use rangoon::{advance, Beat, ITERATION_TIME, MAX_DELTA};

#[test]
fn interval_is_a_tenth_of_a_second() {
    assert_eq!(ITERATION_TIME, 100);
    assert_eq!(MAX_DELTA, i32::MAX - 100);
}

#[test]
fn short_frame_only_accumulates() {
    assert_eq!(advance(0, 16), Beat { time: 16, ticked: false });
    assert_eq!(advance(16, 16), Beat { time: 32, ticked: false });
}

#[test]
fn exactly_one_interval_does_not_tick() {
    assert_eq!(advance(0, 100), Beat { time: 100, ticked: false });
    assert_eq!(advance(60, 40), Beat { time: 100, ticked: false });
}

#[test]
fn passing_the_interval_ticks_and_keeps_the_overshoot() {
    assert_eq!(advance(100, 1), Beat { time: 1, ticked: true });
    assert_eq!(advance(90, 25), Beat { time: 15, ticked: true });
}

#[test]
fn long_frame_gives_one_tick() {
    assert_eq!(advance(0, 300), Beat { time: 0, ticked: true });
    assert_eq!(advance(0, 350), Beat { time: 50, ticked: true });
}

#[test]
fn largest_frame_is_accepted() {
    let beat = advance(100, MAX_DELTA);
    assert!(beat.ticked);
    assert_eq!(beat.time, i32::MAX % 100);
}

#[test]
fn chunking_changes_the_number_of_ticks() {
    // 200 ms in frames of 50: the clock reads 50, 100, 150 -> 50, 100.
    let mut time = 0;
    let mut ticks = 0;
    for _ in 0..4 {
        let beat = advance(time, 50);
        time = beat.time;
        if beat.ticked {
            ticks += 1;
        }
    }
    assert_eq!((time, ticks), (100, 1));
    // 200 ms in one frame: one tick, nothing carried.
    assert_eq!(advance(0, 200), Beat { time: 0, ticked: true });
}

#[test]
fn no_time_no_ticks() {
    let mut time = 0;
    for _ in 0..10 {
        let beat = advance(time, 0);
        assert!(!beat.ticked);
        time = beat.time;
    }
    assert_eq!(time, 0);
}
