use orbitsim::ease::Easer;
use orbitsim::ease::Easing;
use orbitsim::fixed::SCALE;
use orbitsim::smooth::LinearTransform;

// raw fixed-point renderings of the classic sample transition
const TEST_FROM: i64 = 100_000_000; // 0.1
const TEST_TO: i64 = 12_500_000_000; // 12.5
const TEST_START: i64 = 1_234_345_600_000; // 1234.3456 s
const TEST_DURATION: i64 = 333_000_000; // 0.333 s

fn check(easer: &Easer) {
    let start = easer.start;
    let duration = easer.duration;
    let from_val = easer.transitions[0].0;
    let to_val = easer.transitions[0].1;

    assert_eq!(
        easer.values_at(start - duration * 10)[0],
        from_val,
        "Before start clamps at #from"
    );
    assert_eq!(
        easer.values_at(start + duration * 10)[0],
        to_val,
        "After start clamps at #to"
    );

    assert_eq!(easer.values_at(start)[0], from_val);
    assert_eq!(easer.values_at(start + duration)[0], to_val);

    // not technically required, but true for the sample transition
    assert!(easer.values_at(start + duration / 2)[0] > from_val, "Half way is before start");
    assert!(easer.values_at(start + duration / 2)[0] < to_val, "Half way is after end");
}

#[test]
fn linear_32() {
    let easer = Easer::linear()
        .duration(TEST_DURATION)
        .start(TEST_START)
        .add_transition(TEST_FROM, TEST_TO);

    println!("linear: {:?}", easer.values_at(TEST_START + 54_400_000));
    check(&easer);
}

#[test]
fn linear_64() {
    // exact value at a chosen sample: from + (to - from) * delta / duration
    let easer = Easer::linear()
        .duration(TEST_DURATION)
        .start(TEST_START)
        .add_transition(TEST_FROM, TEST_TO);

    let delta: i64 = 111_000_000; // one third of the duration
    let expected = TEST_FROM + (TEST_TO - TEST_FROM) * delta / TEST_DURATION;
    assert_eq!(easer.values_at(TEST_START + delta)[0], expected);
    check(&easer);
}

#[test]
fn generic_32() {
    let eased = Easer::using(Easing::QuadOut)
        .duration(TEST_DURATION)
        .start(TEST_START)
        .add_transition(TEST_FROM, TEST_TO);

    let val = eased.values_at(TEST_START + TEST_DURATION / 2);
    println!("quad out: {:?}", val);
    check(&eased);
}

#[test]
fn generic_64() {
    // exact quadratic ease-out sample: to - c*(u/d) * (u/d), staged as the library stages it
    let eased = Easer::using(Easing::QuadOut)
        .duration(TEST_DURATION)
        .start(TEST_START)
        .add_transition(TEST_FROM, TEST_TO);

    let delta: i64 = TEST_DURATION / 3;
    let u = TEST_DURATION - delta;
    let c = TEST_TO - TEST_FROM;
    let t1 = c * u / TEST_DURATION;
    let expected = TEST_TO - t1 * u / TEST_DURATION;
    assert_eq!(eased.values_at(TEST_START + delta)[0], expected);
    check(&eased);
}

#[test]
fn linear() {
    let start: i64 = 1_000_000_000;
    let t = LinearTransform::new(start, TEST_FROM, TEST_TO, TEST_DURATION);

    assert_eq!(
        t.value_at(start - TEST_DURATION * 10),
        TEST_FROM,
        "Before start clamps at #from"
    );

    assert_eq!(t.value_at(start), TEST_FROM);
    let seven_tenths = start + TEST_DURATION * 7 / 10;
    assert!(t.value_at(seven_tenths) > TEST_FROM);
    assert!(t.value_at(seven_tenths) < TEST_TO);
    assert_eq!(t.value_at(start + TEST_DURATION), TEST_TO);

    assert_eq!(
        t.value_at(start + TEST_DURATION * 10),
        TEST_TO,
        "After start clamps at #to"
    );
}

#[test]
fn easer_without_transitions_yields_nothing() {
    let easer = Easer::linear().duration(TEST_DURATION).start(0);
    assert!(easer.values_at(TEST_DURATION / 2).is_empty());
    assert!(!easer.has_finished(TEST_DURATION));
    assert!(easer.has_finished(TEST_DURATION + 1));
}

#[test]
fn expo_out_halves_the_remaining_distance_each_tenth() {
    let easer = Easer::using(Easing::ExpoOut)
        .duration(SCALE)
        .start(0)
        .add_transition(0, 1_024_000_000);
    // the exponent passes a whole power of two every tenth of the window
    assert_eq!(easer.values_at(SCALE / 10)[0], 512_000_000);
    assert_eq!(easer.values_at(2 * SCALE / 10)[0], 768_000_000);
    assert_eq!(easer.values_at(3 * SCALE / 10)[0], 896_000_000);
    assert_eq!(easer.values_at(SCALE)[0], 1_024_000_000);
}
