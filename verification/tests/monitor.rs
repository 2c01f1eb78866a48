use signal_monitor::fault::Fault;
use signal_monitor::monitor::{judge, Deviation, Monitor, State};
use signal_monitor::range::Range;
use signal_monitor::sample::Sample;

// The destination scale runs from 0.0 to 1.0 in steps of 1/25600.
fn channel() -> Monitor {
    Monitor::new(
        Range::new(0, 256).unwrap(),
        Range::new(0, 25600).unwrap(),
        Range::new(5120, 17920).unwrap(),
    )
    .unwrap()
}

#[test]
fn new_monitor() {
    let monitor = Monitor::new(
        Range::new(0, 256).unwrap(),
        Range::new(0, 10).unwrap(),
        Range::new(2, 7).unwrap(),
    )
    .unwrap();
    assert_eq!(0, monitor.domain().min());
    assert_eq!(256, monitor.domain().max());
    assert_eq!(0, monitor.destination().min());
    assert_eq!(10, monitor.destination().max());
    assert_eq!(2, monitor.nominal().min());
    assert_eq!(7, monitor.nominal().max());
}

#[test]
fn new_monitor_invalid_spec() {
    let result = Monitor::new(
        Range::new(0, 256).unwrap(),
        Range::new(2, 10).unwrap(),
        Range::new(1, 7).unwrap(),
    );
    match result {
        Err(fault) => assert_eq!(
            "values nominal:=Range { min: 1, max: 7 } is not contained in values:=Range { min: 2, max: 10 }",
            fault.message()
        ),
        Ok(_) => assert!(false),
    }
}

#[test]
fn monitor_new_rejects_nominal_outside_on_either_side() {
    let domain = Range::new(0, 256).unwrap();
    let destination = Range::new(0, 1000).unwrap();
    for (min, max) in [(-1i64, 500i64), (500, 1001), (-1, 1001), (-5, -1), (1001, 1002)] {
        let nominal = Range::new(min, max).unwrap();
        assert_eq!(
            Err(Fault::NominalOutOfDestination { nominal, destination }),
            Monitor::new(domain, destination, nominal)
        );
    }
    for (min, max) in [(0i64, 1000i64), (0, 0), (1000, 1000), (200, 700)] {
        let nominal = Range::new(min, max).unwrap();
        let monitor = Monitor::new(domain, destination, nominal).unwrap();
        assert_eq!(nominal, monitor.nominal());
        assert_eq!(destination, monitor.destination());
        assert_eq!(domain, monitor.domain());
    }
}

#[test]
fn map_rescales_linearly() {
    let monitor = channel();
    assert_eq!(Ok(0), monitor.map(0));
    assert_eq!(Ok(12800), monitor.map(128));
    assert_eq!(Ok(23000), monitor.map(230));
    assert_eq!(Ok(25600), monitor.map(256));
    assert_eq!(Ok(-100), monitor.map(-1));
    assert_eq!(Ok(30000), monitor.map(300));
}

#[test]
fn map_measures_from_the_lower_domain_bound() {
    let monitor = Monitor::new(
        Range::new(100, 200).unwrap(),
        Range::new(-500, 500).unwrap(),
        Range::new(-100, 100).unwrap(),
    )
    .unwrap();
    assert_eq!(Ok(-500), monitor.map(100));
    assert_eq!(Ok(0), monitor.map(150));
    assert_eq!(Ok(500), monitor.map(200));
    assert_eq!(Ok(-1500), monitor.map(0));
}

#[test]
fn map_divides_the_product() {
    // 1000 / 256 is no whole number: the product is formed first.
    let monitor = Monitor::new(
        Range::new(0, 256).unwrap(),
        Range::new(0, 1000).unwrap(),
        Range::new(200, 700).unwrap(),
    )
    .unwrap();
    assert_eq!(Ok(0), monitor.map(0));
    assert_eq!(Ok(500), monitor.map(128));
    assert_eq!(Ok(1000), monitor.map(256));
    assert_eq!(Ok(898), monitor.map(230));
    assert_eq!(Ok(3), monitor.map(1));
}

#[test]
fn map_rounds_down_on_both_sides_of_the_domain() {
    let monitor = Monitor::new(
        Range::new(0, 256).unwrap(),
        Range::new(0, 1000).unwrap(),
        Range::new(200, 700).unwrap(),
    )
    .unwrap();
    // -1000 / 256 lies between -4 and -3.
    assert_eq!(Ok(-4), monitor.map(-1));
    // -64000 / 256 is -250 exactly.
    assert_eq!(Ok(-250), monitor.map(-64));
    // 257000 / 256 lies between 1003 and 1004.
    assert_eq!(Ok(1003), monitor.map(257));
}

#[test]
fn map_on_a_grid_of_tenths() {
    let monitor = Monitor::new(
        Range::new(0, 256).unwrap(),
        Range::new(0, 10).unwrap(),
        Range::new(2, 7).unwrap(),
    )
    .unwrap();
    assert_eq!(Ok(5), monitor.map(128));
    assert_eq!(Ok(10), monitor.map(256));
    let shifted = Monitor::new(
        Range::new(64, 192).unwrap(),
        Range::new(0, 10).unwrap(),
        Range::new(2, 7).unwrap(),
    )
    .unwrap();
    assert_eq!(Ok(0), shifted.map(64));
    assert_eq!(Ok(5), shifted.map(128));
    assert_eq!(Ok(10), shifted.map(192));
}

#[test]
fn map_sends_the_ends_to_the_ends() {
    for (low, high, from, to) in [
        (0i64, 256i64, 0i64, 1000i64),
        (0, 256, 0, 10),
        (-7, 300, -1000, 9000),
        (5, 6, -3, 3),
        (0, 1000, 0, 3),
        (i64::MIN, i64::MAX, -1, 1),
    ] {
        let monitor = Monitor::new(
            Range::new(low, high).unwrap(),
            Range::new(from, to).unwrap(),
            Range::new(from, to).unwrap(),
        )
        .unwrap();
        assert_eq!(Ok(from), monitor.map(low));
        assert_eq!(Ok(to), monitor.map(high));
    }
}

#[test]
fn classify_nominal_on_a_grid_of_tenths() {
    let monitor = Monitor::new(
        Range::new(0, 256).unwrap(),
        Range::new(0, 10).unwrap(),
        Range::new(2, 7).unwrap(),
    )
    .unwrap();
    assert_eq!(
        Ok(State::Nominal(5)),
        monitor.classify(Sample::new(128), Sample::new(128))
    );
}

#[test]
fn classify_alert_on_a_grid_of_640() {
    let monitor = Monitor::new(
        Range::new(0, 256).unwrap(),
        Range::new(0, 640).unwrap(),
        Range::new(128, 448).unwrap(),
    )
    .unwrap();
    assert_eq!(Ok(575), monitor.map(230));
    assert_eq!(
        Ok(State::Alert(575, Deviation::High(127))),
        monitor.classify(Sample::new(230), Sample::new(128))
    );
}

#[test]
fn classify_error_on_a_grid_of_80() {
    let monitor = Monitor::new(
        Range::new(0, 256).unwrap(),
        Range::new(0, 80).unwrap(),
        Range::new(16, 56).unwrap(),
    )
    .unwrap();
    assert_eq!(
        Ok(State::Error(75, Deviation::High(19))),
        monitor.classify(Sample::new(240), Sample::new(230))
    );
}

#[test]
fn classify_crossing_on_a_grid_of_40() {
    let monitor = Monitor::new(
        Range::new(0, 256).unwrap(),
        Range::new(0, 40).unwrap(),
        Range::new(8, 28).unwrap(),
    )
    .unwrap();
    assert_eq!(
        Ok(State::Alert(5, Deviation::Low(-3))),
        monitor.classify(Sample::new(32), Sample::new(230))
    );
    assert_eq!(
        Ok(State::Alert(35, Deviation::High(7))),
        monitor.classify(Sample::new(230), Sample::new(32))
    );
}

#[test]
fn map_keeps_domain_readings_inside_the_destination() {
    let monitor = Monitor::new(
        Range::new(-7, 300).unwrap(),
        Range::new(-1000, 9000).unwrap(),
        Range::new(0, 10).unwrap(),
    )
    .unwrap();
    let mut last = i64::MIN;
    for x in -7i64..=300 {
        assert!(monitor.can_map(x));
        let y = monitor.map(x).unwrap();
        assert!(-1000 <= y && y <= 9000);
        assert!(last <= y);
        last = y;
    }
}

#[test]
fn map_fails_on_a_degenerate_domain() {
    let domain = Range::new(5, 5).unwrap();
    let monitor = Monitor::new(
        domain,
        Range::new(0, 25600).unwrap(),
        Range::new(5120, 17920).unwrap(),
    )
    .unwrap();
    assert!(monitor.can_map(5));
    assert_eq!(Err(Fault::DegenerateDomain { domain }), monitor.map(5));
    assert_eq!(Err(Fault::DegenerateDomain { domain }), monitor.map(128));
    assert_eq!(
        Err(Fault::DegenerateDomain { domain }),
        monitor.classify(Sample::new(128), Sample::new(128))
    );
    assert_eq!(
        "degenerate domain: domain:=Range { min: 5, max: 5 } has size zero",
        Fault::DegenerateDomain { domain }.message()
    );
}

#[test]
fn can_map_tells_what_fits() {
    let wide = Monitor::new(
        Range::new(0, 1).unwrap(),
        Range::new(i64::MIN, i64::MAX).unwrap(),
        Range::new(0, 0).unwrap(),
    )
    .unwrap();
    assert!(wide.can_map(0));
    assert!(wide.can_map(1));
    assert!(!wide.can_map(2));
    assert!(!wide.can_map(-1));
    assert!(!wide.can_map(i64::MAX));
    assert!(!wide.can_map(i64::MIN));
    assert_eq!(Ok(i64::MIN), wide.map(0));
    assert_eq!(Ok(i64::MAX), wide.map(1));

    let flat = Monitor::new(
        Range::new(0, 10).unwrap(),
        Range::new(3, 4).unwrap(),
        Range::new(3, 3).unwrap(),
    )
    .unwrap();
    assert!(flat.can_map(i64::MAX));
    assert!(flat.can_map(i64::MIN));
    assert_eq!(Ok(922337203685477583), flat.map(i64::MAX));
    assert_eq!(Ok(-922337203685477578), flat.map(i64::MIN));

    let steep = Monitor::new(
        Range::new(0, 1).unwrap(),
        Range::new(0, i64::MAX).unwrap(),
        Range::new(0, 0).unwrap(),
    )
    .unwrap();
    assert!(steep.can_map(1));
    assert!(steep.can_map(-1));
    assert!(!steep.can_map(2));
    assert!(!steep.can_map(-2));
    assert!(!steep.can_map(i64::MIN));
    assert_eq!(Ok(i64::MAX), steep.map(1));
    assert_eq!(Ok(-i64::MAX), steep.map(-1));

    let unit = Monitor::new(
        Range::new(i64::MIN, i64::MAX).unwrap(),
        Range::new(i64::MIN, i64::MAX).unwrap(),
        Range::new(0, 0).unwrap(),
    )
    .unwrap();
    assert!(unit.can_map(i64::MIN));
    assert!(unit.can_map(i64::MAX));
    assert_eq!(Ok(i64::MAX), unit.map(i64::MAX));
    assert_eq!(Ok(-1), unit.map(-1));
}

#[test]
fn classify_two_nominal_samples() {
    let monitor = channel();
    assert_eq!(Ok(12800), monitor.map(128));
    assert_eq!(
        Ok(State::Nominal(12800)),
        monitor.classify(Sample::new(128), Sample::new(128))
    );
}

#[test]
fn classify_fresh_excursion_is_an_alert() {
    let monitor = channel();
    assert_eq!(
        Ok(State::Alert(23000, Deviation::High(5080))),
        monitor.classify(Sample::new(230), Sample::new(128))
    );
    assert_eq!(
        Ok(State::Alert(1000, Deviation::Low(-4120))),
        monitor.classify(Sample::new(10), Sample::new(128))
    );
}

#[test]
fn classify_sustained_excursion_is_an_error() {
    let monitor = channel();
    assert_eq!(
        Ok(State::Alert(23000, Deviation::High(5080))),
        monitor.classify(Sample::new(230), Sample::new(128))
    );
    assert_eq!(
        Ok(State::Error(24000, Deviation::High(6080))),
        monitor.classify(Sample::new(240), Sample::new(230))
    );
    assert_eq!(
        Ok(State::Error(1000, Deviation::Low(-4120))),
        monitor.classify(Sample::new(10), Sample::new(20))
    );
}

#[test]
fn classify_crossing_the_band_is_an_alert() {
    let monitor = channel();
    assert_eq!(
        Ok(State::Alert(1000, Deviation::Low(-4120))),
        monitor.classify(Sample::new(10), Sample::new(230))
    );
    assert_eq!(
        Ok(State::Alert(23000, Deviation::High(5080))),
        monitor.classify(Sample::new(230), Sample::new(10))
    );
}

#[test]
fn classify_band_edges_are_nominal() {
    let monitor = Monitor::new(
        Range::new(0, 100).unwrap(),
        Range::new(0, 100).unwrap(),
        Range::new(20, 70).unwrap(),
    )
    .unwrap();
    assert_eq!(Ok(State::Nominal(20)), monitor.classify(Sample::new(20), Sample::new(0)));
    assert_eq!(Ok(State::Nominal(70)), monitor.classify(Sample::new(70), Sample::new(100)));
    assert_eq!(
        Ok(State::Alert(19, Deviation::Low(-1))),
        monitor.classify(Sample::new(19), Sample::new(20))
    );
    assert_eq!(
        Ok(State::Error(71, Deviation::High(1))),
        monitor.classify(Sample::new(71), Sample::new(71))
    );
}

#[test]
fn judge_follows_the_hysteresis_rule() {
    let nominal = Range::new(5, 9).unwrap();
    assert_eq!(State::Nominal(7), judge(&nominal, 7, 100));
    assert_eq!(State::Alert(12, Deviation::High(3)), judge(&nominal, 12, 7));
    assert_eq!(State::Error(12, Deviation::High(3)), judge(&nominal, 12, 11));
    assert_eq!(State::Alert(2, Deviation::Low(-3)), judge(&nominal, 2, 11));
    assert_eq!(State::Error(2, Deviation::Low(-3)), judge(&nominal, 2, 4));
    assert_eq!(State::Alert(2, Deviation::Low(-3)), judge(&nominal, 2, 5));
}

#[test]
fn sample_keeps_its_value_and_its_instant() {
    let first = Sample::new(42);
    let second = Sample::new(-42);
    assert_eq!(42, first.value());
    assert_eq!(-42, second.value());
    assert!(first.time() <= second.time());
    assert!(first.time() <= std::time::Instant::now());
}

#[test]
fn fault_messages_name_the_bounds() {
    assert_eq!(
        "invalid range: min:=10, max:=-10, min <= max is false!",
        Fault::InvalidRange { min: 10, max: -10 }.message()
    );
    let nominal = Range::new(-1, 7).unwrap();
    let destination = Range::new(0, 10).unwrap();
    assert_eq!(
        "values nominal:=Range { min: -1, max: 7 } is not contained in values:=Range { min: 0, max: 10 }",
        Fault::NominalOutOfDestination { nominal, destination }.message()
    );
}
