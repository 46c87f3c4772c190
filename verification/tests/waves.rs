//! Reading signals at points of the time table.
use jpdb::waves::make_zero_signal;
use jpdb::waves::Mappable;
use jpdb::waves::SignalValue;
use jpdb::waves::Wave;
use jpdb::waves::WellenSignalExt;

/// A signal with the given changes, on a time table of 0, 10, 20 and so on.
fn recorded(encoding: wellen::SignalEncoding, changes: &[(u32, &str)]) -> wellen::Signal {
    let mut builder = wellen::HierarchyBuilder::default();
    let id = builder.new_signal(encoding);
    let hierarchy = builder.finish();
    let mut encoder = wellen::Encoder::new(&hierarchy);
    for idx in 0..10u32 {
        encoder.time_change(u64::from(idx) * 10);
        for (at, value) in changes {
            if *at == idx {
                encoder.vcd_value_change(id, value.as_bytes());
            }
        }
    }
    let (mut source, _) = encoder.finish();
    source.load_signals(&[id], &hierarchy, false).remove(0)
}

fn bits(value: Option<SignalValue>) -> Option<String> {
    match value {
        Some(SignalValue::Bits(digits)) => Some(digits),
        Some(other) => panic!("not a bit vector: {:?}", other),
        None => None,
    }
}

#[test]
fn reader_sees_the_nearest_change() {
    let signal = recorded(
        wellen::SignalEncoding::BitVector(4),
        &[(1, "b0001"), (3, "b0101"), (7, "b1111")],
    );
    assert_eq!(signal.time_indices(), &[1, 3, 7]);
    assert_eq!(bits(signal.try_get_val(0)), None);
    assert_eq!(bits(signal.try_get_val(1)), Some("0001".to_string()));
    assert_eq!(bits(signal.try_get_val(2)), Some("0001".to_string()));
    assert_eq!(bits(signal.try_get_val(3)), Some("0101".to_string()));
    assert_eq!(bits(signal.try_get_val(6)), Some("0101".to_string()));
    assert_eq!(bits(signal.try_get_val(7)), Some("1111".to_string()));
    assert_eq!(bits(signal.try_get_val(u32::MAX)), Some("1111".to_string()));
    assert_eq!(bits(Some(signal.get_val(4))), Some("0101".to_string()));
}

#[test]
fn next_change_is_found() {
    let signal = recorded(
        wellen::SignalEncoding::BitVector(4),
        &[(1, "b0001"), (3, "b0101"), (7, "b1111")],
    );
    assert!(signal.try_get_next_val(0).is_none());
    let (value, idx) = signal.try_get_next_val(1).unwrap();
    assert_eq!((bits(Some(value)), idx), (Some("0101".to_string()), 3));
    let (value, idx) = signal.try_get_next_val(5).unwrap();
    assert_eq!((bits(Some(value)), idx), (Some("1111".to_string()), 7));
    assert!(signal.try_get_next_val(7).is_none());
    assert!(signal.try_get_next_val(9).is_none());
}

#[test]
fn first_of_several_changes_at_one_time_is_seen() {
    let signal = recorded(
        wellen::SignalEncoding::BitVector(2),
        &[(2, "b01"), (2, "b10"), (5, "b11"), (5, "b00")],
    );
    assert_eq!(signal.time_indices(), &[2, 2, 5, 5]);
    assert_eq!(bits(signal.try_get_val(2)), Some("01".to_string()));
    assert_eq!(bits(signal.try_get_val(4)), Some("01".to_string()));
    assert_eq!(bits(signal.try_get_val(5)), Some("11".to_string()));
    let (value, idx) = signal.try_get_next_val(2).unwrap();
    assert_eq!((bits(Some(value)), idx), (Some("11".to_string()), 5));
}

#[test]
fn every_kind_of_value_is_read() {
    let text = wellen::Signal::new_var_len(
        wellen::SignalRef::from_index(0).unwrap(),
        vec![4],
        vec!["hello".to_string()],
    );
    assert!(matches!(text.try_get_val(4), Some(SignalValue::Text(t)) if t == "hello"));
    assert!(text.try_get_val(3).is_none());
    let number = recorded(wellen::SignalEncoding::Real, &[(0, "r1.5")]);
    assert!(matches!(number.try_get_val(0), Some(SignalValue::Real(p)) if p == 1.5f64.to_bits()));
    let event = recorded(wellen::SignalEncoding::BitVector(0), &[(6, "1")]);
    assert!(matches!(event.try_get_val(8), Some(SignalValue::Event)));
    let unknown = recorded(wellen::SignalEncoding::BitVector(4), &[(0, "b0x1z")]);
    assert_eq!(bits(unknown.try_get_val(0)), Some("0x1z".to_string()));
}

#[test]
fn first_match_is_found_by_its_position() {
    let pc = recorded(
        wellen::SignalEncoding::BitVector(32),
        &[
            (2, "b00000000000000000000000000010000"),
            (5, "b00000000000000000000000000010100"),
            (7, "b00000000000000000000000000010000"),
        ],
    );
    assert_eq!(pc.find_idx(16u32), Some(0));
    assert_eq!(pc.find_idx(20u32), Some(1));
    assert_eq!(pc.find_idx(24u32), None);
    let silent = wellen::Signal::new_var_len(
        wellen::SignalRef::from_index(0).unwrap(),
        vec![],
        vec![],
    );
    assert_eq!(silent.find_idx(0u32), None);
}

#[test]
fn match_looks_at_the_first_change_of_a_time() {
    let pc = recorded(
        wellen::SignalEncoding::BitVector(4),
        &[(1, "b0001"), (1, "b0010"), (4, "b0100")],
    );
    assert_eq!(pc.time_indices(), &[1, 1, 4]);
    assert_eq!(pc.find_idx(2u32), None);
    let pc = recorded(
        wellen::SignalEncoding::BitVector(4),
        &[(1, "b0001"), (1, "b0011"), (4, "b0010")],
    );
    assert_eq!(pc.find_idx(2u32), Some(2));
}

#[test]
fn numbers_are_read_from_bits() {
    let read = |digits: &str| u32::try_from_signal(SignalValue::Bits(digits.to_string()));
    assert_eq!(read("0"), Some(0));
    assert_eq!(read("101"), Some(5));
    assert_eq!(read("11111111111111111111111111111111"), Some(u32::MAX));
    assert_eq!(read("011111111111111111111111111111111"), Some(u32::MAX));
    assert_eq!(read("100000000000000000000000000000000"), None);
    assert_eq!(read("1x1"), None);
    assert_eq!(read(""), None);
    assert_eq!(u32::try_from_signal(SignalValue::Text("1".to_string())), None);
    assert_eq!(u32::try_from_signal(SignalValue::Event), None);
    assert_eq!(u32::try_from_signal(SignalValue::Real(1)), None);
    assert!(7u32.same(&7));
    assert!(!7u32.same(&8));
}

#[test]
fn zero_signal_is_zero_from_its_change_on() {
    for width in [1u32, 2, 7, 8, 9, 32, 33, 64, 300, 1000] {
        for at in [0u32, 1, 4] {
            let signal = make_zero_signal(width, at);
            let zeros = "0".repeat(width as usize);
            assert_eq!(signal.time_indices(), &[at]);
            assert_eq!(bits(signal.try_get_val(at)), Some(zeros.clone()));
            assert_eq!(bits(signal.try_get_val(at + 100)), Some(zeros.clone()));
            if at > 0 {
                assert!(signal.try_get_val(at - 1).is_none());
            }
            assert!(signal.try_get_next_val(at).is_none());
            assert_eq!(signal.find_idx(0u32), Some(0));
            assert_eq!(signal.find_idx(1u32), None);
        }
    }
}

#[test]
fn zero_signal_can_start_late() {
    for at in [65535u32, 65536, 200000, u32::MAX - 1, u32::MAX] {
        let signal = make_zero_signal(32, at);
        assert_eq!(signal.time_indices(), &[at]);
        assert_eq!(bits(signal.try_get_val(at)), Some("0".repeat(32)));
        assert_eq!(bits(Some(signal.get_val(u32::MAX))), Some("0".repeat(32)));
        assert!(signal.try_get_val(at - 1).is_none());
    }
}

#[test]
fn signals_keep_their_references() {
    assert_eq!(make_zero_signal(32, 0).signal_ref(), 0xdeadbeef);
    let reference = wellen::SignalRef::from_index(41).unwrap();
    let text = wellen::Signal::new_var_len(reference, vec![4], vec!["x".to_string()]);
    assert_eq!(Wave::Recorded(text).signal_ref(), 41);
}

#[test]
fn recorded_wave_reads_as_its_signal() {
    let changes = [(1u32, "b0001"), (3, "b0101"), (7, "b1111")];
    let encoding = wellen::SignalEncoding::BitVector(4);
    let signal = recorded(encoding, &changes);
    let wave = Wave::Recorded(recorded(encoding, &changes));
    assert_eq!(wave.time_indices(), signal.time_indices());
    for idx in 0..9u32 {
        assert_eq!(bits(wave.try_get_val(idx)), bits(signal.try_get_val(idx)));
        assert_eq!(
            wave.try_get_next_val(idx).map(|(value, next)| (bits(Some(value)), next)),
            signal.try_get_next_val(idx).map(|(value, next)| (bits(Some(value)), next))
        );
    }
    assert_eq!(wave.find_idx(5u32), Some(1));
    assert_eq!(wave.find_idx(6u32), None);
}
