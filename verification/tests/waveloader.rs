//! Getting the signals from a mapping script, and loading the waves.
use jpdb::signal_map::SignalMap;
use jpdb::waveloader::missing_signals;
use jpdb::waveloader::LoadError;
use jpdb::waveloader::Loaded;
use jpdb::waveloader::MappingParsedEvents;
use jpdb::waveloader::RequiredWaves;
use jpdb::waveloader::ScriptRun;
use jpdb::waveloader::ScriptStep;
use jpdb::waveloader::ValidationResult;
use jpdb::waves::search;
use jpdb::waves::Mappable;
use jpdb::waves::Search;
use jpdb::waves::SignalValue;
use jpdb::waves::ValueView;
use jpdb::waves::WellenSignalExt;

/// A 32-bit signal with the given changes.
fn recorded(changes: &[(u32, u32)]) -> wellen::Signal {
    let mut builder = wellen::HierarchyBuilder::default();
    let id = builder.new_signal(wellen::SignalEncoding::BitVector(32));
    let hierarchy = builder.finish();
    let mut encoder = wellen::Encoder::new(&hierarchy);
    for idx in 0..20u32 {
        encoder.time_change(u64::from(idx));
        for (at, value) in changes {
            if *at == idx {
                encoder.vcd_value_change(id, format!("b{:032b}", value).as_bytes());
            }
        }
    }
    let (mut source, _) = encoder.finish();
    source.load_signals(&[id], &hierarchy, false).remove(0)
}

/// A signal of texts at the given times.
fn texts(times: Vec<u32>) -> wellen::Signal {
    let values = times.iter().map(|t| format!("at {}", t)).collect();
    wellen::Signal::new_var_len(wellen::SignalRef::from_index(0).unwrap(), times, values)
}

fn result_of(signals: Vec<(&str, wellen::Signal)>) -> ValidationResult {
    let mut map = SignalMap::new();
    for (name, signal) in signals {
        map.insert(name.to_string(), signal);
    }
    ValidationResult { signals: Some(map) }
}

fn run_of(outcomes: &[bool]) -> ScriptRun {
    let mut run = ScriptRun::new();
    for outcome in outcomes {
        run.advance(*outcome);
    }
    run
}

fn error_of(loaded: Result<Loaded, LoadError>) -> LoadError {
    match loaded {
        Ok(_) => panic!("loaded"),
        Err(error) => error,
    }
}

#[test]
fn run_goes_through_its_steps() {
    let mut run = ScriptRun::new();
    let steps = [
        ScriptStep::ReadScript,
        ScriptStep::LoadModule,
        ScriptStep::CreateWaveform,
        ScriptStep::BindWaveform,
        ScriptStep::FindFunction,
        ScriptStep::CallFunction,
        ScriptStep::ExtractSignals,
    ];
    for step in steps {
        assert_eq!(run.step, step);
        run.advance(true);
    }
    assert_eq!(run.step, ScriptStep::Succeeded);
    assert_eq!(
        run.events,
        vec![
            MappingParsedEvents::FileStatus,
            MappingParsedEvents::WaveCreationStatus,
            MappingParsedEvents::FunctionStatus,
            MappingParsedEvents::GetFnCall,
        ]
    );
}

#[test]
fn failed_step_ends_the_run() {
    let file = MappingParsedEvents::FileStatus;
    let wave = MappingParsedEvents::WaveCreationStatus;
    let function = MappingParsedEvents::FunctionStatus;
    let call = MappingParsedEvents::GetFnCall;
    let expected = [
        vec![file],
        vec![file, wave],
        vec![file, wave],
        vec![file, wave],
        vec![file, wave, function, call],
        vec![file, wave, function, call],
        vec![file, wave, function, call],
    ];
    for n in 0..7usize {
        let mut outcomes = vec![true; n];
        outcomes.push(false);
        let run = run_of(&outcomes);
        assert_eq!(run.step, ScriptStep::Failed);
        assert_eq!(run.events, expected[n]);
        assert!(ValidationResult::from_run(run, vec![]).signals.is_none());
    }
}

#[test]
fn events_alone_give_no_signals() {
    assert!(ValidationResult::from_events(vec![]).signals.is_none());
    assert!(ValidationResult::from_events(vec![MappingParsedEvents::GetFnCall]).signals.is_none());
}

#[test]
fn unfinished_run_gives_no_signals() {
    let result = ValidationResult::from_run(run_of(&[true, true]), vec![]);
    assert!(result.signals.is_none());
}

#[test]
fn signals_that_convert_are_kept() {
    let extracted = vec![
        ("pc".to_string(), Some(recorded(&[(0, 1)]))),
        ("x1".to_string(), None),
        ("x2".to_string(), Some(recorded(&[(1, 5)]))),
        ("x2".to_string(), Some(recorded(&[(2, 6)]))),
    ];
    let signals = ValidationResult::from_run(run_of(&[true; 7]), extracted).signals.unwrap();
    assert!(!signals.is_empty());
    assert!(signals.contains_key("pc"));
    assert!(!signals.contains_key("x1"));
    assert!(signals.get("x1").is_none());
    assert_eq!(signals.get("x2").unwrap().time_indices(), &[2]);
    let none = ValidationResult::from_run(run_of(&[true; 7]), vec![]).signals.unwrap();
    assert!(none.is_empty());
}

#[test]
fn missing_names_are_listed() {
    let mut map = SignalMap::new();
    let all = missing_signals(&map);
    assert_eq!(all.len(), 33);
    assert_eq!(all[0], "pc");
    assert_eq!(all[1], "x0");
    assert_eq!(all[10], "x9");
    assert_eq!(all[11], "x10");
    assert_eq!(all[32], "x31");
    map.insert("pc".to_string(), texts(vec![0]));
    for i in 0..32 {
        if i != 0 && i != 13 {
            map.insert(format!("x{}", i), texts(vec![0]));
        }
    }
    assert_eq!(missing_signals(&map), vec!["x0", "x13"]);
    map.insert("x0".to_string(), texts(vec![0]));
    map.insert("x13".to_string(), texts(vec![0]));
    assert!(missing_signals(&map).is_empty());
}

#[test]
fn map_replaces_and_removes() {
    let mut map = SignalMap::new();
    assert!(map.remove("a").is_none());
    map.insert("a".to_string(), texts(vec![1]));
    map.insert("b".to_string(), texts(vec![2]));
    map.insert("a".to_string(), texts(vec![3]));
    assert_eq!(map.remove("a").unwrap().time_indices(), &[3]);
    assert!(!map.contains_key("a"));
    assert!(map.contains_key("b"));
    assert!(map.remove("a").is_none());
    assert!(map.remove("b").is_some());
    assert!(map.is_empty());
}

#[test]
fn waves_are_loaded() {
    let result = result_of(vec![
        ("pc", recorded(&[(1, 0x80), (4, 0x84), (6, 0x88)])),
        ("x1", recorded(&[(2, 7), (6, 9)])),
        ("x31", recorded(&[(3, 11)])),
        ("clk", recorded(&[(9, 1)])),
    ]);
    let loaded = match Loaded::create_loaded_waves(result, vec![0, 5, 10], 0x84u32) {
        Ok(loaded) => loaded,
        Err(error) => panic!("{}", error.message()),
    };
    assert_eq!(loaded.cursor.time_idx, 1);
    assert_eq!(loaded.cursor.all_times, vec![0, 5, 10]);
    let mut expected = vec![0; 30];
    expected.extend_from_slice(&[1, 2, 3, 4, 6, 6]);
    assert_eq!(loaded.cursor.all_changes, expected);
    assert_eq!(loaded.waves.pc.time_indices(), &[1, 4, 6]);
    assert_eq!(loaded.waves.gprs.len(), 32);
    assert_eq!(loaded.waves.gprs[1].time_indices(), &[2, 6]);
    assert_eq!(loaded.waves.gprs[31].time_indices(), &[3]);
}

#[test]
fn untraced_register_reads_zero_throughout() {
    let mut map = SignalMap::new();
    map.insert("pc".to_string(), recorded(&[(0, 1)]));
    map.insert("x5".to_string(), recorded(&[(2, 77)]));
    let waves = RequiredWaves::select(map);
    for i in 0..32usize {
        if i == 5 {
            assert_eq!(u32::try_from_signal(waves.gprs[i].get_val(3)), Some(77));
            assert!(waves.gprs[i].try_get_val(1).is_none());
        } else {
            for idx in [0u32, 1, 1000, u32::MAX] {
                assert_eq!(u32::try_from_signal(waves.gprs[i].get_val(idx)), Some(0));
            }
            assert_eq!(waves.gprs[i].signal_ref(), 0xdeadbeef);
        }
    }
}

#[test]
fn load_errors_are_told_apart() {
    let failed = Loaded::try_create_loaded_waves(ValidationResult { signals: None }, vec![], 1u32);
    assert_eq!(error_of(failed), LoadError::Validation);
    let failed = Loaded::create_loaded_waves(ValidationResult { signals: None }, vec![], 1u32);
    assert_eq!(error_of(failed), LoadError::Validation);
    let failed = Loaded::try_create_loaded_waves(result_of(vec![("x1", texts(vec![0]))]), vec![], 1u32);
    assert_eq!(error_of(failed), LoadError::NoPc);
    let failed = Loaded::try_create_loaded_waves(result_of(vec![("pc", texts(vec![]))]), vec![], 1u32);
    assert_eq!(error_of(failed), LoadError::NoChanges);
    let failed = Loaded::try_create_loaded_waves(
        result_of(vec![("pc", texts(vec![0])), ("x3", texts(vec![]))]),
        vec![],
        1u32,
    );
    assert_eq!(error_of(failed), LoadError::NoChanges);
    let failed = Loaded::try_create_loaded_waves(
        result_of(vec![("pc", texts(vec![4, 2]))]),
        vec![],
        1u32,
    );
    assert_eq!(error_of(failed), LoadError::UnreadablePc);
    let failed = Loaded::try_create_loaded_waves(
        result_of(vec![("pc", recorded(&[(0, 2)]))]),
        vec![],
        1u32,
    );
    assert_eq!(error_of(failed), LoadError::NoFirstPc);
}

/// A text, read from a signal of texts.
struct Words(String);

impl Mappable for Words {
    /// Only proofs speak of this; it never runs.
    fn mapped(_value: ValueView) -> Option<Words> {
        unreachable!()
    }

    fn try_from_signal(value: SignalValue) -> Option<Words> {
        match value {
            SignalValue::Text(text) => Some(Words(text)),
            _ => None,
        }
    }

    fn same(&self, other: &Words) -> bool {
        self.0 == other.0
    }
}

#[test]
fn match_before_an_unreadable_change_is_found() {
    let at = |text: &str| Words(text.to_string());
    let pc = texts(vec![5, 3]);
    assert_eq!(pc.find_idx(at("at 5")), Some(0));
    assert_eq!(search(&pc, &at("at 5")), Search::Found(0));
    assert_eq!(search(&pc, &at("at 3")), Search::BrokenOff);
    let pc = texts(vec![5, 7, 3]);
    assert_eq!(search(&pc, &at("at 7")), Search::Found(1));
    assert_eq!(search(&texts(vec![5, 7]), &at("at 3")), Search::NotFound);
    let loaded = Loaded::create_loaded_waves(
        result_of(vec![("pc", texts(vec![5, 3]))]),
        vec![9],
        at("at 5"),
    );
    match loaded {
        Ok(loaded) => assert_eq!(loaded.cursor.time_idx, 0),
        Err(error) => panic!("{}", error.message()),
    }
    let loaded = Loaded::try_create_loaded_waves(
        result_of(vec![("pc", texts(vec![5, 3]))]),
        vec![9],
        at("at 5"),
    );
    match loaded {
        Ok(loaded) => {
            assert_eq!(loaded.cursor.time_idx, 0);
            let mut expected = vec![0; 32];
            expected.extend_from_slice(&[5, 3]);
            assert_eq!(loaded.cursor.all_changes, expected);
        }
        Err(error) => panic!("{}", error.message()),
    }
    let failed = Loaded::try_create_loaded_waves(
        result_of(vec![("pc", texts(vec![5, 3]))]),
        vec![9],
        at("at 3"),
    );
    assert_eq!(error_of(failed), LoadError::UnreadablePc);
}

#[test]
fn load_errors_have_messages() {
    assert_eq!(LoadError::Validation.message(), "Failed to validate get_gdb_signals");
    assert_eq!(LoadError::NoPc.message(), "No signal provided named pc!");
    assert_eq!(LoadError::NoChanges.message(), "A required signal has no changes");
    assert_eq!(LoadError::UnreadablePc.message(), "The changes of pc are out of order");
    assert_eq!(LoadError::NoFirstPc.message(), "The first pc is not in the waveform");
}
