use ota_sweep::vsg::{
    configure, connect, download_wfm, play, play_waveform, play_with_repeat, prepare_sweep,
    sample_rate_hz, set_power, stop, ScpiStep, VsgError,
};

fn describe(steps: &[ScpiStep]) -> Vec<String> {
    steps
        .iter()
        .map(|s| match s {
            ScpiStep::Write(c) => format!("W {}", c),
            ScpiStep::Query(c) => format!("Q {}", c),
            ScpiStep::WriteBlock { cmd, data } => format!("B {} {}", cmd, data.len()),
            ScpiStep::CheckErrors => "E".to_string(),
        })
        .collect()
}

#[test]
fn connect_with_and_without_reset() {
    assert_eq!(describe(&connect(true)), vec!["W *rst", "Q *opc?", "Q *idn?"]);
    assert_eq!(describe(&connect(false)), vec!["Q *idn?"]);
}

#[test]
fn configure_sets_frequency_rate_and_power() {
    let steps = configure(2_412_000_000, 40_000_000, -1050).unwrap();
    assert_eq!(
        describe(&steps),
        vec![
            "W frequency 2412000000",
            "W radio:arb:sclock:rate 40000000",
            "W power -10.5",
            "E"
        ]
    );
}

#[test]
fn configure_accepts_the_highest_rate() {
    assert!(configure(1, 240_000_000, 0).is_ok());
}

#[test]
fn configure_refuses_a_rate_above_the_ceiling() {
    assert!(matches!(
        configure(1, 240_000_001, 0),
        Err(VsgError::SampleRateTooHigh(240_000_001))
    ));
}

#[test]
fn download_turns_playback_off_first() {
    let steps = download_wfm(&[1, 2, 3, 4], "waveform");
    assert_eq!(
        describe(&steps),
        vec![
            "W output:modulation 0",
            "W radio:arb:state 0",
            "B mmemory:data \"WFM1:waveform\", 4",
            "W radio:arb:waveform \"WFM1:waveform\"",
            "E"
        ]
    );
    match &steps[2] {
        ScpiStep::WriteBlock { data, .. } => assert_eq!(data, &vec![1, 2, 3, 4]),
        _ => panic!("expected the upload"),
    }
}

#[test]
fn play_arms_output_before_modulation_and_arb() {
    assert_eq!(
        describe(&play("w1")),
        vec![
            "W radio:arb:trigger:type continuous",
            "W radio:arb:waveform \"WFM1:w1\"",
            "W output 1",
            "W output:modulation 1",
            "W radio:arb:state 1",
            "E"
        ]
    );
}

#[test]
fn play_with_repeat_builds_and_triggers_a_sequence() {
    assert_eq!(
        describe(&play_with_repeat("w1", 5)),
        vec![
            "W radio:arb:sequence \"seq_w1\",\"WFM1:w1\",5,0",
            "W radio:arb:waveform \"SEQ:seq_w1\"",
            "W radio:arb:trigger:source bus",
            "W radio:arb:trigger:type single",
            "W radio:arb:state 1",
            "W output:modulation 1",
            "W output 1",
            "W *TRG",
            "E"
        ]
    );
}

#[test]
fn set_power_and_trigger() {
    assert_eq!(describe(&set_power(250)), vec!["W power 2.5", "E"]);
    assert_eq!(describe(&ota_sweep::vsg::trigger()), vec!["W *TRG", "E"]);
}

#[test]
fn stop_only_writes() {
    let expected = vec!["W output 0", "W output:modulation 0", "W radio:arb:state 0"];
    assert_eq!(describe(&stop()), expected);
    assert_eq!(describe(&stop()), expected);
}

#[test]
fn prepare_sweep_arms_without_triggering() {
    let steps = prepare_sweep(&[0; 8], "waveform", 5_180_000_000, 40_000_000, -1000, 1000).unwrap();
    let d = describe(&steps);
    assert_eq!(d.len(), 4 + 5 + 7 + 1);
    assert_eq!(d[2], "W power -10");
    assert_eq!(d[9], "W radio:arb:sequence \"seq_waveform\",\"WFM1:waveform\",1000,0");
    assert!(!d.iter().any(|s| s == "W *TRG"));
    assert_eq!(d[16], "E");
    assert!(prepare_sweep(&[], "w", 1, 480_000_000, 0, 1).is_err());
}

#[test]
fn play_waveform_uses_twice_the_bandwidth() {
    assert_eq!(sample_rate_hz(40), 80_000_000);
    let looped = describe(&play_waveform(&[0; 4], 2_437_000_000, 20, 0, 0).unwrap());
    assert_eq!(looped[1], "W radio:arb:sclock:rate 40000000");
    assert_eq!(looped.len(), 4 + 5 + 6);
    let repeated = describe(&play_waveform(&[0; 4], 2_437_000_000, 20, 0, 3).unwrap());
    assert_eq!(repeated.len(), 4 + 5 + 9);
    assert!(matches!(
        play_waveform(&[], 1, 160, 0, 0),
        Err(VsgError::SampleRateTooHigh(320_000_000))
    ));
}
