use ota_sweep::waveform::{
    auto_scale, encode_waveform, first_row, load_waveform_file, load_waveform_raw, pad_iq,
    PeakRange, WaveformError, WaveformFormat,
};

#[test]
fn raw_waveform_passes_through() {
    let (bytes, info) = load_waveform_raw("a.WAVEFORM".to_string(), vec![1, 2, 3, 4, 5, 6, 7, 8]).unwrap();
    assert_eq!(bytes, vec![1, 2, 3, 4, 5, 6, 7, 8]);
    assert_eq!(info.file_name, "a.WAVEFORM");
    assert_eq!(info.file_size, 8);
    assert_eq!(info.sample_count, 2);
}

#[test]
fn raw_waveform_too_small() {
    assert!(matches!(load_waveform_raw("a".to_string(), vec![1, 2, 3]), Err(WaveformError::TooSmall(3))));
    assert!(matches!(load_waveform_raw("a".to_string(), vec![]), Err(WaveformError::TooSmall(0))));
}

#[test]
fn raw_waveform_partial_sample() {
    assert!(matches!(
        load_waveform_raw("a".to_string(), vec![0; 6]),
        Err(WaveformError::NotWholeSamples(6))
    ));
}

#[test]
fn file_dispatch_by_extension() {
    let s = load_waveform_file("/data/caps/Burst.WAVEFORM").unwrap();
    assert_eq!(s.format, WaveformFormat::Raw);
    assert_eq!(s.file_name, "Burst.WAVEFORM");
    let m = load_waveform_file("capture.Mat").unwrap();
    assert_eq!(m.format, WaveformFormat::Numeric);
    assert_eq!(m.file_name, "capture.Mat");
}

#[test]
fn unsupported_extension() {
    match load_waveform_file("/tmp/notes.TXT") {
        Err(WaveformError::UnsupportedFormat(e)) => assert_eq!(e, "txt"),
        _ => panic!("expected a refusal"),
    }
    match load_waveform_file("/tmp/noext") {
        Err(WaveformError::UnsupportedFormat(e)) => assert_eq!(e, ""),
        _ => panic!("expected a refusal"),
    }
}

#[test]
fn first_row_of_a_matrix() {
    let data = vec![1, 2, 3, 4, 5, 6];
    assert_eq!(first_row(&data, &vec![2, 3]), vec![1, 3, 5]);
    assert_eq!(first_row(&data, &vec![3, 2]), vec![1, 4]);
    assert_eq!(first_row(&data, &vec![1, 6]), data);
    assert_eq!(first_row(&data, &vec![6]), data);
    assert_eq!(first_row(&data, &vec![2, 1, 3]), vec![1, 3, 5]);
}

#[test]
fn padding_appends_silence_then_evens() {
    let (re, im) = pad_iq(vec![1.0f64; 3], vec![2.0f64; 3], 0.0, 20, 2).unwrap();
    assert_eq!(re.len(), 84);
    assert_eq!(im.len(), 84);
    assert_eq!(&re[..3], &[1.0, 1.0, 1.0]);
    assert!(re[3..].iter().all(|v| *v == 0.0));
    assert!(im[3..].iter().all(|v| *v == 0.0));
}

#[test]
fn padding_reaches_the_minimum() {
    let (re, _) = pad_iq(vec![1i64; 19], vec![1i64; 19], 0, 20, 1).unwrap();
    assert_eq!(re.len(), 60);
    assert_eq!(re[59], 0);
    assert_eq!(re[18], 1);
}

#[test]
fn padding_below_minimum_fails() {
    assert!(matches!(pad_iq(vec![1i64; 3], vec![1i64; 3], 0, 20, 1), Err(WaveformError::TooShort(44))));
    assert!(matches!(pad_iq(vec![1i64; 58], vec![1i64; 58], 0, 0, 0), Err(WaveformError::TooShort(58))));
    assert!(matches!(pad_iq(Vec::<i64>::new(), Vec::new(), 0, 0, 0), Err(WaveformError::TooShort(0))));
}

#[test]
fn odd_length_gains_exactly_one_zero() {
    let (re, im) = pad_iq(vec![3i64; 59], vec![4i64; 59], 0, 0, 0).unwrap();
    assert_eq!(re.len(), 60);
    assert_eq!(im.len(), 60);
    assert_eq!(re[59], 0);
    assert_eq!(im[58], 4);
    let (even, _) = pad_iq(vec![3i64; 60], vec![4i64; 60], 0, 0, 0).unwrap();
    assert_eq!(even.len(), 60);
}

#[test]
fn scale_by_peak_range() {
    assert_eq!(auto_scale(PeakRange::BelowOne), 2047);
    assert_eq!(auto_scale(PeakRange::BelowTen), 443);
    assert_eq!(auto_scale(PeakRange::Large), 1);
}

#[test]
fn zero_input_encodes_to_zero_bytes() {
    let (bytes, info) = encode_waveform("z.mat".to_string(), &vec![0; 60], &vec![0; 60]);
    assert_eq!(bytes, vec![0u8; 240]);
    assert_eq!(info.file_size, 240);
    assert_eq!(info.sample_count, 60);
    assert_eq!(info.file_name, "z.mat");
}

#[test]
fn full_scale_sample_encodes_big_endian() {
    let scale = auto_scale(PeakRange::BelowOne) as f64;
    let i = (1.0f64 * scale * 32767.0 / 2047.0).round() as i64;
    assert_eq!(i, 32767);
    let (bytes, _) = encode_waveform("s".to_string(), &vec![i], &vec![0]);
    assert_eq!(bytes, vec![0x7f, 0xff, 0x00, 0x00]);
}

#[test]
fn samples_are_clamped_to_16_bits() {
    let (bytes, _) = encode_waveform("s".to_string(), &vec![40000, -1], &vec![-40000, 256]);
    assert_eq!(bytes, vec![0x7f, 0xff, 0x80, 0x00, 0xff, 0xff, 0x01, 0x00]);
}
