use ireplay::ir::{
    render_signal, replay_level, replay_levels, sample_value, samples_kept, signal_samples,
    Recorder, RECORD_SAMPLES,
};

#[test]
fn samples_stand_for_levels() {
    assert_eq!(sample_value(true), 1);
    assert_eq!(sample_value(false), 0);
    assert!(!replay_level(0));
    assert!(replay_level(1));
    assert!(replay_level(7));
}

#[test]
fn replay_ends_low() {
    assert_eq!(replay_levels(&[0, 1, 1]), vec![false, true, true, false]);
    assert_eq!(replay_levels(&[]), vec![false]);
}

#[test]
fn sample_count_follows_signal_duration() {
    assert_eq!(samples_kept(60_000), Some(240));
    assert_eq!(samples_kept(249), Some(0));
    assert_eq!(samples_kept(250), Some(1));
    assert_eq!(signal_samples(), Some(240));
}

fn record(levels: &[bool], keep: usize) -> Vec<u8> {
    let mut recorder = Recorder::new();
    for &high in levels {
        assert!(!recorder.is_complete());
        recorder.sample(high);
    }
    assert!(recorder.is_complete());
    assert!(recorder.ends_high());
    recorder.finish(keep)
}

#[test]
fn recording_is_cut_to_signal_duration() {
    let levels: Vec<bool> = (0..RECORD_SAMPLES).map(|i| i % 7 != 3 || i == RECORD_SAMPLES - 1).collect();
    let signal = record(&levels, 240);
    assert_eq!(signal.len(), 240);
    for i in 0..240 {
        assert_eq!(signal[i], if levels[i] { 1 } else { 0 });
    }
    assert_eq!(record(&levels, 5000).len(), RECORD_SAMPLES);
}

#[test]
fn recorder_reports_low_ending() {
    let mut recorder = Recorder::new();
    assert!(!recorder.ends_high());
    recorder.sample(true);
    recorder.sample(false);
    assert!(!recorder.ends_high());
}

#[test]
fn replaying_a_recording_reproduces_the_levels() {
    let levels: Vec<bool> = (0..RECORD_SAMPLES).map(|i| (i / 4) % 3 != 0 || i + 1 == RECORD_SAMPLES).collect();
    let signal = record(&levels, 240);
    let replayed = replay_levels(&signal);
    assert_eq!(replayed.len(), 241);
    assert_eq!(&replayed[..240], &levels[..240]);
    assert!(!replayed[240]);
}

#[test]
fn signal_text_concatenates_decimal_samples() {
    assert_eq!(render_signal(&[0, 1, 1, 0]), "0110");
    assert_eq!(render_signal(&[255, 7, 10, 100]), "255710100");
    assert_eq!(render_signal(&[]), "");
}
