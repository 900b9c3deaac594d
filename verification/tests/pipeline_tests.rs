use sdrapp_core::pipeline::{
    dsp_next_action, tune_action, DspAction, TuneAction, ReceiverSettings, SharedState, StartAction, StartEvent,
    DEFAULT_FREQUENCY_HZ,
};
use sdrapp_core::{DemodMode, FFT_SIZE};

#[test]
fn test_new_core_default_state() {
    let state = SharedState::new(-120.0f32);
    let mut buf = vec![0.0f32; FFT_SIZE];
    let len = state.get_fft(&mut buf);
    assert_eq!(len, FFT_SIZE);
    assert!(buf.iter().all(|&v| v <= -119.0));
    assert!(!state.is_running());
}

#[test]
fn short_buffer_gets_a_prefix() {
    let state = SharedState::new(7u16);
    let mut buf = vec![0u16; 10];
    assert_eq!(state.get_fft(&mut buf), 10);
    assert_eq!(buf, vec![7u16; 10]);
    let mut empty: Vec<u16> = Vec::new();
    assert_eq!(state.get_fft(&mut empty), 0);
}

#[test]
fn long_buffer_keeps_its_tail() {
    let mut state = SharedState::new(0u32);
    let frame: Vec<u32> = (0..FFT_SIZE as u32).collect();
    state.store_frame(&frame);
    let mut buf = vec![9999u32; FFT_SIZE + 5];
    assert_eq!(state.get_fft(&mut buf), FFT_SIZE);
    assert_eq!(&buf[..FFT_SIZE], &frame[..]);
    assert_eq!(&buf[FFT_SIZE..], &[9999u32; 5]);
}

#[test]
fn stored_frame_is_read_back() {
    let mut state = SharedState::new(-120.0f32);
    let frame: Vec<f32> = (0..FFT_SIZE).map(|i| -(i as f32) / 10.0).collect();
    state.store_frame(&frame);
    let mut buf = vec![0.0f32; FFT_SIZE];
    assert_eq!(state.get_fft(&mut buf), FFT_SIZE);
    assert_eq!(buf, frame);
}

#[test]
fn running_flag_does_not_touch_spectrum() {
    let mut state = SharedState::new(3i8);
    state.set_running(true);
    assert!(state.is_running());
    state.set_running(false);
    assert!(!state.is_running());
    let mut buf = vec![0i8; FFT_SIZE];
    state.get_fft(&mut buf);
    assert!(buf.iter().all(|&v| v == 3));
}

#[test]
fn dsp_loop_decisions() {
    assert!(matches!(dsp_next_action(false, 0), DspAction::Exit));
    assert!(matches!(dsp_next_action(false, 5000), DspAction::Exit));
    assert!(matches!(dsp_next_action(true, 0), DspAction::Wait));
    assert!(matches!(dsp_next_action(true, FFT_SIZE - 1), DspAction::Wait));
    assert!(matches!(dsp_next_action(true, FFT_SIZE), DspAction::ProcessFrame));
    assert!(matches!(dsp_next_action(true, 2_048_000), DspAction::ProcessFrame));
}

#[test]
fn default_settings() {
    let s = ReceiverSettings::new();
    assert_eq!(s.frequency_hz(), 100_000_000);
    assert_eq!(DEFAULT_FREQUENCY_HZ, 100_000_000);
    assert_eq!(s.demod_mode(), DemodMode::Wbfm);
}

#[test]
fn start_without_device_is_refused() {
    let s = ReceiverSettings::new();
    assert!(matches!(s.start_step(StartEvent::Requested), StartAction::Abort));
}

#[test]
fn start_sequence_with_device() {
    let mut s = ReceiverSettings::new();
    s.set_device("driver=rtlsdr");
    s.set_frequency(96_300_000);
    s.set_demod(DemodMode::Am);
    match s.start_step(StartEvent::Requested) {
        StartAction::OpenDevice(args) => assert_eq!(args, "driver=rtlsdr"),
        _ => panic!("expected to open the device"),
    }
    assert!(matches!(
        s.start_step(StartEvent::DeviceOpened { ok: true }),
        StartAction::ConfigureDevice { frequency_hz: 96_300_000 }
    ));
    assert!(matches!(
        s.start_step(StartEvent::DeviceConfigured { ok: true }),
        StartAction::LaunchProcessing { mode: DemodMode::Am }
    ));
    assert!(matches!(s.start_step(StartEvent::DeviceOpened { ok: false }), StartAction::Abort));
    assert!(matches!(s.start_step(StartEvent::DeviceConfigured { ok: false }), StartAction::Abort));
}

#[test]
fn setters_leave_other_settings_alone() {
    let mut s = ReceiverSettings::new();
    s.set_frequency(433_920_000);
    assert_eq!(s.demod_mode(), DemodMode::Wbfm);
    s.set_demod(DemodMode::Am);
    assert_eq!(s.frequency_hz(), 433_920_000);
    assert!(matches!(s.start_step(StartEvent::Requested), StartAction::Abort));
}

#[test]
fn frequency_reaches_a_running_receiver_at_once() {
    assert!(matches!(
        tune_action(true, 96_300_000),
        TuneAction::Retune { frequency_hz: 96_300_000 }
    ));
    assert!(matches!(tune_action(false, 96_300_000), TuneAction::Keep));
    let mut state = SharedState::new(0u8);
    state.set_running(true);
    assert!(matches!(
        tune_action(state.is_running(), 433_920_000),
        TuneAction::Retune { frequency_hz: 433_920_000 }
    ));
    state.set_running(false);
    assert!(matches!(tune_action(state.is_running(), 433_920_000), TuneAction::Keep));
}
