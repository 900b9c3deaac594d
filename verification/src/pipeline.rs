//! State and decisions of the receiver pipeline: the spectrum buffer shared
//! between the processing thread and the user interface, the receiver
//! settings, the steps of starting the receiver, and the processing loop's
//! choice of what to do next.
use vstd::prelude::*;

use crate::demod::DemodMode;
use crate::fft::FFT_SIZE;

verus! {

/// Abstract value of a [`SharedState`]: the latest spectrum and whether the
/// processing thread is meant to run.
pub struct SharedView<T> {
    pub spectrum: Seq<T>,
    pub running: bool,
}

/// State shared between the processing thread and the interface thread: the
/// most recent spectrum ([`FFT_SIZE`] bins) and the running flag.
pub struct SharedState<T> {
    fft_data: [T; FFT_SIZE],
    is_running: bool,
}

impl<T> View for SharedState<T> {
    type V = SharedView<T>;

    closed spec fn view(&self) -> SharedView<T> {
        SharedView { spectrum: self.fft_data@, running: self.is_running }
    }
}

/// What reading the spectrum into a buffer `out` leaves in it: the first
/// `min(out.len(), FFT_SIZE)` values come from the spectrum, the rest of `out`
/// is unchanged.
pub open spec fn spectrum_read<T>(spectrum: Seq<T>, out: Seq<T>) -> Seq<T> {
    Seq::new(
        out.len(),
        |i: int|
            if i < read_len(out.len() as int) {
                spectrum[i]
            } else {
                out[i]
            },
    )
}

/// Number of values that one read of the spectrum copies into a buffer of
/// `out_len` values.
pub open spec fn read_len(out_len: int) -> int {
    if out_len < FFT_SIZE {
        out_len
    } else {
        FFT_SIZE as int
    }
}

/// A read into a buffer of at least [`FFT_SIZE`] values gives back exactly
/// the last stored frame, in its first [`FFT_SIZE`] places.
pub proof fn lemma_read_returns_stored_frame<T>(frame: Seq<T>, out: Seq<T>)
    requires
        frame.len() == FFT_SIZE,
        out.len() >= FFT_SIZE,
    ensures
        spectrum_read(frame, out).subrange(0, FFT_SIZE as int) == frame,
        spectrum_read(frame, out).subrange(FFT_SIZE as int, out.len() as int) == out.subrange(
            FFT_SIZE as int,
            out.len() as int,
        ),
{
    assert(spectrum_read(frame, out).subrange(0, FFT_SIZE as int) =~= frame);
    assert(spectrum_read(frame, out).subrange(FFT_SIZE as int, out.len() as int) =~= out.subrange(
        FFT_SIZE as int,
        out.len() as int,
    ));
}

/// A read copies `min(len, FFT_SIZE)` values: a buffer of at least
/// [`FFT_SIZE`] values gets exactly [`FFT_SIZE`] of them, a shorter buffer is
/// filled completely; the count never exceeds either length, and the places
/// past it keep their old values.
pub proof fn lemma_read_count<T>(spectrum: Seq<T>, out: Seq<T>)
    requires
        spectrum.len() == FFT_SIZE,
    ensures
        out.len() >= FFT_SIZE ==> read_len(out.len() as int) == FFT_SIZE,
        out.len() < FFT_SIZE ==> read_len(out.len() as int) == out.len(),
        0 <= read_len(out.len() as int) <= FFT_SIZE,
        read_len(out.len() as int) <= out.len(),
        spectrum_read(spectrum, out).len() == out.len(),
        forall|i: int|
            0 <= i < out.len() && i < FFT_SIZE ==> #[trigger] spectrum_read(spectrum, out)[i]
                == spectrum[i],
        forall|i: int|
            FFT_SIZE <= i < out.len() ==> #[trigger] spectrum_read(spectrum, out)[i] == out[i],
{
}

/// The processing thread's decision for every running flag and sample count:
/// a stopped pipeline exits; a running one waits exactly while fewer than
/// [`FFT_SIZE`] samples are buffered and processes a frame whenever at least
/// [`FFT_SIZE`] are, whatever the count beyond that.
pub proof fn lemma_dsp_decision(running: bool, available: nat)
    ensures
        !running ==> dsp_decision(running, available) is Exit,
        running && available < FFT_SIZE ==> dsp_decision(running, available) is Wait,
        running && available >= FFT_SIZE ==> dsp_decision(running, available) is ProcessFrame,
        dsp_decision(running, available) is ProcessFrame ==> dsp_decision(
            running,
            available + 1,
        ) is ProcessFrame,
{
}

/// Once the pipeline is stopped, the processing thread leaves its loop on
/// its next turn, however many samples are buffered; and a frame is processed
/// only while the pipeline runs and a whole frame is buffered.
pub proof fn lemma_stopped_pipeline_exits<T>(state: SharedView<T>, available: nat)
    ensures
        !state.running ==> dsp_decision(state.running, available) is Exit,
        dsp_decision(state.running, available) is ProcessFrame ==> state.running && available
            >= FFT_SIZE,
{
}

impl<T: Copy> SharedState<T> {
    /// The spectrum always has exactly [`FFT_SIZE`] bins.
    pub proof fn lemma_spectrum_len(&self)
        ensures
            self@.spectrum.len() == FFT_SIZE,
    {
        vstd::array::array_len_matches_n(&self.fft_data);
    }

    /// A stopped pipeline whose spectrum holds `floor` in every bin.
    pub fn new(floor: T) -> (s: SharedState<T>)
        ensures
            s@.spectrum == Seq::new(FFT_SIZE as nat, |i: int| floor),
            !s@.running,
    {
        let fft_data: [T; FFT_SIZE] = [floor; FFT_SIZE];
        let s = SharedState { fft_data, is_running: false };
        proof {
            s.lemma_spectrum_len();
        }
        assert(s@.spectrum =~= Seq::new(FFT_SIZE as nat, |i: int| floor));
        s
    }

    /// Copies the current spectrum into `out`, as much of it as fits, and
    /// returns the number of values copied: `FFT_SIZE` when `out` holds at
    /// least that many, else `out.len()`.
    pub fn get_fft(&self, out: &mut [T]) -> (n: usize)
        ensures
            n == read_len(old(out)@.len() as int),
            final(out)@ == spectrum_read(self@.spectrum, old(out)@),
            old(out)@.len() >= FFT_SIZE ==> n == FFT_SIZE,
            old(out)@.len() < FFT_SIZE ==> n == old(out)@.len(),
            n <= FFT_SIZE,
            n <= old(out)@.len(),
            final(out)@.len() == old(out)@.len(),
            forall|i: int| 0 <= i < n ==> #[trigger] final(out)@[i] == self@.spectrum[i],
            forall|i: int| n <= i < old(out)@.len() ==> #[trigger] final(out)@[i] == old(out)@[i],
    {
        proof {
            self.lemma_spectrum_len();
        }
        let len = if out.len() < FFT_SIZE {
            out.len()
        } else {
            FFT_SIZE
        };
        let mut i: usize = 0;
        while i < len
            invariant
                len == read_len(old(out)@.len() as int),
                i <= len,
                self@.spectrum.len() == FFT_SIZE,
                out@.len() == old(out)@.len(),
                forall|j: int|
                    0 <= j < out@.len() ==> #[trigger] out@[j] == (if j < i {
                        self@.spectrum[j]
                    } else {
                        old(out)@[j]
                    }),
            decreases len - i,
        {
            out[i] = self.fft_data[i];
            i = i + 1;
        }
        assert(out@ =~= spectrum_read(self@.spectrum, old(out)@));
        len
    }

    /// Replaces the spectrum by a freshly computed frame.
    pub fn store_frame(&mut self, frame: &[T])
        requires
            frame@.len() == FFT_SIZE,
        ensures
            final(self)@.spectrum == frame@,
            final(self)@.running == old(self)@.running,
    {
        proof {
            self.lemma_spectrum_len();
        }
        let mut i: usize = 0;
        while i < FFT_SIZE
            invariant
                i <= FFT_SIZE,
                frame@.len() == FFT_SIZE,
                self@.spectrum.len() == FFT_SIZE,
                self.is_running == old(self).is_running,
                forall|j: int| 0 <= j < i ==> #[trigger] self@.spectrum[j] == frame@[j],
            decreases FFT_SIZE - i,
        {
            self.fft_data[i] = frame[i];
            i = i + 1;
        }
        assert(self@.spectrum =~= frame@);
    }

    /// Whether the processing thread is meant to run.
    pub fn is_running(&self) -> (r: bool)
        ensures
            r == self@.running,
    {
        self.is_running
    }

    /// Sets the running flag; the spectrum is unchanged.
    pub fn set_running(&mut self, running: bool)
        ensures
            final(self)@.running == running,
            final(self)@.spectrum == old(self)@.spectrum,
    {
        self.is_running = running;
    }
}

/// Centre frequency a new receiver is tuned to: 100 MHz.
pub const DEFAULT_FREQUENCY_HZ: u64 = 100_000_000;

/// Abstract value of [`ReceiverSettings`].
pub struct SettingsView {
    pub device_args: Option<Seq<char>>,
    pub frequency_hz: u64,
    pub demod_mode: DemodMode,
}

/// The receiver settings that decide how the pipeline is started: the
/// device to open, the centre frequency and the demodulation mode.
pub struct ReceiverSettings {
    device_args: Option<String>,
    frequency_hz: u64,
    demod_mode: DemodMode,
}

impl View for ReceiverSettings {
    type V = SettingsView;

    closed spec fn view(&self) -> SettingsView {
        SettingsView {
            device_args: match self.device_args {
                Some(a) => Some(a@),
                None => None,
            },
            frequency_hz: self.frequency_hz,
            demod_mode: self.demod_mode,
        }
    }
}

/// What has just happened while the receiver is being started.
pub enum StartEvent {
    /// The user asked to start the receiver.
    Requested,
    /// The attempt to open the device ended, successfully or not.
    DeviceOpened { ok: bool },
    /// The attempt to configure the opened device ended, successfully or not.
    DeviceConfigured { ok: bool },
}

/// What the pipeline does next while the receiver is being started.
pub enum StartAction {
    /// Open the device described by these arguments.
    OpenDevice(String),
    /// Tune the opened device to this centre frequency (with the current
    /// gain and the pipeline's sample rate).
    ConfigureDevice { frequency_hz: u64 },
    /// Start the processing thread with this demodulation mode and mark the
    /// pipeline as running; the start has succeeded.
    LaunchProcessing { mode: DemodMode },
    /// Give up; the start has failed and nothing is running.
    Abort,
}

impl ReceiverSettings {
    /// Settings of a new receiver: no device chosen, tuned to 100 MHz,
    /// wide-band FM.
    pub fn new() -> (s: ReceiverSettings)
        ensures
            s@.device_args is None,
            s@.frequency_hz == DEFAULT_FREQUENCY_HZ,
            s@.demod_mode == DemodMode::Wbfm,
    {
        ReceiverSettings { device_args: None, frequency_hz: DEFAULT_FREQUENCY_HZ, demod_mode: DemodMode::Wbfm }
    }

    /// Chooses the device to open on the next start.
    pub fn set_device(&mut self, args: &str)
        ensures
            final(self)@.device_args == Some(args@),
            final(self)@.frequency_hz == old(self)@.frequency_hz,
            final(self)@.demod_mode == old(self)@.demod_mode,
    {
        self.device_args = Some(args.to_owned());
    }

    /// Sets the centre frequency in hertz.
    pub fn set_frequency(&mut self, hz: u64)
        ensures
            final(self)@.frequency_hz == hz,
            final(self)@.device_args == old(self)@.device_args,
            final(self)@.demod_mode == old(self)@.demod_mode,
    {
        self.frequency_hz = hz;
    }

    /// Sets the demodulation mode used by the next start.
    pub fn set_demod(&mut self, mode: DemodMode)
        ensures
            final(self)@.demod_mode == mode,
            final(self)@.device_args == old(self)@.device_args,
            final(self)@.frequency_hz == old(self)@.frequency_hz,
    {
        self.demod_mode = mode;
    }

    /// The centre frequency in hertz.
    pub fn frequency_hz(&self) -> (hz: u64)
        ensures
            hz == self@.frequency_hz,
    {
        self.frequency_hz
    }

    /// The demodulation mode.
    pub fn demod_mode(&self) -> (mode: DemodMode)
        ensures
            mode == self@.demod_mode,
    {
        self.demod_mode
    }

    /// Decides the next step of starting the receiver: without a device
    /// nothing is opened; a device that fails to open or to be configured
    /// ends the attempt; a configured device is handed to the processing
    /// thread.
    pub fn start_step(&self, event: StartEvent) -> (action: StartAction)
        ensures
            match event {
                StartEvent::Requested => match self@.device_args {
                    Some(a) => action matches StartAction::OpenDevice(s) && s@ == a,
                    None => action is Abort,
                },
                StartEvent::DeviceOpened { ok } => if ok {
                    action == (StartAction::ConfigureDevice { frequency_hz: self@.frequency_hz })
                } else {
                    action is Abort
                },
                StartEvent::DeviceConfigured { ok } => if ok {
                    action == (StartAction::LaunchProcessing { mode: self@.demod_mode })
                } else {
                    action is Abort
                },
            },
    {
        match event {
            StartEvent::Requested => match &self.device_args {
                Some(a) => StartAction::OpenDevice(a.clone()),
                None => StartAction::Abort,
            },
            StartEvent::DeviceOpened { ok } => if ok {
                StartAction::ConfigureDevice { frequency_hz: self.frequency_hz }
            } else {
                StartAction::Abort
            },
            StartEvent::DeviceConfigured { ok } => if ok {
                StartAction::LaunchProcessing { mode: self.demod_mode }
            } else {
                StartAction::Abort
            },
        }
    }
}

/// What becomes of a new centre frequency.
pub enum TuneAction {
    /// The receiver is running: retune its device to this frequency at once,
    /// without stopping and restarting.
    Retune { frequency_hz: u64 },
    /// The receiver is stopped: the frequency is only kept in the settings
    /// and takes effect at the next start.
    Keep,
}

/// Live tuning: a frequency set while the receiver runs reaches the device
/// at once; one set while it is stopped waits for the next start.
pub fn tune_action(running: bool, hz: u64) -> (action: TuneAction)
    ensures
        running ==> action == (TuneAction::Retune { frequency_hz: hz }),
        !running ==> action is Keep,
{
    if running {
        TuneAction::Retune { frequency_hz: hz }
    } else {
        TuneAction::Keep
    }
}

/// What the processing thread does on its next turn.
pub enum DspAction {
    /// The pipeline has been stopped: leave the loop.
    Exit,
    /// Fewer than [`FFT_SIZE`] samples are buffered: sleep briefly and look
    /// again.
    Wait,
    /// Take [`FFT_SIZE`] samples, compute their spectrum and audio.
    ProcessFrame,
}

/// The processing thread's decision: leave when stopped, wait while less
/// than a frame of samples is buffered, else process a frame.
pub open spec fn dsp_decision(running: bool, available: nat) -> DspAction {
    if !running {
        DspAction::Exit
    } else if available < FFT_SIZE {
        DspAction::Wait
    } else {
        DspAction::ProcessFrame
    }
}

/// The processing thread's decision, from the running flag and the number of
/// buffered IQ samples.
pub fn dsp_next_action(running: bool, available: usize) -> (action: DspAction)
    ensures
        action == dsp_decision(running, available as nat),
        !running ==> action is Exit,
        running && available < FFT_SIZE ==> action is Wait,
        running && available >= FFT_SIZE ==> action is ProcessFrame,
{
    if !running {
        DspAction::Exit
    } else if available < FFT_SIZE {
        DspAction::Wait
    } else {
        DspAction::ProcessFrame
    }
}

} // verus!
