//! The per-frame pipeline: gate, calibration and ranking, with settings shared
//! with a control thread.
use vstd::prelude::*;
use std::sync::Arc;
use std::sync::atomic::{AtomicBool, AtomicI32, AtomicU16, Ordering};
use crate::calibration::{adjusted, CalibrationOutcome, NoiseCalibrator};
use crate::gate::{gate, Loudness};
use crate::note::{Note, NoteContainer};
use crate::ranker::{is_top_selection, rank, ranked_notes, table_energies};

verus! {

/// Settings written by a control thread and read by the processing thread, each field
/// on its own.
pub struct Config {
    /// Gate threshold in decibels.
    pub min_volume: AtomicI32,
    /// Oversampling factor of the transform.
    pub point_times: AtomicU16,
    /// Whether frames are multiplied by a Hann window.
    pub use_window_flag: AtomicBool,
    /// Request to capture the next frame as the noise floor.
    pub use_silent: AtomicBool,
    /// Transposition in semitones.
    pub adjustment_rate: AtomicI32,
}

impl Config {
    /// Threshold -30 dB, oversampling 8, no window, no calibration request, no transposition.
    pub fn new() -> (r: Self) {
        Config {
            min_volume: AtomicI32::new(-30),
            point_times: AtomicU16::new(8),
            use_window_flag: AtomicBool::new(false),
            use_silent: AtomicBool::new(false),
            adjustment_rate: AtomicI32::new(0),
        }
    }
}

/// An event for the thread that drives the display and the MIDI output.
pub enum BaseEvent<const NUMBER_OF_NOTE_IN_RESULT: usize> {
    /// The ranked notes of one frame, or `None` for a frame without a decision.
    Synthesized(Option<[Option<Note>; NUMBER_OF_NOTE_IN_RESULT]>),
    /// The operator picked another MIDI output.
    UpdateMidiOutput(usize),
}

/// The spectrum that the calibrator hands on: the frame less a baseline of its length.
pub open spec fn calibrated(baseline: Option<Seq<u64>>, m: Seq<u64>) -> Seq<u64> {
    match baseline {
        Some(b) => if b.len() == m.len() {
            adjusted(m, b)
        } else {
            m
        },
        None => m,
    }
}

/// Turns magnitude spectra into ranked notes.
pub struct Synthesizer {
    notes: NoteContainer,
    frame_rate: u32,
    calibrator: NoiseCalibrator,
    pub config: Arc<Config>,
}

impl Synthesizer {
    pub closed spec fn wf(&self) -> bool {
        self.notes.wf() && self.frame_rate > 0
    }

    pub closed spec fn notes_spec(&self) -> NoteContainer {
        self.notes
    }

    pub closed spec fn frame_rate_spec(&self) -> u32 {
        self.frame_rate
    }

    pub closed spec fn baseline_spec(&self) -> Option<Seq<u64>> {
        self.calibrator.baseline_spec()
    }

    /// A pipeline over a note table at a sample rate in hertz, with default settings
    /// and no baseline.
    pub fn new(notes: NoteContainer, frame_rate: u32) -> (r: Self)
        requires
            notes.wf(),
            frame_rate > 0,
        ensures
            r.wf(),
            r.notes_spec() == notes,
            r.frame_rate_spec() == frame_rate,
            r.baseline_spec() is None,
    {
        Synthesizer {
            notes,
            frame_rate,
            calibrator: NoiseCalibrator::new(),
            config: Arc::new(Config::new()),
        }
    }

    /// Whether a frame of this level is above the current loudness threshold.
    pub fn passes_gate(&self, loudness: Loudness) -> (r: bool)
        ensures
            loudness is NegativeInfinity ==> !r,
    {
        gate(loudness, self.config.min_volume.load(Ordering::SeqCst))
    }

    /// The current oversampling factor, at least 1.
    pub fn point_times(&self) -> (r: usize)
        ensures
            r >= 1,
    {
        let p = self.config.point_times.load(Ordering::SeqCst);
        if p == 0 {
            1
        } else {
            p as usize
        }
    }

    /// Whether frames are to be windowed before the transform.
    pub fn use_window(&self) -> bool {
        self.config.use_window_flag.load(Ordering::SeqCst)
    }

    /// One frame that was loud enough, as magnitudes of a transform of `padded_len`
    /// points. With `request` the frame becomes the baseline and no notes are decided;
    /// otherwise it is calibrated and its `N` loudest notes are ranked.
    pub fn process<const N: usize>(
        &mut self,
        request: bool,
        transposition: i32,
        magnitudes: Vec<u64>,
        padded_len: usize,
    ) -> (r: Option<[Option<Note>; N]>)
        requires
            old(self).wf(),
        ensures
            final(self).wf(),
            final(self).notes_spec() == old(self).notes_spec(),
            final(self).frame_rate_spec() == old(self).frame_rate_spec(),
            request ==> r is None && final(self).baseline_spec() == Some(magnitudes@),
            !request ==> {
                &&& final(self).baseline_spec() == match old(self).baseline_spec() {
                    Some(b) => if b.len() == magnitudes@.len() {
                        Some(b)
                    } else {
                        None
                    },
                    None => None,
                }
                &&& r is Some
                &&& exists|picked: Seq<usize>|
                    #[trigger] is_top_selection(
                        table_energies(
                            old(self).notes_spec(),
                            calibrated(old(self).baseline_spec(), magnitudes@),
                            padded_len as int,
                            old(self).frame_rate_spec() as int,
                        ),
                        picked,
                        N as int,
                    ) && r->0@ == ranked_notes(
                        old(self).notes_spec().numbers@,
                        picked,
                        transposition,
                        N as int,
                    )
            },
    {
        let mut m = magnitudes;
        let outcome = self.calibrator.apply(request, &mut m);
        match outcome {
            CalibrationOutcome::Captured => None,
            _ => {
                assert(m@ == calibrated(old(self).baseline_spec(), magnitudes@));
                let notes = rank::<N>(&self.notes, &m, padded_len, self.frame_rate, transposition);
                Some(notes)
            },
        }
    }

    /// Processes one frame that was loud enough, with the settings as they are now read.
    /// A frame taken as the baseline clears the calibration request and yields `None`.
    pub fn synthe<const N: usize>(&mut self, magnitudes: Vec<u64>, padded_len: usize) -> (r: Option<
        [Option<Note>; N],
    >)
        requires
            old(self).wf(),
        ensures
            final(self).wf(),
            final(self).notes_spec() == old(self).notes_spec(),
            final(self).frame_rate_spec() == old(self).frame_rate_spec(),
            r is None ==> final(self).baseline_spec() == Some(magnitudes@),
            r is Some ==> exists|transposition: i32, picked: Seq<usize>|
                #![trigger ranked_notes(old(self).notes_spec().numbers@, picked, transposition, N as int)]
                is_top_selection(
                    table_energies(
                        old(self).notes_spec(),
                        calibrated(old(self).baseline_spec(), magnitudes@),
                        padded_len as int,
                        old(self).frame_rate_spec() as int,
                    ),
                    picked,
                    N as int,
                ) && r->0@ == ranked_notes(
                    old(self).notes_spec().numbers@,
                    picked,
                    transposition,
                    N as int,
                ),
    {
        let request = self.config.use_silent.load(Ordering::SeqCst);
        let transposition = self.config.adjustment_rate.load(Ordering::SeqCst);
        let r = self.process::<N>(request, transposition, magnitudes, padded_len);
        if request {
            self.config.use_silent.store(false, Ordering::SeqCst);
        }
        r
    }
}

/// A frame processed again after it was captured as the baseline reaches the ranking
/// as a spectrum of zeros.
pub proof fn lemma_recaptured_frame_is_silent(frame: Seq<u64>)
    ensures
        calibrated(Some(frame), frame) == Seq::new(frame.len(), |i: int| 0u64),
{
    assert(calibrated(Some(frame), frame) =~= Seq::new(frame.len(), |i: int| 0u64));
}

} // verus!
