//! Captures a noise-floor spectrum and subtracts it from later spectra.
use vstd::prelude::*;

verus! {

/// Each bin less the baseline's, never below zero.
pub open spec fn adjusted(current: Seq<u64>, baseline: Seq<u64>) -> Seq<u64> {
    Seq::new(
        current.len(),
        |i: int|
            if current[i] > baseline[i] {
                (current[i] - baseline[i]) as u64
            } else {
                0u64
            },
    )
}

/// Subtracts `baseline` from `current` bin by bin, stopping at zero.
pub fn subtract_baseline(current: &mut Vec<u64>, baseline: &Vec<u64>)
    requires
        old(current)@.len() == baseline@.len(),
    ensures
        final(current)@ == adjusted(old(current)@, baseline@),
{
    let n = current.len();
    let mut i: usize = 0;
    while i < n
        invariant
            n == current@.len() == baseline@.len() == old(current)@.len(),
            i <= n,
            forall|j: int| 0 <= j < i ==> current@[j] == adjusted(old(current)@, baseline@)[j],
            forall|j: int| i <= j < n ==> current@[j] == old(current)@[j],
        decreases n - i,
    {
        let c = current[i];
        let b = baseline[i];
        if c > b {
            current.set(i, c - b);
        } else {
            current.set(i, 0);
        }
        i = i + 1;
    }
    proof {
        assert(current@ =~= adjusted(old(current)@, baseline@));
    }
}

/// What the calibrator did with a frame.
#[derive(Clone, Copy, Debug, PartialEq, Eq, Structural)]
pub enum CalibrationOutcome {
    /// The frame became the baseline and yields no note decision.
    Captured,
    /// The baseline was subtracted from the frame.
    Subtracted,
    /// The frame was left as it came: no baseline, or a stale one that was dropped.
    Untouched,
}

/// Holds the captured noise floor, if any.
pub struct NoiseCalibrator {
    baseline: Option<Vec<u64>>,
}

impl NoiseCalibrator {
    pub closed spec fn baseline_spec(&self) -> Option<Seq<u64>> {
        match self.baseline {
            Some(b) => Some(b@),
            None => None,
        }
    }

    /// A calibrator with no baseline.
    pub fn new() -> (r: Self)
        ensures
            r.baseline_spec() is None,
    {
        NoiseCalibrator { baseline: None }
    }

    /// Whether a baseline is held.
    pub fn is_active(&self) -> (r: bool)
        ensures
            r == self.baseline_spec() is Some,
    {
        self.baseline.is_some()
    }

    /// Processes one frame's spectrum. With `request` set the frame replaces the baseline;
    /// otherwise a baseline of the same length is subtracted, and one of another length
    /// is dropped and the frame left as it is.
    pub fn apply(&mut self, request: bool, spectrum: &mut Vec<u64>) -> (r: CalibrationOutcome)
        ensures
            request ==> {
                &&& r == CalibrationOutcome::Captured
                &&& final(self).baseline_spec() == Some(old(spectrum)@)
                &&& final(spectrum)@ == old(spectrum)@
            },
            !request ==> match old(self).baseline_spec() {
                Some(b) => if b.len() == old(spectrum)@.len() {
                    &&& r == CalibrationOutcome::Subtracted
                    &&& final(self).baseline_spec() == Some(b)
                    &&& final(spectrum)@ == adjusted(old(spectrum)@, b)
                } else {
                    &&& r == CalibrationOutcome::Untouched
                    &&& final(self).baseline_spec() is None
                    &&& final(spectrum)@ == old(spectrum)@
                },
                None => {
                    &&& r == CalibrationOutcome::Untouched
                    &&& final(self).baseline_spec() is None
                    &&& final(spectrum)@ == old(spectrum)@
                },
            },
    {
        if request {
            self.baseline = Some(spectrum.clone());
            return CalibrationOutcome::Captured;
        }
        let stale = match &self.baseline {
            Some(b) => {
                if b.len() == spectrum.len() {
                    subtract_baseline(spectrum, b);
                    return CalibrationOutcome::Subtracted;
                }
                true
            },
            None => false,
        };
        if stale {
            self.baseline = None;
        }
        CalibrationOutcome::Untouched
    }
}

/// A frame subtracted from itself leaves nothing: every adjusted bin is zero.
pub proof fn lemma_self_subtraction_is_silent(frame: Seq<u64>)
    ensures
        adjusted(frame, frame).len() == frame.len(),
        forall|i: int| 0 <= i < frame.len() ==> #[trigger] adjusted(frame, frame)[i] == 0,
{
}

/// Capturing a frame and then processing the same samples again, with no new request,
/// subtracts the frame from itself.
pub proof fn lemma_calibration_round_trip(frame: Seq<u64>)
    ensures
        adjusted(frame, frame) == Seq::new(frame.len(), |i: int| 0u64),
{
    assert(adjusted(frame, frame) =~= Seq::new(frame.len(), |i: int| 0u64));
}

} // verus!
