//! Keeps one full, stable glottal period for display: samples accumulate
//! into a working buffer, and at each period boundary (detected by the
//! phase wrapping) the finished period is swapped out whole.

use vstd::prelude::*;

verus! {

/// Ceiling on a recorded period's length.
pub const RECORD_LIMIT: usize = 65536;

pub struct WaveformRecorder {
    pub waveform: Vec<i64>,
    pub waveform_: Vec<i64>,
    pub last_phase: i64,
}

impl WaveformRecorder {
    pub open spec fn wf(self) -> bool {
        &&& self.waveform@.len() <= RECORD_LIMIT
        &&& self.waveform_@.len() <= RECORD_LIMIT
    }

    /// Empty buffers.
    pub fn new() -> (r: WaveformRecorder)
        ensures
            r.wf(),
            r.waveform@.len() == 0,
            r.waveform_@.len() == 0,
            r.last_phase == 0,
    {
        WaveformRecorder { waveform: Vec::new(), waveform_: Vec::new(), last_phase: 0 }
    }

    /// Append one sample; when the phase has wrapped since the last call,
    /// the working buffer becomes the finished period and a fresh one
    /// starts. A buffer at its ceiling stops growing.
    pub fn record(&mut self, phase: i64, x: i64)
        requires
            old(self).wf(),
        ensures
            final(self).wf(),
            final(self).last_phase == phase,
            old(self).last_phase <= phase && old(self).waveform_@.len() < RECORD_LIMIT
                ==> final(self).waveform_@ == old(self).waveform_@.push(x)
                && final(self).waveform@ == old(self).waveform@,
            old(self).last_phase > phase ==> final(self).waveform@ == old(self).waveform_@
                && final(self).waveform_@ == seq![x],
    {
        if self.last_phase > phase {
            core::mem::swap(&mut self.waveform, &mut self.waveform_);
            self.waveform_ = Vec::new();
        }
        self.last_phase = phase;
        if self.waveform_.len() < RECORD_LIMIT {
            self.waveform_.push(x);
        }
        proof {
            if old(self).last_phase > phase {
                assert(self.waveform_@ =~= seq![x]);
            }
        }
    }

    /// The most recently finished period.
    pub fn get_waveform(&self) -> (r: &Vec<i64>)
        ensures
            r@ == self.waveform@,
    {
        &self.waveform
    }
}

} // verus!
