use vstd::prelude::*;

use crate::spectrum::{
    AnalyzerModel, SPECTRUM_BINS, SpectrumAnalyzer, spec_feed, spec_window, zero_bins,
};

verus! {

/// How many samples are gathered before the analyzer sees them.
pub const TAP_BATCH_SIZE: usize = 512;

/// How many samples the analyzer's window holds on the playback path.
pub const TAP_FFT_SIZE: usize = 4096;

/// The least wall-clock gap, in milliseconds, between two emissions.
pub const TAP_REFRESH_MS: u64 = 100;

/// The tap's state as contracts speak of it.
pub struct TapModel {
    pub total_frames: u64,
    pub channels: u16,
    pub samples_played: u64,
    pub analyzer: AnalyzerModel,
    pub batch: Seq<i16>,
    pub cached: Seq<u16>,
    pub last_emit_ms: u64,
}

pub open spec fn tap_wf(t: TapModel) -> bool {
    &&& t.channels >= 1
    &&& crate::spectrum::analyzer_wf(t.analyzer)
    &&& t.batch.len() < TAP_BATCH_SIZE
    &&& (t.cached.len() == 0 || t.cached.len() == SPECTRUM_BINS)
}

/// Completion in thousandths: played samples over the track's total samples,
/// rounded to the nearest thousandth and clamped into [0, 1000]; zero when
/// the track's length is unknown.
pub open spec fn spec_progress_permille(samples_played: u64, total_samples: int) -> u32 {
    if total_samples <= 0 {
        0
    } else {
        let p = (1000 * samples_played + total_samples / 2) / total_samples;
        if p > 1000 {
            1000
        } else {
            p as u32
        }
    }
}

/// Bins handed in from the analysis step, clamped to at most full scale.
pub open spec fn spec_clamp_bins(bins: Seq<u16>) -> Seq<u16> {
    bins.map_values(
        |b: u16|
            if b > 1000 {
                1000u16
            } else {
                b
            },
    )
}

/// What one incoming sample does to the tap: the play count and the batch
/// grow; a full batch is fed to the analyzer and cleared, yielding a window
/// to analyze — or, while the analyzer is still cold, a zeroed cache.
pub open spec fn spec_note_sample(t: TapModel, s: i16) -> (TapModel, Option<Seq<i16>>) {
    let t1 = TapModel {
        samples_played: (t.samples_played + 1) as u64,
        batch: t.batch.push(s),
        ..t
    };
    if t1.batch.len() >= TAP_BATCH_SIZE {
        let a2 = spec_feed(t.analyzer, t1.batch);
        if a2.filled {
            (TapModel { analyzer: a2, batch: Seq::<i16>::empty(), ..t1 }, Option::Some(
                spec_window(a2),
            ))
        } else {
            (
                TapModel {
                    analyzer: a2,
                    batch: Seq::<i16>::empty(),
                    cached: Seq::<u16>::new(SPECTRUM_BINS as nat, |i: int| 0u16),
                    ..t1
                },
                Option::None,
            )
        }
    } else {
        (t1, Option::None)
    }
}

/// Whether a notification is due at `now_ms`.
pub open spec fn spec_should_emit(t: TapModel, now_ms: u64) -> bool {
    now_ms >= t.last_emit_ms + TAP_REFRESH_MS
}

/// The samples that stand for `ms` milliseconds of audio at the given rate
/// and channel count, rounded to the nearest sample; what a restart at an
/// offset pre-loads the play count with.
pub open spec fn spec_seek_offset_samples(ms: u64, sample_rate: u32, channels: u16) -> u64 {
    let v = (ms * sample_rate * channels + 500) / 1000;
    if v > u64::MAX {
        u64::MAX
    } else {
        v as u64
    }
}

/// Computes the sample offset a seek restart hands to the tap.
pub fn seek_offset_samples(ms: u64, sample_rate: u32, channels: u16) -> (r: u64)
    ensures
        r == spec_seek_offset_samples(ms, sample_rate, channels),
{
    proof {
        vstd::arithmetic::mul::lemma_mul_upper_bound(
            ms as int,
            u64::MAX as int,
            sample_rate as int,
            u32::MAX as int,
        );
        vstd::arithmetic::mul::lemma_mul_upper_bound(
            (ms as int) * (sample_rate as int),
            (u64::MAX as int) * (u32::MAX as int),
            channels as int,
            u16::MAX as int,
        );
    }
    let wide: u128 = ((ms as u128) * (sample_rate as u128) * (channels as u128) + 500) / 1000;
    if wide > u64::MAX as u128 {
        u64::MAX
    } else {
        wide as u64
    }
}

/// One throttled notification: completion, frames played, and the cached
/// spectrum at that moment.
pub struct ProgressEmission {
    pub permille: u32,
    pub frames_played: u64,
    pub spectrum: Vec<u16>,
}

/// The progress/spectrum tap: it rides along the decoded sample stream,
/// counts what has been played, batches raw samples for the spectrum
/// analyzer, and rations outward notifications to one per refresh interval.
/// The spectral analysis itself happens outside; its result returns through
/// `store_spectrum` and is emitted possibly a beat later — cached, then
/// emitted.
pub struct ProgressTap {
    total_frames: u64,
    channels: u16,
    samples_played: u64,
    analyzer: SpectrumAnalyzer,
    sample_buffer: Vec<i16>,
    cached_spectrum: Vec<u16>,
    last_emit_ms: u64,
}

impl ProgressTap {
    pub closed spec fn model(&self) -> TapModel {
        TapModel {
            total_frames: self.total_frames,
            channels: self.channels,
            samples_played: self.samples_played,
            analyzer: self.analyzer.model(),
            batch: self.sample_buffer@,
            cached: self.cached_spectrum@,
            last_emit_ms: self.last_emit_ms,
        }
    }

    pub open spec fn wf(&self) -> bool {
        tap_wf(self.model())
    }

    /// A tap for a track of `total_frames` frames, `samples_offset` samples
    /// already behind it (zero, except after a seek restart).
    pub fn new(total_frames: u64, channels: u16, samples_offset: u64, sample_rate: u32) -> (r:
        ProgressTap)
        requires
            channels >= 1,
        ensures
            r.model().total_frames == total_frames,
            r.model().channels == channels,
            r.model().samples_played == samples_offset,
            r.model().batch.len() == 0,
            r.model().cached.len() == 0,
            r.model().last_emit_ms == 0,
            !r.model().analyzer.filled,
            r.wf(),
    {
        ProgressTap {
            total_frames,
            channels,
            samples_played: samples_offset,
            analyzer: SpectrumAnalyzer::new(TAP_FFT_SIZE, sample_rate),
            sample_buffer: Vec::new(),
            cached_spectrum: Vec::new(),
            last_emit_ms: 0,
        }
    }

    /// How many samples have passed the tap; the caller keeps this below the
    /// counter's ceiling.
    pub fn samples_played(&self) -> (r: u64)
        ensures
            r == self.model().samples_played,
    {
        self.samples_played
    }

    /// Counts one sample and batches it; a full batch goes to the analyzer.
    /// The returned window, when there is one, is to be analyzed and handed
    /// back through `store_spectrum`.
    pub fn note_sample(&mut self, sample: i16) -> (w: Option<Vec<i16>>)
        requires
            old(self).wf(),
            old(self).model().samples_played < u64::MAX,
        ensures
            ({
                let (t2, wopt) = spec_note_sample(old(self).model(), sample);
                &&& final(self).model() == t2
                &&& match wopt {
                    Option::Some(ws) => w matches Some(wv) && wv@ == ws,
                    Option::None => w is None,
                }
            }),
            final(self).wf(),
    {
        self.samples_played = self.samples_played + 1;
        self.sample_buffer.push(sample);
        if self.sample_buffer.len() >= TAP_BATCH_SIZE {
            self.analyzer.add_samples(self.sample_buffer.as_slice());
            self.sample_buffer = Vec::new();
            let window = self.analyzer.spectrum_window();
            match window {
                Option::Some(wv) => Some(wv),
                Option::None => {
                    self.cached_spectrum = zero_bins();
                    proof {
                        assert(self.cached_spectrum@ =~= Seq::<u16>::new(
                            SPECTRUM_BINS as nat,
                            |i: int| 0u16,
                        ));
                    }
                    None
                },
            }
        } else {
            None
        }
    }

    /// Takes the freshly analyzed bins as the cached spectrum, each clamped
    /// to at most full scale.
    pub fn store_spectrum(&mut self, bins: Vec<u16>)
        requires
            bins@.len() == SPECTRUM_BINS,
        ensures
            final(self).model() == (TapModel {
                cached: spec_clamp_bins(bins@),
                ..old(self).model()
            }),
            old(self).wf() ==> final(self).wf(),
    {
        let n = bins.len();
        let mut clamped: Vec<u16> = Vec::new();
        let mut i: usize = 0;
        while i < n
            invariant
                i <= n,
                n == bins@.len(),
                clamped@ == spec_clamp_bins(bins@.subrange(0, i as int)),
            decreases n - i,
        {
            let b = bins[i];
            if b > 1000 {
                clamped.push(1000);
            } else {
                clamped.push(b);
            }
            proof {
                assert(clamped@ =~= spec_clamp_bins(bins@.subrange(0, i + 1)));
            }
            i = i + 1;
        }
        proof {
            assert(bins@.subrange(0, n as int) =~= bins@);
        }
        self.cached_spectrum = clamped;
    }

    /// A notification, if one is due at `now_ms`: completion in thousandths,
    /// frames played, and the cached spectrum; at most one per refresh
    /// interval, however often samples arrive.
    pub fn poll_emission(&mut self, now_ms: u64) -> (r: Option<ProgressEmission>)
        requires
            old(self).wf(),
        ensures
            !spec_should_emit(old(self).model(), now_ms) ==> r is None && final(self).model()
                == old(self).model(),
            spec_should_emit(old(self).model(), now_ms) ==> ({
                &&& final(self).model() == (TapModel { last_emit_ms: now_ms, ..old(self).model() })
                &&& r matches Some(e) && e.permille == spec_progress_permille(
                    old(self).model().samples_played,
                    old(self).model().total_frames * old(self).model().channels,
                ) && e.frames_played == old(self).model().samples_played / (
                old(self).model().channels as u64) && e.spectrum@ == old(self).model().cached
            }),
            final(self).wf(),
    {
        if now_ms >= self.last_emit_ms && now_ms - self.last_emit_ms >= TAP_REFRESH_MS {
            self.last_emit_ms = now_ms;
            let permille = self.progress_permille();
            let frames_played = self.samples_played / (self.channels as u64);
            let spectrum = self.cached_spectrum_cloned();
            Some(ProgressEmission { permille, frames_played, spectrum })
        } else {
            None
        }
    }

    /// The completion figure by itself.
    pub fn progress_permille(&self) -> (r: u32)
        ensures
            r == spec_progress_permille(
                self.model().samples_played,
                self.model().total_frames * self.model().channels,
            ),
    {
        proof {
            vstd::arithmetic::mul::lemma_mul_upper_bound(
                self.total_frames as int,
                u64::MAX as int,
                self.channels as int,
                u16::MAX as int,
            );
        }
        let total: u128 = (self.total_frames as u128) * (self.channels as u128);
        if total == 0 {
            return 0;
        }
        let p: u128 = (1000 * (self.samples_played as u128) + total / 2) / total;
        if p > 1000 {
            1000
        } else {
            p as u32
        }
    }

    fn cached_spectrum_cloned(&self) -> (r: Vec<u16>)
        ensures
            r@ == self.model().cached,
    {
        let n = self.cached_spectrum.len();
        let mut r: Vec<u16> = Vec::new();
        let mut i: usize = 0;
        while i < n
            invariant
                i <= n,
                n == self.cached_spectrum@.len(),
                r@ == self.cached_spectrum@.subrange(0, i as int),
            decreases n - i,
        {
            r.push(self.cached_spectrum[i]);
            proof {
                assert(r@ =~= self.cached_spectrum@.subrange(0, i + 1));
            }
            i = i + 1;
        }
        proof {
            assert(self.cached_spectrum@.subrange(0, n as int) =~= self.cached_spectrum@);
        }
        r
    }
}

} // verus!
