use vstd::prelude::*;

verus! {

/// How many magnitude bins a spectrum holds.
pub const SPECTRUM_BINS: usize = 64;

/// The analyzer's state as contracts speak of it: the ring's contents, where
/// the next sample lands, and whether the ring has been filled once.
pub struct AnalyzerModel {
    pub buf: Seq<i16>,
    pub write_index: int,
    pub filled: bool,
}

pub open spec fn analyzer_wf(a: AnalyzerModel) -> bool {
    &&& a.buf.len() > 0
    &&& 0 <= a.write_index < a.buf.len()
}

/// One sample entering the ring: it overwrites the oldest slot, and the ring
/// counts as filled once the index wraps.
pub open spec fn spec_feed_one(a: AnalyzerModel, s: i16) -> AnalyzerModel {
    let b2 = a.buf.update(a.write_index, s);
    let w2 = if a.write_index + 1 == a.buf.len() {
        0
    } else {
        a.write_index + 1
    };
    AnalyzerModel { buf: b2, write_index: w2, filled: a.filled || w2 == 0 }
}

/// A batch of samples entering the ring in order.
pub open spec fn spec_feed(a: AnalyzerModel, samples: Seq<i16>) -> AnalyzerModel
    decreases samples.len(),
{
    if samples.len() == 0 {
        a
    } else {
        spec_feed(spec_feed_one(a, samples[0]), samples.drop_first())
    }
}

/// The ring read oldest-first: from the write index to the end, then the
/// wrapped prefix.
pub open spec fn spec_window(a: AnalyzerModel) -> Seq<i16> {
    a.buf.subrange(a.write_index, a.buf.len() as int) + a.buf.subrange(0, a.write_index)
}

proof fn lemma_feed_push(a: AnalyzerModel, samples: Seq<i16>, s: i16)
    ensures
        spec_feed(a, samples.push(s)) == spec_feed_one(spec_feed(a, samples), s),
    decreases samples.len(),
{
    if samples.len() == 0 {
        assert(samples.push(s)[0] == s);
        assert(samples.push(s).drop_first() =~= Seq::<i16>::empty());
        assert(spec_feed(a, samples.push(s)) == spec_feed(
            spec_feed_one(a, s),
            Seq::<i16>::empty(),
        ));
        assert(spec_feed(spec_feed_one(a, s), Seq::<i16>::empty()) == spec_feed_one(a, s));
        assert(spec_feed(a, samples) == a);
    } else {
        assert(samples.push(s)[0] == samples[0]);
        assert(samples.push(s).drop_first() =~= samples.drop_first().push(s));
        lemma_feed_push(spec_feed_one(a, samples[0]), samples.drop_first(), s);
        assert(spec_feed(a, samples.push(s)) == spec_feed(
            spec_feed_one(a, samples[0]),
            samples.drop_first().push(s),
        ));
        assert(spec_feed(a, samples) == spec_feed(
            spec_feed_one(a, samples[0]),
            samples.drop_first(),
        ));
    }
}

/// The rolling sample window behind the live spectrum: a fixed-size ring of
/// raw PCM samples. Until the ring has been filled once there is no window
/// to analyze — a cold start yields no spectrum rather than one computed
/// from a partial window.
pub struct SpectrumAnalyzer {
    buffer: Vec<i16>,
    sample_rate: u32,
    write_index: usize,
    filled: bool,
}

fn zero_samples(n: usize) -> (r: Vec<i16>)
    ensures
        r@.len() == n,
        forall|i: int| 0 <= i < n ==> r@[i] == 0i16,
{
    let mut r: Vec<i16> = Vec::new();
    let mut i: usize = 0;
    while i < n
        invariant
            i <= n,
            r@.len() == i,
            forall|j: int| 0 <= j < i ==> r@[j] == 0i16,
        decreases n - i,
    {
        r.push(0);
        i = i + 1;
    }
    r
}

impl SpectrumAnalyzer {
    pub closed spec fn model(&self) -> AnalyzerModel {
        AnalyzerModel {
            buf: self.buffer@,
            write_index: self.write_index as int,
            filled: self.filled,
        }
    }

    pub open spec fn wf(&self) -> bool {
        analyzer_wf(self.model())
    }

    /// The sample rate the window was recorded at, for the analysis step.
    pub closed spec fn spec_sample_rate(&self) -> u32 {
        self.sample_rate
    }

    /// A cold ring of `fft_size` zeroed slots.
    pub fn new(fft_size: usize, sample_rate: u32) -> (r: SpectrumAnalyzer)
        requires
            fft_size > 0,
        ensures
            r.model().buf.len() == fft_size,
            forall|i: int| 0 <= i < fft_size ==> r.model().buf[i] == 0i16,
            r.model().write_index == 0,
            !r.model().filled,
            r.spec_sample_rate() == sample_rate,
            r.wf(),
    {
        SpectrumAnalyzer { buffer: zero_samples(fft_size), sample_rate, write_index: 0, filled: false }
    }

    pub fn sample_rate(&self) -> (r: u32)
        ensures
            r == self.spec_sample_rate(),
    {
        self.sample_rate
    }

    /// Back to a cold, zeroed ring.
    pub fn reset(&mut self)
        ensures
            final(self).model().buf.len() == old(self).model().buf.len(),
            forall|i: int|
                0 <= i < old(self).model().buf.len() ==> final(self).model().buf[i] == 0i16,
            final(self).model().write_index == 0,
            !final(self).model().filled,
            final(self).spec_sample_rate() == old(self).spec_sample_rate(),
            old(self).wf() ==> final(self).wf(),
    {
        let n = self.buffer.len();
        self.buffer = zero_samples(n);
        self.write_index = 0;
        self.filled = false;
    }

    /// Writes a batch of samples into the ring in order, wrapping as needed.
    pub fn add_samples(&mut self, samples: &[i16])
        requires
            old(self).wf(),
        ensures
            final(self).model() == spec_feed(old(self).model(), samples@),
            final(self).spec_sample_rate() == old(self).spec_sample_rate(),
            final(self).wf(),
    {
        let n = samples.len();
        let mut i: usize = 0;
        proof {
            assert(samples@.subrange(0, 0) =~= Seq::<i16>::empty());
        }
        while i < n
            invariant
                i <= n,
                n == samples@.len(),
                self.model() == spec_feed(old(self).model(), samples@.subrange(0, i as int)),
                self.spec_sample_rate() == old(self).spec_sample_rate(),
                self.wf(),
            decreases n - i,
        {
            let s = samples[i];
            let len = self.buffer.len();
            self.buffer.set(self.write_index, s);
            if self.write_index + 1 == len {
                self.write_index = 0;
                self.filled = true;
            } else {
                self.write_index = self.write_index + 1;
            }
            proof {
                assert(samples@.subrange(0, i as int).push(samples@[i as int]) =~= samples@
                    .subrange(0, i + 1));
                lemma_feed_push(old(self).model(), samples@.subrange(0, i as int), samples@[i as int]);
            }
            i = i + 1;
        }
        proof {
            assert(samples@.subrange(0, n as int) =~= samples@);
        }
    }

    /// The sample window to analyze, oldest sample first — or nothing while
    /// the ring is still cold, so that a partial window is never analyzed.
    pub fn spectrum_window(&self) -> (r: Option<Vec<i16>>)
        requires
            self.wf(),
        ensures
            self.model().filled ==> (r matches Some(w) && w@ == spec_window(self.model())),
            !self.model().filled ==> r is None,
    {
        if !self.filled {
            return None;
        }
        let n = self.buffer.len();
        let w = self.write_index;
        let mut out: Vec<i16> = Vec::new();
        let mut j: usize = w;
        while j < n
            invariant
                w <= j <= n,
                n == self.model().buf.len(),
                w == self.model().write_index,
                out@ == self.model().buf.subrange(w as int, j as int),
            decreases n - j,
        {
            out.push(self.buffer[j]);
            proof {
                assert(self.model().buf.subrange(w as int, j as int).push(
                    self.model().buf[j as int],
                ) =~= self.model().buf.subrange(w as int, j + 1));
            }
            j = j + 1;
        }
        let mut k: usize = 0;
        while k < w
            invariant
                k <= w,
                w <= n,
                n == self.model().buf.len(),
                w == self.model().write_index,
                out@ == self.model().buf.subrange(w as int, n as int) + self.model().buf.subrange(
                    0,
                    k as int,
                ),
            decreases w - k,
        {
            out.push(self.buffer[k]);
            proof {
                assert((self.model().buf.subrange(w as int, n as int) + self.model().buf.subrange(
                    0,
                    k as int,
                )).push(self.model().buf[k as int]) =~= self.model().buf.subrange(w as int, n as int)
                    + self.model().buf.subrange(0, k + 1));
            }
            k = k + 1;
        }
        Some(out)
    }

    /// Whether the ring has been filled at least once.
    pub fn is_filled(&self) -> (r: bool)
        ensures
            r == self.model().filled,
    {
        self.filled
    }
}

/// The spectrum shown before any window was analyzed: all bins at zero.
pub fn zero_bins() -> (r: Vec<u16>)
    ensures
        r@.len() == SPECTRUM_BINS,
        forall|i: int| 0 <= i < r@.len() ==> r@[i] == 0u16,
{
    let mut r: Vec<u16> = Vec::new();
    let mut i: usize = 0;
    while i < SPECTRUM_BINS
        invariant
            i <= SPECTRUM_BINS,
            r@.len() == i,
            forall|j: int| 0 <= j < i ==> r@[j] == 0u16,
        decreases SPECTRUM_BINS - i,
    {
        r.push(0);
        i = i + 1;
    }
    r
}

} // verus!
