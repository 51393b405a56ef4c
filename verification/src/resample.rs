//! Resampling helpers shared by the audio-clocked backends.
//!
//! These backends must convert a point stream authored at the user's PPS into
//! the audio device's fixed sample rate. [`StreamingResampler`] carries the
//! fractional source phase and the trailing input samples across calls, so
//! interpolation spans chunk boundaries and the long-run output/input ratio is
//! exactly `to_rate/from_rate`.
//!
//! The resampler picks the samples and the phase of each output; the spline through
//! them is evaluated by whoever plays it.

use std::collections::VecDeque;

use vstd::prelude::*;

verus! {

/// Calculate the number of output samples when resampling `input_len` points
/// from `from_rate` to `to_rate` in a single stateless, endpoint-inclusive
/// pass. [`StreamingResampler::pending_output_count`] is the stateful
/// equivalent (accounting for carried phase) used by the backends.
pub fn resampled_len(input_len: usize, from_rate: u32, to_rate: u32) -> (r: usize)
    requires
        from_rate > 0,
        input_len * to_rate <= u64::MAX,
        (input_len * to_rate + from_rate - 1) / from_rate as int <= usize::MAX,
    ensures
        input_len == 0 ==> r == 0,
        r == (input_len * to_rate + from_rate - 1) / from_rate as int,
{
    if input_len == 0 {
        assert((from_rate - 1) / from_rate as int == 0) by (nonlinear_arith)
            requires
                from_rate > 0,
        ;
        return 0;
    }
    let product: u64 = input_len as u64 * to_rate as u64;
    let rounded: u128 = product as u128 + from_rate as u128 - 1;
    (rounded / from_rate as u128) as usize
}

/// The four samples around an output and where it lies between the middle two: the
/// share `phase / to_rate` of the way from `s1` to `s2`.
#[derive(Clone, Copy, Debug)]
pub struct Taps<T> {
    pub s0: T,
    pub s1: T,
    pub s2: T,
    pub s3: T,
    pub phase: u32,
    pub to_rate: u32,
}

/// Stateful streaming resampler from `from_rate` to `to_rate`.
///
/// Output sample `n` samples the input stream at source position
/// `src(n) = n * from_rate / to_rate` (in input-sample index units), measured
/// continuously across every [`process`](Self::process) call.
///
/// The trailing input samples are retained between calls so the context (`s0`,
/// `s1`) is available for outputs that straddle a chunk boundary. The look-ahead
/// context (`s2`, `s3`) is clamped to the newest available input at the trailing
/// edge of each chunk, so an output whose successor has not yet arrived is emitted
/// immediately (rather than held back).
///
/// Reset the phase (via [`reset`](Self::reset), or implicitly by changing rates
/// with [`set_rates`](Self::set_rates)) on connect/stop/reconnect so a new
/// stream starts cleanly.
pub struct StreamingResampler<T> {
    pub from_rate: u32,
    pub to_rate: u32,
    /// Retained input samples for absolute indices `[buf_start, n_in)`.
    pub buf: VecDeque<T>,
    /// Absolute input index of the first retained sample.
    pub buf_start: u64,
    /// Total input samples consumed since the last reset.
    pub n_in: u64,
    /// Total output samples emitted since the last reset.
    pub n_out: u64,
    /// All input samples since the last reset.
    pub history: Ghost<Seq<T>>,
}

/// How many outputs there are once `n_in` samples have come in: all whose position is
/// not past the last of them.
pub open spec fn emittable(n_in: int, from_rate: u32, to_rate: u32) -> int {
    if n_in <= 0 {
        0
    } else {
        (n_in - 1) * to_rate / from_rate as int + 1
    }
}

/// Whether so many samples, the outputs that come of them, and the steps that lead
/// there can be counted.
pub open spec fn countable(n_in: int, from_rate: u32, to_rate: u32) -> bool {
    &&& n_in <= 0x8000_0000_0000_0000
    &&& (n_in - 1) * to_rate <= u64::MAX
    &&& emittable(n_in, from_rate, to_rate) * from_rate <= u64::MAX
    &&& emittable(n_in, from_rate, to_rate) <= u64::MAX
}

/// The sample before output `n`.
pub open spec fn source_index(n: int, from_rate: u32, to_rate: u32) -> int {
    n * from_rate / to_rate as int
}

/// The first sample that later outputs need, once so many outputs are out: the one
/// before the next output's, but the newest sample always.
pub open spec fn kept_from(n_in: int, n_out: int, from_rate: u32, to_rate: u32) -> int {
    held(source_index(n_out, from_rate, to_rate) - 1, n_in)
}

/// A position, held within what has come in.
pub open spec fn held(i: int, len: int) -> int {
    if i < 0 {
        0
    } else if i > len - 1 {
        len - 1
    } else {
        i
    }
}

/// Output `n` of a stream of which these samples have come in.
pub open spec fn taps_at<T>(input: Seq<T>, n: int, from_rate: u32, to_rate: u32) -> Taps<T> {
    let i = source_index(n, from_rate, to_rate);
    let len = input.len() as int;
    Taps {
        s0: input[held(i - 1, len)],
        s1: input[held(i, len)],
        s2: input[held(i + 1, len)],
        s3: input[held(i + 2, len)],
        phase: (n * from_rate % to_rate as int) as u32,
        to_rate,
    }
}

/// Bounds on the products that the steps form.
proof fn lemma_output_fits(n: int, n_in: int, from_rate: u32, to_rate: u32)
    requires
        from_rate > 0,
        to_rate > 0,
        n_in > 0,
        0 <= n,
    ensures
        n < emittable(n_in, from_rate, to_rate) ==> n * from_rate <= (n_in - 1) * to_rate
            && source_index(n, from_rate, to_rate) <= n_in - 1,
        n >= emittable(n_in, from_rate, to_rate) ==> n * from_rate > (n_in - 1) * to_rate
            && source_index(n, from_rate, to_rate) >= n_in - 1,
        0 <= source_index(n, from_rate, to_rate),
        0 <= n * from_rate,
{
    let f = from_rate as int;
    let t = to_rate as int;
    let p = (n_in - 1) * t;
    let q = p / f;
    assert(q * f <= p < q * f + f) by (nonlinear_arith)
        requires
            q == p / f,
            f > 0,
    ;
    if n < q + 1 {
        assert(n * f <= q * f) by (nonlinear_arith)
            requires
                n <= q,
                f > 0,
        ;
        assert((n * f) / t <= n_in - 1) by (nonlinear_arith)
            requires
                n * f <= (n_in - 1) * t,
                t > 0,
        ;
    } else {
        assert(n * f >= q * f + f) by (nonlinear_arith)
            requires
                n >= q + 1,
                f > 0,
        ;
        assert((n * f) / t >= n_in - 1) by (nonlinear_arith)
            requires
                n * f >= (n_in - 1) * t,
                t > 0,
        ;
    }
    assert(0 <= (n * f) / t && 0 <= n * f) by (nonlinear_arith)
        requires
            n >= 0,
            f > 0,
            t > 0,
    ;
}

proof fn lemma_emittable_grows(a: int, b: int, from_rate: u32, to_rate: u32)
    requires
        0 <= a <= b,
        from_rate > 0,
        to_rate > 0,
    ensures
        0 <= emittable(a, from_rate, to_rate) <= emittable(b, from_rate, to_rate),
{
    let f = from_rate as int;
    let t = to_rate as int;
    if a > 0 {
        assert(0 <= (a - 1) * t <= (b - 1) * t) by (nonlinear_arith)
            requires
                0 < a <= b,
                t > 0,
        ;
        assert(0 <= ((a - 1) * t) / f <= ((b - 1) * t) / f) by (nonlinear_arith)
            requires
                0 <= (a - 1) * t <= (b - 1) * t,
                f > 0,
        ;
    } else if b > 0 {
        assert(0 <= ((b - 1) * t) / f) by (nonlinear_arith)
            requires
                b > 0,
                t > 0,
                f > 0,
        ;
    }
}

impl<T: Copy> StreamingResampler<T> {
    /// All outputs have been emitted, and the retained samples are those that later
    /// outputs need.
    pub open spec fn wf(self) -> bool {
        &&& self.from_rate > 0
        &&& self.to_rate > 0
        &&& self.history@.len() == self.n_in
        &&& self.n_in == 0 ==> self.buf_start == 0
        &&& self.n_in > 0 ==> self.buf_start == kept_from(
            self.n_in as int,
            self.n_out as int,
            self.from_rate,
            self.to_rate,
        )
        &&& self.buf@ == self.history@.subrange(self.buf_start as int, self.n_in as int)
        &&& self.n_out == emittable(self.n_in as int, self.from_rate, self.to_rate)
    }

    /// The counters have room for so many more samples.
    pub open spec fn has_room(self, input_len: int) -> bool {
        countable(self.n_in + input_len, self.from_rate, self.to_rate)
    }

    /// How many outputs come of so many more samples.
    pub open spec fn pending(self, input_len: int) -> int {
        emittable(self.n_in + input_len, self.from_rate, self.to_rate) - self.n_out
    }

    /// The resampler once a chunk of samples has come in.
    pub open spec fn fed(self, chunk: Seq<T>, after: StreamingResampler<T>) -> bool {
        &&& after.wf()
        &&& after.from_rate == self.from_rate
        &&& after.to_rate == self.to_rate
        &&& after.history@ == self.history@ + chunk
    }

    pub fn new(from_rate: u32, to_rate: u32) -> (r: StreamingResampler<T>)
        requires
            from_rate > 0,
            to_rate > 0,
        ensures
            r.wf(),
            r.from_rate == from_rate,
            r.to_rate == to_rate,
            r.history@ == Seq::<T>::empty(),
    {
        let r = StreamingResampler {
            from_rate,
            to_rate,
            buf: VecDeque::new(),
            buf_start: 0,
            n_in: 0,
            n_out: 0,
            history: Ghost(Seq::empty()),
        };
        assert(r.buf@ =~= r.history@.subrange(0, 0));
        r
    }

    /// Clear all carried phase and history. Call on connect/stop/reconnect.
    pub fn reset(&mut self)
        requires
            old(self).from_rate > 0,
            old(self).to_rate > 0,
        ensures
            final(self).wf(),
            final(self).from_rate == old(self).from_rate,
            final(self).to_rate == old(self).to_rate,
            final(self).history@ == Seq::<T>::empty(),
    {
        self.buf.clear();
        self.buf_start = 0;
        self.n_in = 0;
        self.n_out = 0;
        self.history = Ghost(Seq::empty());
        assert(self.buf@ =~= self.history@.subrange(0, 0));
    }

    /// Update the conversion rates. When either rate changes the phase is reset
    /// so the new ratio starts cleanly (a mid-stream PPS change re-phases).
    pub fn set_rates(&mut self, from_rate: u32, to_rate: u32)
        requires
            old(self).wf(),
            from_rate > 0,
            to_rate > 0,
        ensures
            final(self).wf(),
            final(self).from_rate == from_rate,
            final(self).to_rate == to_rate,
            from_rate == old(self).from_rate && to_rate == old(self).to_rate ==> *final(self)
                == *old(self),
            from_rate != old(self).from_rate || to_rate != old(self).to_rate
                ==> final(self).history@ == Seq::<T>::empty(),
    {
        if from_rate != self.from_rate || to_rate != self.to_rate {
            self.from_rate = from_rate;
            self.to_rate = to_rate;
            self.reset();
        }
    }

    /// Total output samples that will have been emitted once `n_in` input
    /// samples have been consumed.
    fn total_emittable(&self, n_in: u64) -> (r: u64)
        requires
            self.from_rate > 0,
            (n_in - 1) * self.to_rate <= u64::MAX,
            emittable(n_in as int, self.from_rate, self.to_rate) <= u64::MAX,
        ensures
            r == emittable(n_in as int, self.from_rate, self.to_rate),
    {
        if n_in == 0 {
            0
        } else {
            let to: u64 = self.to_rate as u64;
            assert(0 <= (n_in - 1) * to) by (nonlinear_arith)
                requires
                    n_in >= 1,
                    to >= 0,
            ;
            (n_in - 1) * to / self.from_rate as u64 + 1
        }
    }

    /// Number of output samples [`process`](Self::process) will emit for an
    /// input chunk of `input_len` samples, given the current carried phase.
    /// Callers use this to reserve queue capacity first.
    pub fn pending_output_count(&self, input_len: usize) -> (r: usize)
        requires
            self.wf(),
            self.has_room(input_len as int),
            self.pending(input_len as int) <= usize::MAX,
        ensures
            r == self.pending(input_len as int),
    {
        proof {
            lemma_emittable_grows(
                self.n_in as int,
                self.n_in + input_len,
                self.from_rate,
                self.to_rate,
            );
        }
        (self.total_emittable(self.n_in + input_len as u64) - self.n_out) as usize
    }

    /// Read the input sample at absolute index `abs`, clamped to the newest one.
    fn at(&self, abs: u64, last: u64) -> (r: T)
        requires
            self.history@.len() == self.n_in,
            last == self.n_in - 1,
            self.buf@ == self.history@.subrange(self.buf_start as int, self.n_in as int),
            self.buf_start <= held(abs as int, self.n_in as int),
        ensures
            r == self.history@[held(abs as int, self.n_in as int)],
    {
        let clamped: u64 = if abs > last {
            last
        } else {
            abs
        };
        let i: u64 = clamped - self.buf_start;
        let n: usize = self.buf.len();
        assert(i < n);
        assert(self.buf@[i as int] == self.history@[clamped as int]);
        self.buf[i as usize]
    }

    /// Drop input samples no longer needed for future output context.
    fn prune(&mut self)
        requires
            old(self).from_rate > 0,
            old(self).to_rate > 0,
            old(self).history@.len() == old(self).n_in,
            old(self).n_in > 0,
            old(self).buf_start < old(self).n_in,
            old(self).buf@ == old(self).history@.subrange(
                old(self).buf_start as int,
                old(self).n_in as int,
            ),
            old(self).n_out * old(self).from_rate <= u64::MAX,
            old(self).buf_start == 0 || old(self).buf_start < source_index(
                old(self).n_out as int,
                old(self).from_rate,
                old(self).to_rate,
            ),
        ensures
            final(self).from_rate == old(self).from_rate,
            final(self).to_rate == old(self).to_rate,
            final(self).n_in == old(self).n_in,
            final(self).n_out == old(self).n_out,
            final(self).history == old(self).history,
            final(self).buf_start == kept_from(
                old(self).n_in as int,
                old(self).n_out as int,
                old(self).from_rate,
                old(self).to_rate,
            ),
            final(self).buf@ == final(self).history@.subrange(
                final(self).buf_start as int,
                final(self).n_in as int,
            ),
    {
        let next_idx: u64 = self.n_out * self.from_rate as u64 / self.to_rate as u64;
        let target_start: u64 = next_idx.saturating_sub(1);
        let ghost before = *self;
        while self.buf_start < target_start && self.buf.len() > 1
            invariant
                self.from_rate == before.from_rate,
                self.to_rate == before.to_rate,
                self.n_in == before.n_in,
                self.n_out == before.n_out,
                self.history == before.history,
                self.history@.len() == self.n_in,
                self.buf_start < self.n_in,
                self.buf@ == self.history@.subrange(self.buf_start as int, self.n_in as int),
                next_idx == source_index(self.n_out as int, self.from_rate, self.to_rate),
                target_start == if next_idx >= 1 {
                    (next_idx - 1) as u64
                } else {
                    0
                },
                self.buf_start == 0 || self.buf_start < next_idx,
            decreases self.n_in - self.buf_start,
        {
            let ghost start = self.buf_start as int;
            let _ = self.buf.pop_front();
            assert(self.buf@ =~= self.history@.subrange(start + 1, self.n_in as int));
            self.buf_start = self.buf_start + 1;
        }
    }

    /// Resample `input`: the outputs, in order.
    pub fn process(&mut self, input: &[T]) -> (r: Vec<Taps<T>>)
        requires
            old(self).wf(),
            old(self).has_room(input@.len() as int),
        ensures
            old(self).fed(input@, *final(self)),
            r@.len() == old(self).pending(input@.len() as int),
            r@.len() == final(self).n_out - old(self).n_out,
            forall|k: int|
                0 <= k < r@.len() ==> #[trigger] r@[k] == taps_at(
                    final(self).history@,
                    old(self).n_out + k,
                    old(self).from_rate,
                    old(self).to_rate,
                ),
    {
        let ghost before = *self;
        let ghost all = self.history@ + input@;
        proof {
            lemma_emittable_grows(
                self.n_in as int,
                self.n_in + input@.len(),
                self.from_rate,
                self.to_rate,
            );
        }
        let mut out: Vec<Taps<T>> = Vec::new();
        let mut i: usize = 0;
        assert(self.history@ + input@.take(0) =~= self.history@);
        while i < input.len()
            invariant
                i <= input@.len(),
                before.wf(),
                before.n_in + input@.len() <= u64::MAX,
                self.from_rate == before.from_rate,
                self.to_rate == before.to_rate,
                self.n_in == before.n_in,
                self.n_out == before.n_out,
                self.buf_start == before.buf_start,
                self.history == before.history,
                self.buf@ == (before.history@ + input@.take(i as int)).skip(before.buf_start as int),
            decreases input.len() - i,
        {
            self.buf.push_back(input[i]);
            i += 1;
            assert(self.buf@ =~= (before.history@ + input@.take(i as int)).skip(
                before.buf_start as int,
            ));
        }
        assert(input@.take(i as int) =~= input@);
        self.n_in = self.n_in + input.len() as u64;
        self.history = Ghost(all);
        assert(self.buf@ =~= all.subrange(self.buf_start as int, self.n_in as int));
        if self.n_in == 0 {
            return out;
        }
        let from: u64 = self.from_rate as u64;
        let to: u64 = self.to_rate as u64;
        let last: u64 = self.n_in - 1;
        let target: u64 = self.total_emittable(self.n_in);
        while self.n_out < target
            invariant
                from == before.from_rate,
                to == before.to_rate,
                from > 0,
                to > 0,
                self.from_rate == before.from_rate,
                self.to_rate == before.to_rate,
                self.n_in > 0,
                last == self.n_in - 1,
                self.n_in <= 0x8000_0000_0000_0000,
                (self.n_in - 1) * to <= u64::MAX,
                self.history@ == all,
                all.len() == self.n_in,
                target == emittable(self.n_in as int, self.from_rate, self.to_rate),
                before.n_out <= self.n_out <= target,
                self.buf_start == before.buf_start,
                self.buf_start < self.n_in,
                self.buf@ == all.subrange(self.buf_start as int, self.n_in as int),
                self.buf_start == 0 || self.buf_start < source_index(
                    before.n_out as int,
                    self.from_rate,
                    self.to_rate,
                ),
                out@.len() == self.n_out - before.n_out,
                forall|k: int|
                    0 <= k < out@.len() ==> #[trigger] out@[k] == taps_at(
                        all,
                        before.n_out + k,
                        before.from_rate,
                        before.to_rate,
                    ),
            decreases target - self.n_out,
        {
            proof {
                lemma_output_fits(
                    self.n_out as int,
                    self.n_in as int,
                    self.from_rate,
                    self.to_rate,
                );
                lemma_source_grows(
                    before.n_out as int,
                    self.n_out as int,
                    self.from_rate,
                    self.to_rate,
                );
            }
            let p: u64 = self.n_out * from;
            let idx: u64 = p / to;
            let phase: u64 = p % to;
            assert(phase < to);
            let previous: u64 = if idx == 0 {
                0
            } else {
                idx - 1
            };
            assert(held(idx - 1, self.n_in as int) == held(previous as int, self.n_in as int));
            let s0: T = self.at(previous, last);
            let s1: T = self.at(idx, last);
            let s2: T = self.at(idx + 1, last);
            let s3: T = self.at(idx + 2, last);
            out.push(Taps { s0, s1, s2, s3, phase: phase as u32, to_rate: self.to_rate });
            self.n_out = self.n_out + 1;
        }
        proof {
            if self.n_out > 0 {
                lemma_output_fits(
                    self.n_out - 1,
                    self.n_in as int,
                    self.from_rate,
                    self.to_rate,
                );
            }
            lemma_source_grows(
                before.n_out as int,
                self.n_out as int,
                self.from_rate,
                self.to_rate,
            );
        }
        self.prune();
        out
    }
}

proof fn lemma_source_grows(a: int, b: int, from_rate: u32, to_rate: u32)
    requires
        0 <= a <= b,
        from_rate > 0,
        to_rate > 0,
    ensures
        source_index(a, from_rate, to_rate) <= source_index(b, from_rate, to_rate),
{
    let f = from_rate as int;
    let t = to_rate as int;
    assert(a * f <= b * f) by (nonlinear_arith)
        requires
            a <= b,
            f > 0,
    ;
    assert((a * f) / t <= (b * f) / t) by (nonlinear_arith)
        requires
            a * f <= b * f,
            t > 0,
    ;
}

/// However a stream is cut into chunks, as many outputs come of it: those of a first
/// chunk and those of the rest are those of the whole.
pub proof fn chunks_add_up(first: int, second: int, from_rate: u32, to_rate: u32)
    requires
        0 <= first,
        0 <= second,
        from_rate > 0,
        to_rate > 0,
    ensures
        ({
            let early = emittable(first, from_rate, to_rate);
            let late = emittable(first + second, from_rate, to_rate) - early;
            &&& early >= 0
            &&& late >= 0
            &&& early + late == emittable(first + second, from_rate, to_rate)
        }),
{
    lemma_emittable_grows(first, first + second, from_rate, to_rate);
}

/// How many outputs a series of chunks gives, each fed to the state that the one before
/// has left.
pub open spec fn outputs_of<T: Copy>(
    states: Seq<StreamingResampler<T>>,
    chunks: Seq<Seq<T>>,
) -> int
    decreases chunks.len(),
{
    if chunks.len() == 0 {
        0
    } else {
        outputs_of(states, chunks.drop_last()) + states[chunks.len() - 1].pending(
            chunks.last().len() as int,
        )
    }
}

/// How many samples a series of chunks has.
pub open spec fn samples_of<T>(chunks: Seq<Seq<T>>) -> int
    decreases chunks.len(),
{
    if chunks.len() == 0 {
        0
    } else {
        samples_of(chunks.drop_last()) + chunks.last().len()
    }
}

/// However the input is cut into chunks, a resampler that starts afresh gives as many
/// outputs in all: none for no input, else `(n - 1) * to_rate / from_rate + 1` for `n`
/// samples.
pub proof fn any_cut_gives_as_many<T: Copy>(
    states: Seq<StreamingResampler<T>>,
    chunks: Seq<Seq<T>>,
)
    requires
        states.len() == chunks.len() + 1,
        states[0].wf(),
        states[0].history@.len() == 0,
        forall|i: int|
            0 <= i < chunks.len() ==> (#[trigger] states[i]).fed(chunks[i], states[i + 1]),
    ensures
        ({
            let n = samples_of(chunks);
            let from = states[0].from_rate;
            let to = states[0].to_rate;
            let all = outputs_of(states, chunks);
            &&& n == 0 ==> all == 0
            &&& n > 0 ==> all == (n - 1) * to / from as int + 1
            &&& all == states.last().n_out
            &&& n == states.last().n_in
            &&& states.last().wf() && states.last().from_rate == from && states.last().to_rate == to
        }),
    decreases chunks.len(),
{
    if chunks.len() > 0 {
        let k = chunks.len() - 1;
        let front = chunks.drop_last();
        let seen = states.drop_last();
        assert forall|i: int| 0 <= i < front.len() implies (#[trigger] seen[i]).fed(
            front[i],
            seen[i + 1],
        ) by {
            assert(states[i].fed(chunks[i], states[i + 1]));
        }
        any_cut_gives_as_many(seen, front);
        lemma_same_outputs(states, seen, front);
        assert(states[k].fed(chunks[k], states[k + 1]));
        assert(seen.last() == states[k]);
    }
}

proof fn lemma_same_outputs<T: Copy>(
    states: Seq<StreamingResampler<T>>,
    seen: Seq<StreamingResampler<T>>,
    chunks: Seq<Seq<T>>,
)
    requires
        chunks.len() < seen.len() <= states.len(),
        forall|i: int| 0 <= i < seen.len() ==> #[trigger] seen[i] == states[i],
    ensures
        outputs_of(states, chunks) == outputs_of(seen, chunks),
    decreases chunks.len(),
{
    if chunks.len() > 0 {
        lemma_same_outputs(states, seen, chunks.drop_last());
        assert(seen[chunks.len() - 1] == states[chunks.len() - 1]);
    }
}

/// In the long run there are `to_rate` outputs for each `from_rate` samples: the
/// position after the last output is past the last sample, by less than a step.
pub proof fn output_follows_ratio(n_in: int, from_rate: u32, to_rate: u32)
    requires
        n_in > 0,
        from_rate > 0,
        to_rate > 0,
    ensures
        ({
            let n_out = emittable(n_in, from_rate, to_rate);
            &&& (n_in - 1) * to_rate < n_out * from_rate
            &&& n_out * from_rate <= (n_in - 1) * to_rate + from_rate
        }),
{
    let f = from_rate as int;
    let p = (n_in - 1) * to_rate;
    let q = p / f;
    assert(q * f <= p < q * f + f) by (nonlinear_arith)
        requires
            q == p / f,
            f > 0,
    ;
    assert((q + 1) * f == q * f + f) by (nonlinear_arith);
}

/// What comes later does not change an output, but for the samples ahead of it that
/// had not come in: the two samples before it and its phase are the same, and so are
/// the others as soon as they are there.
pub proof fn later_input_keeps_outputs<T>(
    input: Seq<T>,
    more: Seq<T>,
    n: int,
    from_rate: u32,
    to_rate: u32,
)
    requires
        from_rate > 0,
        to_rate > 0,
        0 <= n < emittable(input.len() as int, from_rate, to_rate),
    ensures
        ({
            let i = source_index(n, from_rate, to_rate);
            let early = taps_at(input, n, from_rate, to_rate);
            let late = taps_at(input + more, n, from_rate, to_rate);
            &&& early.s0 == late.s0
            &&& early.s1 == late.s1
            &&& early.phase == late.phase
            &&& i + 1 < input.len() ==> early.s2 == late.s2
            &&& i + 2 < input.len() ==> early.s3 == late.s3
        }),
{
    lemma_output_fits(n, input.len() as int, from_rate, to_rate);
}

/// At equal rates every sample comes out as it is.
pub proof fn equal_rates_pass_through<T>(input: Seq<T>, n: int, rate: u32)
    requires
        rate > 0,
        0 <= n < input.len(),
    ensures
        emittable(input.len() as int, rate, rate) == input.len(),
        taps_at(input, n, rate, rate).s1 == input[n],
        taps_at(input, n, rate, rate).phase == 0,
{
    let f = rate as int;
    let m = input.len() - 1;
    assert((m * f) / f == m) by (nonlinear_arith)
        requires
            f > 0,
    ;
    assert((n * f) / f == n && (n * f) % f == 0) by (nonlinear_arith)
        requires
            f > 0,
    ;
}

/// The taps of an output are the four consecutive samples around its position, which is
/// `n * from_rate / to_rate` for output `n`: the one at or before it is the second, and
/// the phase is what remains. Where there is no such sample, the nearest stands in: the
/// first before the start, and the newest after the end.
pub proof fn taps_are_neighbours<T>(input: Seq<T>, n: int, i: int, from_rate: u32, to_rate: u32)
    requires
        input.len() > 0,
        from_rate > 0,
        to_rate > 0,
        0 <= n,
        i * to_rate <= n * from_rate < (i + 1) * to_rate,
    ensures
        ({
            let t = taps_at(input, n, from_rate, to_rate);
            let len = input.len() as int;
            &&& i * to_rate + t.phase == n * from_rate
            &&& t.to_rate == to_rate
            &&& i < len ==> t.s1 == input[i]
            &&& 1 <= i && i + 2 < len ==> seq![t.s0, t.s1, t.s2, t.s3] =~= input.subrange(
                i - 1,
                i + 3,
            )
            &&& i == 0 ==> t.s0 == input[0]
            &&& 1 <= i <= len ==> t.s0 == input[i - 1]
            &&& i + 1 < len ==> t.s2 == input[i + 1]
            &&& i + 2 < len ==> t.s3 == input[i + 2]
            &&& i + 1 >= len ==> t.s2 == input.last()
            &&& i + 2 >= len ==> t.s3 == input.last()
            &&& i >= len ==> t.s1 == input.last()
        }),
{
    let p = n * from_rate;
    let d = to_rate as int;
    assert(p / d == i && p % d == p - i * d && i >= 0) by (nonlinear_arith)
        requires
            i * d <= p < (i + 1) * d,
            p >= 0,
            d > 0,
    ;
    assert(p >= 0) by (nonlinear_arith)
        requires
            p == n * from_rate,
            n >= 0,
            from_rate > 0,
    ;
}

/// An output comes out as soon as the sample at or after its position is there, and no
/// sooner: those whose position is not past the newest sample.
pub proof fn outputs_come_with_their_sample(n: int, n_in: int, from_rate: u32, to_rate: u32)
    requires
        from_rate > 0,
        to_rate > 0,
        0 <= n,
        0 <= n_in,
    ensures
        n < emittable(n_in, from_rate, to_rate) <==> n_in > 0 && n * from_rate <= (n_in - 1)
            * to_rate,
{
    if n_in > 0 {
        lemma_output_fits(n, n_in, from_rate, to_rate);
    }
}

/// A chunk gives the outputs that its samples make possible and that were not given
/// before: those of positions from the next one on, up to the newest sample.
pub proof fn chunk_gives_the_next_outputs<T: Copy>(
    before: StreamingResampler<T>,
    chunk: Seq<T>,
    after: StreamingResampler<T>,
)
    requires
        before.wf(),
        before.fed(chunk, after),
    ensures
        after.n_in == before.n_in + chunk.len(),
        after.n_out == before.n_out + before.pending(chunk.len() as int),
        before.pending(chunk.len() as int) >= 0,
        after.n_in > 0 ==> {
            &&& after.n_out >= 1
            &&& (after.n_out - 1) * before.from_rate <= (after.n_in - 1) * before.to_rate
            &&& after.n_out * before.from_rate > (after.n_in - 1) * before.to_rate
        },
{
    lemma_emittable_grows(
        before.n_in as int,
        before.n_in + chunk.len(),
        before.from_rate,
        before.to_rate,
    );
    if after.n_in > 0 {
        lemma_emittable_grows(1, after.n_in as int, before.from_rate, before.to_rate);
        assert(0int / (before.from_rate as int) == 0) by (nonlinear_arith)
            requires
                before.from_rate > 0,
        ;
        assert((1 - 1) * before.to_rate == 0);
        lemma_output_fits(
            after.n_out - 1,
            after.n_in as int,
            before.from_rate,
            before.to_rate,
        );
        lemma_output_fits(after.n_out as int, after.n_in as int, before.from_rate, before.to_rate);
    }
}

/// What a resampler keeps is enough: the samples that the next output needs before its
/// position are still there.
pub proof fn kept_samples_suffice<T: Copy>(r: StreamingResampler<T>)
    requires
        r.wf(),
        r.n_in > 0,
    ensures
        ({
            let next = r.n_out * r.from_rate / r.to_rate as int;
            &&& r.buf_start <= r.n_in - 1
            &&& r.buf_start == 0 || r.buf_start <= next - 1
            &&& r.buf@.len() == r.n_in - r.buf_start
            &&& r.buf@.last() == r.history@.last()
        }),
{
    lemma_output_fits(r.n_out as int, r.n_in as int, r.from_rate, r.to_rate);
}

/// The outputs of a chunk go on where those before it ended: each has the taps around its
/// own position among all samples so far.
pub proof fn outputs_go_on_where_they_ended<T: Copy>()
    ensures
        forall|s: &mut StreamingResampler<T>, input: &[T], r: Vec<Taps<T>>| #[trigger]
            call_ensures(StreamingResampler::<T>::process, (s, input), r) && s.wf() && s.has_room(
                input@.len() as int,
            ) ==> {
                &&& final(s).history@ == s.history@ + input@
                &&& final(s).n_in == s.n_in + input@.len()
                &&& final(s).n_out == s.n_out + r@.len()
                &&& final(s).from_rate == s.from_rate
                &&& final(s).to_rate == s.to_rate
                &&& forall|k: int|
                    0 <= k < r@.len() ==> #[trigger] r@[k] == taps_at(
                        s.history@ + input@,
                        s.n_out + k,
                        s.from_rate,
                        s.to_rate,
                    )
            },
        forall|s: &mut StreamingResampler<T>| #[trigger]
            call_ensures(StreamingResampler::<T>::reset, (s,), ()) && s.from_rate > 0 && s.to_rate
                > 0 ==> final(s).history@.len() == 0 && final(s).n_in == 0 && final(s).n_out == 0
                && final(s).from_rate == s.from_rate && final(s).to_rate == s.to_rate,
        forall|s: &mut StreamingResampler<T>, from: u32, to: u32| #[trigger]
            call_ensures(StreamingResampler::<T>::set_rates, (s, from, to), ()) && s.wf() && from
                > 0 && to > 0 ==> {
                &&& final(s).from_rate == from
                &&& final(s).to_rate == to
                &&& from == s.from_rate && to == s.to_rate ==> final(s).history@ == s.history@
                    && final(s).n_out == s.n_out
                &&& from != s.from_rate || to != s.to_rate ==> final(s).history@.len() == 0
            },
{
}

/// A whole recording gives as many outputs as its length lasts at the new rate, the last
/// one begun counted in.
pub proof fn resampled_length_covers_the_recording()
    ensures
        forall|n: usize, from: u32, to: u32, r: usize| #[trigger]
            call_ensures(resampled_len, (n, from, to), r) && from > 0 && n * to <= u64::MAX && (n
                * to + from - 1) / from as int <= usize::MAX ==> n * to <= r * from < n * to + from,
{
    assert forall|n: usize, from: u32, to: u32, r: usize| #[trigger]
        call_ensures(resampled_len, (n, from, to), r) && from > 0 && n * to <= u64::MAX && (n * to
            + from - 1) / from as int <= usize::MAX implies n * to <= r * from < n * to + from by {
        let x = n * to;
        let d = from as int;
        let q = (x + d - 1) / d;
        assert(r == q);
        assert(x <= q * d < x + d) by (nonlinear_arith)
            requires
                q == (x + d - 1) / d,
                d > 0,
                x >= 0,
        ;
    }
}

} // verus!
