//! Feeding prepared sound to an output device: each sample repeated for
//! every output channel, and output buffers filled from a cursor, with
//! silence once the sound is over.

use vstd::prelude::*;
use crate::transcript::{SampleDecoder, SampleFormat};

verus! {

/// `s` with every element repeated `times` times in place.
pub open spec fn repeat_each_spec<T>(s: Seq<T>, times: nat) -> Seq<T>
    decreases s.len(),
{
    if s.len() == 0 {
        seq![]
    } else {
        repeat_each_spec(s.drop_last(), times) + Seq::new(times, |_k: int| s.last())
    }
}

proof fn lemma_repeat_each_len<T>(s: Seq<T>, times: nat)
    ensures
        repeat_each_spec(s, times).len() == s.len() * times,
    decreases s.len(),
{
    if s.len() > 0 {
        lemma_repeat_each_len(s.drop_last(), times);
        assert((s.len() - 1) * times + times == s.len() * times) by (nonlinear_arith);
    }
}

/// Element `i * times + k` of the repeated sequence is `s[i]`.
pub proof fn law_repeat_each_index<T>(s: Seq<T>, times: nat, i: int, k: int)
    requires
        0 <= i < s.len(),
        0 <= k < times,
    ensures
        repeat_each_spec(s, times).len() == s.len() * times,
        repeat_each_spec(s, times)[i * times + k] == s[i],
    decreases s.len(),
{
    lemma_repeat_each_len(s, times);
    let t = s.drop_last();
    lemma_repeat_each_len(t, times);
    if i < s.len() - 1 {
        law_repeat_each_index(t, times, i, k);
        assert(i * times + k < t.len() * times) by (nonlinear_arith)
            requires
                i < t.len(),
                k < times,
        ;
        assert(s[i] == t[i]);
    } else {
        assert(i * times == t.len() * times);
    }
}

/// Every sample repeated once per output channel: a mono sound laid out
/// for a device with `channels` interleaved channels.
pub fn repeat_each<T: Copy>(samples: &Vec<T>, channels: usize) -> (r: Vec<T>)
    requires
        samples.len() * channels <= usize::MAX,
    ensures
        r@ == repeat_each_spec(samples@, channels as nat),
{
    let mut out: Vec<T> = Vec::new();
    let mut i: usize = 0;
    while i < samples.len()
        invariant
            i <= samples.len(),
            out@ == repeat_each_spec(samples@.take(i as int), channels as nat),
        decreases samples.len() - i,
    {
        let x = samples[i];
        let ghost before = out@;
        let mut k: usize = 0;
        while k < channels
            invariant
                k <= channels,
                out@ == before + Seq::new(k as nat, |_j: int| x),
            decreases channels - k,
        {
            out.push(x);
            assert(out@ =~= before + Seq::new((k + 1) as nat, |_j: int| x));
            k = k + 1;
        }
        proof {
            let t = samples@.take(i + 1);
            assert(t.drop_last() =~= samples@.take(i as int));
            assert(t.last() == x);
            assert(Seq::new(channels as nat, |_j: int| x) =~= Seq::new(
                channels as nat,
                |_j: int| t.last(),
            ));
        }
        i = i + 1;
    }
    assert(samples@.take(samples.len() as int) =~= samples@);
    out
}

/// Fills the output buffer `out` with the samples from position `pos`
/// onwards, and with `silence` after the last sample; gives the position
/// to continue from.
pub fn fill_output<T: Copy>(out: &mut [T], samples: &Vec<T>, pos: usize, silence: T) -> (next:
    usize)
    requires
        pos <= samples.len(),
    ensures
        final(out)@.len() == old(out)@.len(),
        forall|k: int|
            0 <= k < old(out)@.len() ==> #[trigger] final(out)@[k] == if pos + k < samples.len() {
                samples@[pos + k]
            } else {
                silence
            },
        next == if pos + old(out)@.len() < samples.len() {
            pos + old(out)@.len()
        } else {
            samples.len() as int
        },
{
    let n = out.len();
    let mut idx = pos;
    let mut k: usize = 0;
    while k < n
        invariant
            n == out@.len() == old(out)@.len(),
            k <= n,
            pos <= samples.len(),
            idx == if pos + k < samples.len() {
                pos + k
            } else {
                samples.len() as int
            },
            forall|j: int|
                0 <= j < k ==> #[trigger] out@[j] == if pos + j < samples.len() {
                    samples@[pos + j]
                } else {
                    silence
                },
        decreases n - k,
    {
        if idx < samples.len() {
            out[k] = samples[idx];
            idx = idx + 1;
        } else {
            out[k] = silence;
        }
        k = k + 1;
    }
    idx
}

/// How the samples of a WAV file are read for playback: 16-bit integers or
/// floating point; any other file is not played.
pub fn playback_decoder(format: SampleFormat, bits_per_sample: u16) -> (r: Option<SampleDecoder>)
    ensures
        r == match format {
            SampleFormat::Float => Some(SampleDecoder::Float32),
            SampleFormat::Int => if bits_per_sample == 16 {
                Some(SampleDecoder::Int16)
            } else {
                None
            },
        },
{
    match format {
        SampleFormat::Float => Some(SampleDecoder::Float32),
        SampleFormat::Int => {
            if bits_per_sample == 16 {
                Some(SampleDecoder::Int16)
            } else {
                None
            }
        },
    }
}

} // verus!
