//! Sizing and extraction of the analysis window.

use vstd::prelude::*;

verus! {

/// The number of raw samples that one analysis window spans:
/// `ceil(sample_count * mix_rate / target_rate)`, and `0` where any of the
/// three is not positive.
pub open spec fn required_samples(sample_count: int, mix_rate: int, target_rate: int) -> int {
    if sample_count > 0 && mix_rate > 0 && target_rate > 0 {
        (sample_count * mix_rate + target_rate - 1) / target_rate
    } else {
        0
    }
}

/// A configured length as the length of a buffer: the length itself, and `0`
/// where it is negative or no buffer of that length can be addressed.
pub open spec fn addressable(n: int) -> int {
    if 0 <= n <= usize::MAX {
        n
    } else {
        0
    }
}

/// The capacity of the capture buffer for a configuration: the required
/// number of samples as the length of a buffer.
pub open spec fn capacity_for(sample_count: int, mix_rate: int, target_rate: int) -> int {
    addressable(required_samples(sample_count, mix_rate, target_rate))
}

/// `required_samples` is the least count whose duration at the target rate
/// covers `sample_count` samples at the mix rate.
pub proof fn lemma_required_samples_is_ceiling(sample_count: int, mix_rate: int, target_rate: int)
    requires
        sample_count > 0,
        mix_rate > 0,
        target_rate > 0,
    ensures
        required_samples(sample_count, mix_rate, target_rate) * target_rate >= sample_count
            * mix_rate,
        (required_samples(sample_count, mix_rate, target_rate) - 1) * target_rate < sample_count
            * mix_rate,
        required_samples(sample_count, mix_rate, target_rate) >= 1,
{
    let p = sample_count * mix_rate;
    let n = required_samples(sample_count, mix_rate, target_rate);
    assert(p >= 1) by (nonlinear_arith)
        requires
            p == sample_count * mix_rate,
            sample_count >= 1,
            mix_rate >= 1,
    ;
    vstd::arithmetic::div_mod::lemma_fundamental_div_mod(p + target_rate - 1, target_rate);
    vstd::arithmetic::div_mod::lemma_mod_bound(p + target_rate - 1, target_rate);
    assert(target_rate * n == n * target_rate) by (nonlinear_arith);
    assert((n - 1) * target_rate == n * target_rate - target_rate) by (nonlinear_arith);
    if n < 1 {
        assert(n * target_rate <= 0) by (nonlinear_arith)
            requires
                n <= 0,
                target_rate > 0,
        ;
    }
}

/// A configured length as the length of a buffer.
pub fn buffer_len(n: i64) -> (len: usize)
    ensures
        len == addressable(n as int),
{
    if n <= 0 {
        0
    } else if n as u64 <= usize::MAX as u64 {
        n as usize
    } else {
        0
    }
}

/// The length of a buffer of `rows` rows of `row_len` values each, and `0`
/// where no buffer of that length can be addressed.
pub fn table_len(rows: usize, row_len: usize) -> (len: usize)
    ensures
        len == addressable(rows * row_len),
{
    assert(0 <= rows * row_len <= 0xffff_ffff_ffff_ffff * 0xffff_ffff_ffff_ffff)
        by (nonlinear_arith)
        requires
            0 <= rows <= 0xffff_ffff_ffff_ffff,
            0 <= row_len <= 0xffff_ffff_ffff_ffff,
    ;
    let n: u128 = (rows as u128) * (row_len as u128);
    if n <= usize::MAX as u128 {
        n as usize
    } else {
        0
    }
}

/// Computes the capacity of the capture buffer from the profile's window
/// length, the host's mix rate and the profile's target rate.
pub fn input_sample_count(sample_count: i64, mix_rate: i64, target_sample_rate: i64) -> (n: usize)
    ensures
        n == capacity_for(sample_count as int, mix_rate as int, target_sample_rate as int),
{
    if sample_count <= 0 || mix_rate <= 0 || target_sample_rate <= 0 {
        return 0;
    }
    let w: u128 = sample_count as u128;
    let r: u128 = mix_rate as u128;
    let t: u128 = target_sample_rate as u128;
    assert(w * r <= 0x4000_0000_0000_0000_0000_0000_0000_0000) by (nonlinear_arith)
        requires
            0 < w <= 0x7fff_ffff_ffff_ffff,
            0 < r <= 0x7fff_ffff_ffff_ffff,
    ;
    let n: u128 = (w * r + (t - 1)) / t;
    if n <= usize::MAX as u128 {
        n as usize
    } else {
        0
    }
}

/// The slot of `len` samples from which output sample `i` of `out_len` is
/// taken: the samples are spread evenly, the first on the first.
pub open spec fn source_slot(i: int, len: int, out_len: int) -> int
    recommends
        0 <= i < out_len,
        len > 0,
{
    i * len / out_len
}

/// `out_len` samples taken from `samples` at even spacing. Where there is
/// nothing to take from, the result is silence.
pub open spec fn resampled<T>(samples: Seq<T>, out_len: nat, silence: T) -> Seq<T> {
    Seq::new(
        out_len,
        |i: int|
            if samples.len() == 0 {
                silence
            } else {
                samples[source_slot(i, samples.len() as int, out_len as int)]
            },
    )
}

/// `len` samples of silence.
pub open spec fn silent<T>(len: nat, silence: T) -> Seq<T> {
    Seq::new(len, |i: int| silence)
}

/// The source slot lies inside the samples, and later output samples are
/// never taken from earlier slots.
pub proof fn lemma_source_slot(i: int, j: int, len: int, out_len: int)
    requires
        0 <= i <= j < out_len,
        len > 0,
    ensures
        0 <= source_slot(i, len, out_len) <= source_slot(j, len, out_len) < len,
{
    assert(0 <= i * len <= j * len) by (nonlinear_arith)
        requires
            0 <= i <= j,
            len > 0,
    ;
    assert(j * len < out_len * len) by (nonlinear_arith)
        requires
            0 <= j < out_len,
            len > 0,
    ;
    vstd::arithmetic::div_mod::lemma_div_pos_is_pos(i * len, out_len);
    vstd::arithmetic::div_mod::lemma_div_is_ordered(i * len, j * len, out_len);
    vstd::arithmetic::div_mod::lemma_multiply_divide_lt(j * len, out_len, len);
}

/// Resampling to the length that the samples have keeps them as they are.
pub proof fn lemma_resampled_same_length<T>(samples: Seq<T>, silence: T)
    ensures
        resampled(samples, samples.len(), silence) == samples,
{
    let n = samples.len() as int;
    assert forall|i: int| 0 <= i < n implies source_slot(i, n, n) == i by {
        vstd::arithmetic::div_mod::lemma_div_multiples_vanish(i, n);
    }
    assert(resampled(samples, samples.len(), silence) =~= samples);
}

/// A vector of `len` copies of `value`.
pub fn filled<T: Copy>(len: usize, value: T) -> (v: Vec<T>)
    ensures
        v@ == silent(len as nat, value),
{
    let mut v: Vec<T> = Vec::new();
    let mut i: usize = 0;
    while i < len
        invariant
            i <= len,
            v@ == silent(i as nat, value),
        decreases len - i,
    {
        v.push(value);
        i += 1;
        assert(v@ =~= silent(i as nat, value));
    }
    v
}

/// A copy of `source`.
pub fn copied<T: Copy>(source: &Vec<T>) -> (v: Vec<T>)
    ensures
        v@ == source@,
{
    let mut v: Vec<T> = Vec::new();
    let mut i: usize = 0;
    while i < source.len()
        invariant
            i <= source.len(),
            v@ == source@.subrange(0, i as int),
        decreases source.len() - i,
    {
        v.push(source[i]);
        i += 1;
        assert(v@ =~= source@.subrange(0, i as int));
    }
    assert(v@ =~= source@);
    v
}

/// Takes `out_len` samples from `samples` at even spacing, which turns a
/// window captured at the mix rate into one at the target rate.
pub fn resample<T: Copy>(samples: &Vec<T>, out_len: usize, silence: T) -> (window: Vec<T>)
    ensures
        window@ == resampled(samples@, out_len as nat, silence),
{
    let len = samples.len();
    if len == 0 {
        let window = filled(out_len, silence);
        assert(window@ =~= resampled(samples@, out_len as nat, silence));
        return window;
    }
    let mut window: Vec<T> = Vec::new();
    let mut i: usize = 0;
    while i < out_len
        invariant
            i <= out_len,
            len == samples@.len(),
            len > 0,
            window@ == resampled(samples@, out_len as nat, silence).subrange(0, i as int),
        decreases out_len - i,
    {
        proof {
            lemma_source_slot(i as int, i as int, len as int, out_len as int);
            assert(i * len <= out_len * len) by (nonlinear_arith)
                requires
                    0 <= i < out_len,
                    len > 0,
            ;
            assert(out_len * len <= 0xffff_ffff_ffff_ffff * 0xffff_ffff_ffff_ffff)
                by (nonlinear_arith)
                requires
                    0 <= out_len <= 0xffff_ffff_ffff_ffff,
                    0 <= len <= 0xffff_ffff_ffff_ffff,
            ;
        }
        let slot: u128 = (i as u128) * (len as u128) / (out_len as u128);
        window.push(samples[slot as usize]);
        i += 1;
        assert(window@ =~= resampled(samples@, out_len as nat, silence).subrange(0, i as int));
    }
    assert(window@ =~= resampled(samples@, out_len as nat, silence));
    window
}

} // verus!
