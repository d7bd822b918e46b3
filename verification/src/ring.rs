//! The circular capture buffer.
//!
//! A ring of fixed capacity keeps the most recent samples of a stream. Its
//! mathematical model is the history: the samples it holds, oldest first.

use vstd::prelude::*;

verus! {

/// The samples of `slots` in the order in which they were written, oldest
/// first, where `cursor` is the slot written last.
pub open spec fn chronological<T>(slots: Seq<T>, cursor: int) -> Seq<T>
    recommends
        0 <= cursor < slots.len(),
{
    slots.subrange(cursor + 1, slots.len() as int) + slots.subrange(0, cursor + 1)
}

/// Every `stride`-th sample of `samples`, starting with the first.
pub open spec fn every_nth<T>(samples: Seq<T>, stride: int) -> Seq<T>
    recommends
        stride >= 1,
{
    Seq::new(((samples.len() + stride - 1) / stride) as nat, |k: int| samples[k * stride])
}

/// The history after `fresh` has been written behind `history`: the last
/// `history.len()` samples of the two in a row. A ring without capacity stays
/// empty.
pub open spec fn slide<T>(history: Seq<T>, fresh: Seq<T>) -> Seq<T> {
    if history.len() == 0 {
        history
    } else {
        (history + fresh).subrange(fresh.len() as int, (fresh.len() + history.len()) as int)
    }
}

/// `k` strides stay inside `len` samples exactly when `k` is less than the
/// number of samples that `every_nth` picks.
pub proof fn lemma_stride_count(len: int, stride: int, k: int)
    requires
        len >= 0,
        stride >= 1,
        k >= 0,
    ensures
        k * stride < len <==> k < (len + stride - 1) / stride,
        (len + stride - 1) / stride >= 0,
{
    let m = (len + stride - 1) / stride;
    vstd::arithmetic::div_mod::lemma_fundamental_div_mod(len + stride - 1, stride);
    vstd::arithmetic::div_mod::lemma_mod_bound(len + stride - 1, stride);
    assert(stride * m == m * stride) by (nonlinear_arith);
    if m < 0 {
        assert(m * stride <= -stride) by (nonlinear_arith)
            requires
                m <= -1,
                stride >= 1,
        ;
    }
    if k < m {
        assert(k * stride <= m * stride - stride) by (nonlinear_arith)
            requires
                k <= m - 1,
                stride >= 1,
        ;
    } else {
        assert(k * stride >= m * stride) by (nonlinear_arith)
            requires
                k >= m,
                stride >= 1,
        ;
    }
}

/// Writing one sample into the slot behind the cursor drops the oldest sample
/// of the history and appends the new one.
pub proof fn lemma_write_slides<T>(slots: Seq<T>, cursor: int, sample: T)
    requires
        0 <= cursor < slots.len(),
    ensures
        ({
            let next = if cursor + 1 == slots.len() {
                0
            } else {
                cursor + 1
            };
            chronological(slots.update(next, sample), next) == chronological(
                slots,
                cursor,
            ).drop_first().push(sample)
        }),
{
    let next = if cursor + 1 == slots.len() {
        0
    } else {
        cursor + 1
    };
    assert(chronological(slots.update(next, sample), next) =~= chronological(
        slots,
        cursor,
    ).drop_first().push(sample));
}

/// Sliding by one more sample drops the oldest and appends the new one.
pub proof fn lemma_slide_push<T>(history: Seq<T>, fresh: Seq<T>, sample: T)
    requires
        history.len() > 0,
    ensures
        slide(history, fresh.push(sample)) == slide(history, fresh).drop_first().push(sample),
{
    assert(slide(history, fresh.push(sample)) =~= slide(history, fresh).drop_first().push(sample));
}

/// Capturing in two parts is capturing the two in a row.
pub proof fn lemma_slide_twice<T>(history: Seq<T>, first: Seq<T>, second: Seq<T>)
    ensures
        slide(slide(history, first), second) == slide(history, first + second),
{
    assert(slide(slide(history, first), second) =~= slide(history, first + second));
}

/// Once at least as many samples as the ring holds were written, the history
/// is the tail of what was written: nothing older is left.
pub proof fn lemma_slide_forgets<T>(history: Seq<T>, fresh: Seq<T>)
    requires
        history.len() > 0,
        fresh.len() >= history.len(),
    ensures
        slide(history, fresh) == fresh.subrange(
            fresh.len() - history.len(),
            fresh.len() as int,
        ),
{
    assert(slide(history, fresh) =~= fresh.subrange(
        fresh.len() - history.len(),
        fresh.len() as int,
    ));
}

/// A ring that was filled with one value and has not been written round
/// yet holds that value in front of all that was written.
pub proof fn lemma_slide_partial_fill<T>(n: nat, fill: T, fresh: Seq<T>)
    requires
        fresh.len() <= n,
    ensures
        slide(Seq::new(n, |i: int| fill), fresh) == Seq::new(
            (n - fresh.len()) as nat,
            |i: int| fill,
        ) + fresh,
{
    assert(slide(Seq::new(n, |i: int| fill), fresh) =~= Seq::new(
        (n - fresh.len()) as nat,
        |i: int| fill,
    ) + fresh);
}

/// A circular buffer of a fixed number of samples with a write cursor.
pub struct RingBuffer<T> {
    data: Vec<T>,
    index: usize,
}

impl<T> View for RingBuffer<T> {
    type V = Seq<T>;

    /// The history: the samples held, oldest first.
    closed spec fn view(&self) -> Seq<T> {
        if self.data@.len() == 0 {
            Seq::empty()
        } else {
            chronological(self.data@, self.index as int)
        }
    }
}

impl<T> RingBuffer<T> {
    /// The cursor points into the buffer, and is `0` in a buffer without
    /// capacity.
    #[verifier::type_invariant]
    spec fn wf(&self) -> bool {
        if self.data@.len() == 0 {
            self.index == 0
        } else {
            self.index < self.data@.len()
        }
    }
}

impl<T: Copy> RingBuffer<T> {
    /// The slot that was written last.
    pub closed spec fn cursor(&self) -> int {
        self.index as int
    }

    /// A ring of `capacity` samples, each equal to `fill`.
    pub fn new(capacity: usize, fill: T) -> (ring: Self)
        ensures
            ring@ == Seq::new(capacity as nat, |i: int| fill),
            ring.cursor() == 0,
    {
        let mut data: Vec<T> = Vec::new();
        let mut i: usize = 0;
        while i < capacity
            invariant
                i <= capacity,
                data@ == Seq::new(i as nat, |j: int| fill),
            decreases capacity - i,
        {
            data.push(fill);
            i += 1;
        }
        let ring = RingBuffer { data, index: 0 };
        assert(ring@ =~= Seq::new(capacity as nat, |i: int| fill));
        ring
    }

    /// The number of samples the ring holds.
    pub fn capacity(&self) -> (n: usize)
        ensures
            n == self@.len(),
    {
        proof {
            use_type_invariant(self);
        }
        self.data.len()
    }

    /// The slot that was written last.
    pub fn index(&self) -> (c: usize)
        ensures
            c == self.cursor(),
            self@.len() == 0 ==> c == 0,
            self@.len() > 0 ==> c < self@.len(),
    {
        proof {
            use_type_invariant(self);
        }
        self.index
    }

    /// Writes every `channel_stride`-th sample of `samples`, starting with the
    /// first, each into the slot behind the cursor, which wraps at the end of
    /// the buffer. A ring without capacity is left as it is.
    pub fn capture(&mut self, samples: &[T], channel_stride: usize)
        requires
            channel_stride >= 1,
        ensures
            final(self)@ == slide(old(self)@, every_nth(samples@, channel_stride as int)),
            final(self).cursor() == if old(self)@.len() == 0 {
                0
            } else {
                (old(self).cursor() + every_nth(samples@, channel_stride as int).len()) % (old(
                    self,
                )@.len() as int)
            },
    {
        proof {
            use_type_invariant(&*self);
        }
        let n = self.data.len();
        if n == 0 {
            return ;
        }
        let len = samples.len();
        let ghost picked = every_nth(samples@, channel_stride as int);
        let ghost start = self.index as int;
        let ghost written: int = 0;
        let mut i: usize = 0;
        proof {
            lemma_stride_count(len as int, channel_stride as int, 0);
            assert(picked.subrange(0, 0) =~= Seq::<T>::empty());
            assert(self@ =~= slide(old(self)@, picked.subrange(0, 0)));
            vstd::arithmetic::div_mod::lemma_small_mod(start as nat, n as nat);
        }
        while i < len
            invariant
                n == self.data@.len(),
                n == old(self)@.len(),
                n > 0,
                self.index < n,
                0 <= start < n,
                len == samples@.len(),
                channel_stride >= 1,
                picked == every_nth(samples@, channel_stride as int),
                i <= len,
                0 <= written <= picked.len(),
                i < len ==> i == written * channel_stride,
                i == len ==> written == picked.len(),
                self@ == slide(old(self)@, picked.subrange(0, written)),
                self.index == (start + written) % (n as int),
            decreases len - i,
        {
            proof {
                lemma_stride_count(len as int, channel_stride as int, written);
                lemma_stride_count(len as int, channel_stride as int, written + 1);
                assert((written + 1) * channel_stride == written * channel_stride + channel_stride)
                    by (nonlinear_arith);
                lemma_write_slides(self.data@, self.index as int, samples@[i as int]);
                lemma_slide_push(old(self)@, picked.subrange(0, written), samples@[i as int]);
                assert(picked.subrange(0, written + 1) =~= picked.subrange(0, written).push(
                    samples@[i as int],
                ));
                lemma_cursor_step(start + written, n as int);
            }
            let next = if self.index + 1 == n {
                0
            } else {
                self.index + 1
            };
            self.data[next] = samples[i];
            self.index = next;
            proof {
                written = written + 1;
            }
            i = if len - i <= channel_stride {
                len
            } else {
                i + channel_stride
            };
        }
        proof {
            assert(picked.subrange(0, written) =~= picked);
        }
    }

    /// A copy of the history: the samples held, oldest first.
    pub fn snapshot(&self) -> (window: Vec<T>)
        ensures
            window@ == self@,
    {
        proof {
            use_type_invariant(self);
        }
        let n = self.data.len();
        let mut window: Vec<T> = Vec::new();
        if n == 0 {
            return window;
        }
        let first = self.index + 1;
        let mut i: usize = first;
        while i < n
            invariant
                n == self.data@.len(),
                first <= i <= n,
                window@ == self.data@.subrange(first as int, i as int),
            decreases n - i,
        {
            window.push(self.data[i]);
            i += 1;
            assert(self.data@.subrange(first as int, i as int) =~= self.data@.subrange(
                first as int,
                i - 1,
            ).push(self.data@[i - 1]));
        }
        let mut j: usize = 0;
        while j < first
            invariant
                n == self.data@.len(),
                j <= first <= n,
                window@ == self.data@.subrange(first as int, n as int) + self.data@.subrange(
                    0,
                    j as int,
                ),
            decreases first - j,
        {
            window.push(self.data[j]);
            j += 1;
            assert(self.data@.subrange(first as int, n as int) + self.data@.subrange(0, j as int)
                =~= (self.data@.subrange(first as int, n as int) + self.data@.subrange(
                0,
                j - 1,
            )).push(self.data@[j - 1]));
        }
        window
    }
}

/// Advancing a position by one slot in a ring of `n` slots.
pub proof fn lemma_cursor_step(position: int, n: int)
    requires
        position >= 0,
        n > 0,
    ensures
        (position + 1) % n == if position % n + 1 == n {
            0
        } else {
            position % n + 1
        },
{
    let q = position / n;
    let r = position % n;
    vstd::arithmetic::div_mod::lemma_fundamental_div_mod(position, n);
    vstd::arithmetic::div_mod::lemma_mod_bound(position, n);
    if r + 1 == n {
        assert(position + 1 == (q + 1) * n + 0) by (nonlinear_arith)
            requires
                position == n * q + r,
                r + 1 == n,
        ;
        vstd::arithmetic::div_mod::lemma_fundamental_div_mod_converse(position + 1, n, q + 1, 0);
    } else {
        assert(position + 1 == q * n + (r + 1)) by (nonlinear_arith)
            requires
                position == n * q + r,
        ;
        vstd::arithmetic::div_mod::lemma_fundamental_div_mod_converse(position + 1, n, q, r + 1);
    }
}

} // verus!
