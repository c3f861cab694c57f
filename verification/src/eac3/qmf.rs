//! History of a quadrature mirror filter bank.
//!
//! A filter works on a window of the most recent samples. The window lies in a
//! ring that is stored twice, one copy behind the other, so that it is always
//! contiguous: a step moves the head back and writes the new samples to both
//! copies, and nothing else is moved. `S` is the type of a sample.

use vstd::arithmetic::div_mod::{
    lemma_fundamental_div_mod, lemma_mod_add_multiples_vanish, lemma_mod_sub_multiples_vanish,
    lemma_small_mod,
};
use vstd::prelude::*;
use vstd::slice::slice_subrange;

verus! {

/// Samples that the analysis takes at once.
pub const FORWARD_STEP: usize = 64;

/// Samples that the analysis works on.
pub const FORWARD_WINDOW: usize = 640;

/// Samples that the synthesis takes at once.
pub const INVERSE_STEP: usize = 128;

/// Samples that the synthesis works on.
pub const INVERSE_WINDOW: usize = 1280;

/// How much later than its input the output of analysis and synthesis comes,
/// in samples.
pub const QMF_RECONSTRUCTION_DELAY: usize = 577;

/// The head of a ring of `len` places, moved back by `step`.
pub open spec fn moved_head(head: int, step: int, len: int) -> int {
    if head >= step {
        head - step
    } else {
        len + head - step
    }
}

/// Moves the head of a ring of `len` places back by `step`.
pub fn wrap_ring_head(head: usize, step: usize, len: usize) -> (moved: usize)
    requires
        head < step ==> len + head - step >= 0 && len + head <= usize::MAX,
    ensures
        moved == moved_head(head as int, step as int, len as int),
{
    if head >= step {
        head - step
    } else {
        len + head - step
    }
}

/// A head that is moved back stays in its ring, at the place that lies `step`
/// before it around the ring.
pub proof fn moved_head_stays_in_the_ring(head: int, step: int, len: int)
    requires
        0 <= head < len,
        0 < step <= len,
    ensures
        0 <= moved_head(head, step, len) < len,
        moved_head(head, step, len) == (head + len - step) % len,
{
    if head >= step {
        lemma_mod_add_multiples_vanish(head - step, len);
        lemma_small_mod((head - step) as nat, len as nat);
    } else {
        lemma_small_mod((len + head - step) as nat, len as nat);
    }
}

/// A ring of `len` samples that is stored twice and moved on by `step` samples
/// at a time.
#[derive(Debug)]
pub struct MirrorRing<S> {
    storage: Vec<S>,
    head: usize,
    step: usize,
    len: usize,
}

impl<S: Copy> MirrorRing<S> {
    /// The samples in the ring, the newest first.
    pub closed spec fn window(&self) -> Seq<S> {
        self.storage@.subrange(self.head as int, self.head + self.len)
    }

    /// Number of samples in the ring.
    pub closed spec fn length(&self) -> int {
        self.len as int
    }

    /// Number of samples in a step.
    pub closed spec fn stride(&self) -> int {
        self.step as int
    }

    /// The two copies agree, and the head stands at a step.
    pub closed spec fn wf(&self) -> bool {
        &&& 0 < self.step <= self.len <= usize::MAX / 2
        &&& self.len as int % self.step as int == 0
        &&& self.head as int % self.step as int == 0
        &&& self.head < self.len
        &&& self.storage@.len() == 2 * self.len
        &&& forall|place: int|
            0 <= place < self.len ==> #[trigger] self.storage@[place] == self.storage@[place
                + self.len]
    }

    /// A ring has a whole window.
    pub proof fn wf_window(&self)
        requires
            self.wf(),
        ensures
            self.window().len() == self.length(),
            0 < self.stride() <= self.length(),
    {
    }

    /// A ring of `len` samples of `silence`.
    pub fn new(len: usize, step: usize, silence: S) -> (ring: Self)
        requires
            0 < step <= len <= usize::MAX / 2,
            len as int % step as int == 0,
        ensures
            ring.wf(),
            ring.length() == len,
            ring.stride() == step,
            forall|place: int| 0 <= place < len ==> #[trigger] ring.window()[place] == silence,
    {
        let mut storage: Vec<S> = Vec::new();
        while storage.len() < 2 * len
            invariant
                storage@.len() <= 2 * len,
                len <= usize::MAX / 2,
                forall|place: int| 0 <= place < storage@.len() ==> storage@[place] == silence,
            decreases 2 * len - storage@.len(),
        {
            storage.push(silence);
        }
        proof {
            lemma_small_mod(0, step as nat);
        }
        MirrorRing { storage, head: 0, step, len }
    }

    /// Takes one step: the samples of `block` come before those in the ring,
    /// whose oldest ones leave it.
    pub fn push(&mut self, block: &[S])
        requires
            old(self).wf(),
            block@.len() == old(self).stride(),
        ensures
            final(self).wf(),
            final(self).length() == old(self).length(),
            final(self).stride() == old(self).stride(),
            final(self).window() == block@ + old(self).window().take(
                old(self).length() - old(self).stride(),
            ),
    {
        let step: usize = self.step;
        let len: usize = self.len;
        let ghost before = self.storage@;
        let ghost head = self.head as int;
        proof {
            lemma_head_steps(head, step as int, len as int);
        }
        self.head = wrap_ring_head(self.head, step, len);
        let first: usize = self.head;
        let mut offset: usize = 0;
        while offset < step
            invariant
                offset <= step <= len <= usize::MAX / 2,
                step == block@.len(),
                first == self.head,
                step == self.step,
                len == self.len,
                0 <= first <= len - step,
                self.storage@.len() == 2 * len,
                forall|place: int|
                    0 <= place < 2 * len ==> #[trigger] self.storage@[place] == if first <= place
                        < first + offset {
                        block@[place - first]
                    } else if first + len <= place < first + len + offset {
                        block@[place - first - len]
                    } else {
                        before[place]
                    },
                before.len() == 2 * len,
            decreases step - offset,
        {
            self.storage[first + offset] = block[offset];
            self.storage[first + offset + len] = block[offset];
            offset = offset + 1;
        }
        proof {
            let after = self.storage@;
            assert forall|place: int| 0 <= place < len implies #[trigger] after[place]
                == after[place + len] by {
                assert(before[place] == before[place + len]);
            }
            let expected = block@ + old(self).window().take(len - step);
            assert(self.window().len() == expected.len());
            assert forall|index: int| 0 <= index < len implies #[trigger] self.window()[index]
                == expected[index] by {
                assert(self.window()[index] == after[first + index]);
                if index >= step {
                    assert(expected[index] == before[head + (index - step)]);
                    if head < step {
                        assert(before[index - step] == before[index - step + len]);
                    }
                }
            }
            assert(self.window() =~= expected);
        }
    }

    /// The samples in the ring, the newest first.
    pub fn samples(&self) -> (window: &[S])
        requires
            self.wf(),
        ensures
            window@ == self.window(),
    {
        slice_subrange(self.storage.as_slice(), self.head, self.head + self.len)
    }
}

/// A head at a step that is moved back by a step stays at a step, with a whole
/// step behind it.
proof fn lemma_head_steps(head: int, step: int, len: int)
    requires
        0 < step <= len,
        len % step == 0,
        head % step == 0,
        0 <= head < len,
    ensures
        0 <= moved_head(head, step, len) <= len - step,
        moved_head(head, step, len) % step == 0,
        head < step ==> head == 0,
        head >= step ==> head + step <= len,
{
    if head < step {
        lemma_small_mod(head as nat, step as nat);
        lemma_mod_sub_multiples_vanish(len, step);
    } else {
        lemma_mod_sub_multiples_vanish(head, step);
        lemma_fundamental_div_mod(head, step);
        lemma_fundamental_div_mod(len, step);
        let a = head / step;
        let b = len / step;
        assert(a < b) by (nonlinear_arith)
            requires
                step > 0,
                head == step * a,
                len == step * b,
                head < len,
        ;
        assert(step * a + step <= step * b) by (nonlinear_arith)
            requires
                step > 0,
                a < b,
        ;
    }
}

/// `subbands` is what `analyse` makes of a window.
pub open spec fn analysed<S, B, A>(analyse: A, window: Seq<S>, subbands: B) -> bool where
    A: Fn(&[S]) -> B,
 {
    exists|samples: &[S]| samples@ == window && #[trigger] analyse.ensures((samples,), subbands)
}

/// `output` is what `gather` makes of a window.
pub open spec fn gathered<S, G, Y>(gather: Y, window: Seq<S>, gain: G, output: [S; 64]) -> bool where
    Y: Fn(&[S], &G) -> [S; 64],
 {
    exists|samples: &[S]|
        samples@ == window && #[trigger] gather.ensures((samples, &gain), output)
}

/// The histories of a filter bank.
#[derive(Debug)]
pub struct QuadratureMirrorFilterBank<S> {
    pub forward: MirrorRing<S>,
    pub inverse: MirrorRing<S>,
}

/// A bank has gone from `before` to `after` by the analysis of `input`.
pub open spec fn channel_analysed<S: Copy, B, A>(
    before: QuadratureMirrorFilterBank<S>,
    after: QuadratureMirrorFilterBank<S>,
    input: Seq<S>,
    analyse: A,
    subbands: B,
) -> bool where A: Fn(&[S]) -> B {
    &&& after.inverse == before.inverse
    &&& after.forward.window() == input.reverse() + before.forward.window().take(
        FORWARD_WINDOW - FORWARD_STEP,
    )
    &&& analysed(analyse, after.forward.window(), subbands)
}

impl<S: Copy> QuadratureMirrorFilterBank<S> {
    /// Both histories have the sizes of the bank.
    pub open spec fn wf(&self) -> bool {
        &&& self.forward.wf()
        &&& self.forward.length() == FORWARD_WINDOW
        &&& self.forward.stride() == FORWARD_STEP
        &&& self.inverse.wf()
        &&& self.inverse.length() == INVERSE_WINDOW
        &&& self.inverse.stride() == INVERSE_STEP
    }

    /// A bank that has seen nothing but silence.
    pub fn new(silence: S) -> (bank: Self)
        ensures
            bank.wf(),
            forall|place: int|
                0 <= place < FORWARD_WINDOW ==> #[trigger] bank.forward.window()[place] == silence,
            forall|place: int|
                0 <= place < INVERSE_WINDOW ==> #[trigger] bank.inverse.window()[place] == silence,
    {
        QuadratureMirrorFilterBank {
            forward: MirrorRing::new(FORWARD_WINDOW, FORWARD_STEP, silence),
            inverse: MirrorRing::new(INVERSE_WINDOW, INVERSE_STEP, silence),
        }
    }

    /// Takes the next input samples of the analysis, which come to stand in
    /// front of its window with the last one first.
    pub fn push_forward(&mut self, input: &[S])
        requires
            old(self).wf(),
            input@.len() == FORWARD_STEP,
        ensures
            final(self).wf(),
            final(self).inverse == old(self).inverse,
            final(self).forward.window() == input@.reverse() + old(self).forward.window().take(
                FORWARD_WINDOW - FORWARD_STEP,
            ),
    {
        let mut block: Vec<S> = Vec::new();
        let mut left: usize = input.len();
        while left > 0
            invariant
                left <= input@.len(),
                block@.len() == input@.len() - left,
                forall|index: int|
                    0 <= index < block@.len() ==> #[trigger] block@[index] == input@.reverse()[index],
            decreases left,
        {
            left = left - 1;
            block.push(input[left]);
        }
        assert(block@ =~= input@.reverse());
        self.forward.push(block.as_slice());
    }

    /// Takes the next samples of the synthesis, which come to stand in front of
    /// its window.
    pub fn push_inverse(&mut self, samples: &[S])
        requires
            old(self).wf(),
            samples@.len() == INVERSE_STEP,
        ensures
            final(self).wf(),
            final(self).forward == old(self).forward,
            final(self).inverse.window() == samples@ + old(self).inverse.window().take(
                INVERSE_WINDOW - INVERSE_STEP,
            ),
    {
        self.inverse.push(samples);
    }

    /// Takes the next input samples of the analysis and analyses its window.
    pub fn process_forward<B, A>(&mut self, input: &[S], analyse: &A) -> (subbands: B) where
        A: Fn(&[S]) -> B,

        requires
            old(self).wf(),
            input@.len() == FORWARD_STEP,
            forall|window: &[S]| #[trigger] analyse.requires((window,)),
        ensures
            final(self).wf(),
            channel_analysed(*old(self), *final(self), input@, *analyse, subbands),
    {
        self.push_forward(input);
        let window: &[S] = self.forward.samples();
        let subbands: B = analyse(window);
        assert(analyse.ensures((window,), subbands));
        subbands
    }

    /// Takes the next samples of the synthesis and turns its window into
    /// output.
    pub fn process_inverse<G, Y>(&mut self, samples: &[S; 128], gain: &G, gather: &Y) -> (output: [S;
        64]) where Y: Fn(&[S], &G) -> [S; 64]
        requires
            old(self).wf(),
            forall|window: &[S]| #[trigger] gather.requires((window, gain)),
        ensures
            final(self).wf(),
            final(self).forward == old(self).forward,
            final(self).inverse.window() == samples@ + old(self).inverse.window().take(
                INVERSE_WINDOW - INVERSE_STEP,
            ),
            gathered(*gather, final(self).inverse.window(), *gain, output),
    {
        self.push_inverse(samples.as_slice());
        let window: &[S] = self.inverse.samples();
        let output: [S; 64] = gather(window, gain);
        assert(gather.ensures((window, gain), output));
        output
    }
}

} // verus!
