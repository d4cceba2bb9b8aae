use vstd::prelude::*;
use ringbuf::traits::Consumer;
use crate::engine::track::seal_partial_frame;

verus! {

/// The reading end of a track's sample ring buffer, which the track's
/// decoder thread fills.
#[verifier::external_body]
#[verifier::reject_recursive_types(T)]
pub struct RingReader<T> {
    pub consumer: ringbuf::HeapCons<T>,
}

/// Takes the eldest sample out of the ring buffer (`ringbuf`'s
/// `Consumer::try_pop` on the caching consumer): `None` when the buffer is
/// empty at that moment. What comes out depends on the decoder thread that
/// fills the buffer, so nothing is promised of it.
#[verifier::external_body]
fn pop_raw<T>(reader: &mut RingReader<T>) -> Option<T> {
    reader.consumer.try_pop()
}

/// A track's sample ring buffer, as the engine reads it. Its view is the log
/// of what every pop through it returned, in order: the samples taken, and
/// `None` for each time it was found empty.
#[verifier::reject_recursive_types(T)]
pub struct SampleQueue<T> {
    reader: RingReader<T>,
    taken: Ghost<Seq<Option<T>>>,
}

impl<T> View for SampleQueue<T> {
    type V = Seq<Option<T>>;

    closed spec fn view(&self) -> Seq<Option<T>> {
        self.taken@
    }
}

/// A read of the ring buffer into `dst`, from `before_dst` to `after_dst`,
/// with the pop log going from `before_log` to `after_log`: `written`
/// samples (at most `needed`) were popped, all of them `Some`, followed by
/// one `None` when the buffer ran dry first; the `n` whole frames among them
/// are placed at the front of `dst` in the order they were popped, the
/// samples of a trailing partial frame become `silence`, and `dst` from
/// `written` on is untouched.
pub open spec fn read_into<T>(
    before_dst: Seq<T>,
    after_dst: Seq<T>,
    before_log: Seq<Option<T>>,
    after_log: Seq<Option<T>>,
    needed: int,
    channels: int,
    silence: T,
    n: int,
    written: int,
) -> bool {
    let start = before_log.len() as int;
    &&& 0 <= written <= needed
    &&& n == written / channels
    &&& after_log.len() == start + written + if written < needed { 1int } else { 0int }
    &&& after_log.subrange(0, start) == before_log
    &&& forall|i: int| 0 <= i < written ==> (#[trigger] after_log[start + i]) is Some
    &&& written < needed ==> after_log[start + written] is None
    &&& after_dst.len() == before_dst.len()
    &&& forall|i: int| 0 <= i < n * channels ==> #[trigger] after_dst[i] == after_log[start + i]->Some_0
    &&& forall|i: int| n * channels <= i < written ==> #[trigger] after_dst[i] == silence
    &&& forall|i: int| written <= i < before_dst.len() ==> #[trigger] after_dst[i] == before_dst[i]
}

impl<T> SampleQueue<T> {
    /// Starts reading `reader`, with an empty pop log.
    pub fn new(reader: RingReader<T>) -> (q: Self)
        ensures
            q@ == Seq::<Option<T>>::empty(),
    {
        SampleQueue { reader, taken: Ghost(Seq::empty()) }
    }

    /// Takes the eldest sample out of the buffer, `None` when it is empty;
    /// the outcome is appended to the log.
    pub fn try_pop(&mut self) -> (r: Option<T>)
        ensures
            final(self)@ == old(self)@.push(r),
    {
        let r = pop_raw(&mut self.reader);
        proof {
            self.taken@ = self.taken@.push(r);
        }
        r
    }

    /// Reads up to `frames` frames of `channels` interleaved samples into
    /// `dst`, popping until it has them or the buffer runs dry; a trailing
    /// partial frame is overwritten with `silence` (its samples are consumed),
    /// and the number of whole frames read is returned. Which samples arrive,
    /// and how many, is up to the decoder thread; the contract ties what is
    /// placed in `dst` to what was popped.
    pub fn read_interleaved(&mut self, dst: &mut [T], frames: usize, channels: usize, silence: T) -> (n: usize)
        where
            T: Copy,
        requires
            channels > 0,
            frames * channels <= old(dst)@.len(),
        ensures
            n <= frames,
            exists|written: int| #[trigger] read_into(
                old(dst)@, final(dst)@, old(self)@, final(self)@,
                frames * channels, channels as int, silence, n as int, written,
            ),
    {
        let len = dst.len();
        assert(frames * channels <= len);
        let needed = frames * channels;
        let ghost start = self@.len() as int;
        let mut written: usize = 0;
        let mut dry = false;
        while written < needed && !dry
            invariant
                needed == frames * channels,
                needed <= old(dst)@.len(),
                written <= needed,
                start == old(self)@.len(),
                dst@.len() == old(dst)@.len(),
                self@.len() == start + written + if dry { 1int } else { 0int },
                self@.subrange(0, start) == old(self)@,
                forall|i: int| 0 <= i < written ==> (#[trigger] self@[start + i]) is Some,
                dry ==> written < needed && self@[start + written] is None,
                forall|i: int| 0 <= i < written ==> #[trigger] dst@[i] == self@[start + i]->Some_0,
                forall|i: int| written <= i < dst@.len() ==> #[trigger] dst@[i] == old(dst)@[i],
            decreases needed - written + if dry { 0int } else { 1int },
        {
            let ghost log = self@;
            let r = self.try_pop();
            assert(self@.subrange(0, start) =~= log.subrange(0, start));
            match r {
                Some(s) => {
                    dst[written] = s;
                    written = written + 1;
                },
                None => {
                    dry = true;
                },
            }
        }
        let ghost filled = dst@;
        let n = seal_partial_frame(dst, written, channels, silence);
        proof {
            assert(n * channels <= written) by (nonlinear_arith)
                requires n == written / channels, channels > 0;
            assert(n <= frames) by (nonlinear_arith)
                requires n == written / channels, channels > 0, written <= frames * channels;
            assert(dry <==> written < needed);
            assert forall|i: int| 0 <= i < n * channels implies #[trigger] dst@[i] == self@[start + i]->Some_0 by {
                assert(dst@[i] == filled[i]);
            }
            assert(read_into(old(dst)@, dst@, old(self)@, self@, frames * channels, channels as int, silence, n as int, written as int));
        }
        n
    }
}

} // verus!
