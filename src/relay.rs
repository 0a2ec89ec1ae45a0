//! The bus-to-host direction of the relay: a framer that resynchronises on a
//! two-byte preamble and hands on only whole frames.
//!
//! Bytes are taken one at a time. The first two bytes of a frame must be the
//! preamble. A byte that breaks it discards what was gathered and is itself
//! the new first-byte candidate: it is kept if it is the preamble's first
//! byte and dropped otherwise. Resync thus moves one byte at a time; it never
//! searches ahead for the next preamble.
use vstd::prelude::*;

verus! {

/// First byte of a frame.
pub const PREAMBLE_0: u8 = 0xAA;

/// Second byte of a frame.
pub const PREAMBLE_1: u8 = 0x55;

/// Length of a frame on the boards that relay responses, preamble included.
pub const FRAME_LEN: usize = 11;

pub open spec fn preamble() -> Seq<u8> {
    seq![PREAMBLE_0, PREAMBLE_1]
}

/// One byte into the framer: what it holds afterwards, and the frame it emits, if any.
pub open spec fn framer_step(acc: Seq<u8>, b: u8, frame_len: nat) -> (Seq<u8>, Option<Seq<u8>>) {
    if acc.len() < 2 && b != preamble()[acc.len() as int] {
        if b == PREAMBLE_0 {
            (seq![b], None)
        } else {
            (Seq::empty(), None)
        }
    } else {
        let next = acc.push(b);
        if next.len() >= frame_len {
            (Seq::empty(), Some(next))
        } else {
            (next, None)
        }
    }
}

/// A run of bytes into the framer: what it holds afterwards, and the frames it emits, in order.
pub open spec fn framer_run(acc: Seq<u8>, input: Seq<u8>, frame_len: nat) -> (Seq<u8>, Seq<Seq<u8>>)
    decreases input.len(),
{
    if input.len() == 0 {
        (acc, Seq::empty())
    } else {
        let (held, frames) = framer_run(acc, input.drop_last(), frame_len);
        let (next, emitted) = framer_step(held, input.last(), frame_len);
        (
            next,
            match emitted {
                Some(f) => frames.push(f),
                None => frames,
            },
        )
    }
}

/// The frames a step emits, as a sequence of zero or one.
pub open spec fn emitted_frames(e: Option<Seq<u8>>) -> Seq<Seq<u8>> {
    match e {
        Some(f) => seq![f],
        None => Seq::empty(),
    }
}

/// Whether a chunk read whole starts with the preamble.
pub fn has_preamble(chunk: &[u8]) -> (r: bool)
    ensures
        r == (chunk@.len() >= 2 && chunk@[0] == PREAMBLE_0 && chunk@[1] == PREAMBLE_1),
{
    chunk.len() >= 2 && chunk[0] == PREAMBLE_0 && chunk[1] == PREAMBLE_1
}

/// The resynchronising framer, with the activity indicator it toggles once per frame.
pub struct Framer {
    buf: Vec<u8>,
    frame_len: usize,
    activity: bool,
}

impl Framer {
    /// The bytes gathered towards the next frame.
    pub closed spec fn held(&self) -> Seq<u8> {
        self.buf@
    }

    pub closed spec fn spec_frame_len(&self) -> nat {
        self.frame_len as nat
    }

    pub closed spec fn spec_activity(&self) -> bool {
        self.activity
    }

    /// Fewer bytes than a frame are held, and they begin as a frame must.
    pub closed spec fn wf(&self) -> bool {
        &&& 2 <= self.frame_len
        &&& self.buf@.len() < self.frame_len
        &&& self.buf@.len() >= 1 ==> self.buf@[0] == PREAMBLE_0
        &&& self.buf@.len() >= 2 ==> self.buf@[1] == PREAMBLE_1
    }

    /// An empty framer for frames of `frame_len` bytes, the indicator off.
    pub fn new(frame_len: usize) -> (r: Framer)
        requires
            2 <= frame_len,
        ensures
            r.wf(),
            r.held() == Seq::<u8>::empty(),
            r.spec_frame_len() == frame_len,
            !r.spec_activity(),
    {
        Framer { buf: Vec::new(), frame_len, activity: false }
    }

    /// The indicator level: it flips with each frame emitted.
    pub fn activity(&self) -> (r: bool)
        ensures
            r == self.spec_activity(),
    {
        self.activity
    }

    /// Takes one byte from the bus; gives a whole frame when this byte completes one.
    pub fn push(&mut self, byte: u8) -> (r: Option<Vec<u8>>)
        requires
            old(self).wf(),
        ensures
            final(self).wf(),
            final(self).spec_frame_len() == old(self).spec_frame_len(),
            r is None ==> framer_step(old(self).held(), byte, old(self).spec_frame_len()) == (final(self).held(), None::<Seq<u8>>),
            r matches Some(f) ==> framer_step(old(self).held(), byte, old(self).spec_frame_len()) == (final(self).held(), Some(f@)),
            final(self).spec_activity() == (old(self).spec_activity() != r is Some),
            r matches Some(f) ==> f@.len() == old(self).spec_frame_len() && f@[0] == PREAMBLE_0 && f@[1] == PREAMBLE_1,
    {
        let n = self.buf.len();
        if n < 2 {
            let expected: u8 = if n == 0 {
                PREAMBLE_0
            } else {
                PREAMBLE_1
            };
            if byte != expected {
                self.buf = Vec::new();
                if byte == PREAMBLE_0 {
                    self.buf.push(byte);
                    assert(self.buf@ =~= seq![byte]);
                } else {
                    assert(self.buf@ =~= Seq::<u8>::empty());
                }
                return None;
            }
        }
        self.buf.push(byte);
        if self.buf.len() >= self.frame_len {
            let mut frame: Vec<u8> = Vec::new();
            std::mem::swap(&mut frame, &mut self.buf);
            self.activity = !self.activity;
            assert(self.buf@ =~= Seq::<u8>::empty());
            Some(frame)
        } else {
            None
        }
    }
}

/// Feeding one byte and then a run is feeding the whole run.
pub proof fn lemma_run_prepend(acc: Seq<u8>, b: u8, rest: Seq<u8>, n: nat)
    ensures
        ({
            let (held, first) = framer_step(acc, b, n);
            let (after, frames) = framer_run(held, rest, n);
            framer_run(acc, seq![b] + rest, n) == (after, emitted_frames(first) + frames)
        }),
    decreases rest.len(),
{
    let input = seq![b] + rest;
    let (held, first) = framer_step(acc, b, n);
    if rest.len() == 0 {
        assert(input.drop_last() =~= Seq::<u8>::empty());
        assert(input.last() == b);
        assert(framer_run(acc, input.drop_last(), n) == (acc, Seq::<Seq<u8>>::empty()));
        assert(framer_run(held, rest, n) == (held, Seq::<Seq<u8>>::empty()));
        match first {
            Some(f) => {
                assert(Seq::<Seq<u8>>::empty().push(f) =~= emitted_frames(first) + Seq::<Seq<u8>>::empty());
            },
            None => {
                assert(Seq::<Seq<u8>>::empty() =~= emitted_frames(first) + Seq::<Seq<u8>>::empty());
            },
        }
    } else {
        lemma_run_prepend(acc, b, rest.drop_last(), n);
        assert(input.drop_last() =~= seq![b] + rest.drop_last());
        assert(input.last() == rest.last());
        let (h2, fs2) = framer_run(held, rest.drop_last(), n);
        assert(framer_run(acc, input.drop_last(), n) == (h2, emitted_frames(first) + fs2));
        let (h3, e3) = framer_step(h2, rest.last(), n);
        match e3 {
            Some(f) => {
                assert((emitted_frames(first) + fs2).push(f) =~= emitted_frames(first) + fs2.push(f));
            },
            None => {},
        }
    }
}

/// The first `i` bytes of a frame that starts with the preamble are held and nothing is emitted.
proof fn lemma_clean_prefix(input: Seq<u8>, n: nat, i: nat)
    requires
        2 <= n,
        input.len() == n,
        input[0] == PREAMBLE_0,
        input[1] == PREAMBLE_1,
        i < n,
    ensures
        framer_run(Seq::empty(), input.take(i as int), n) == (input.take(i as int), Seq::<Seq<u8>>::empty()),
    decreases i,
{
    if i == 0 {
        assert(input.take(0) =~= Seq::<u8>::empty());
    } else {
        lemma_clean_prefix(input, n, (i - 1) as nat);
        let t = input.take(i as int);
        assert(t.drop_last() =~= input.take(i - 1));
        assert(t.last() == input[i - 1]);
        assert(input.take(i - 1).push(input[i - 1]) =~= t);
    }
}

/// From an empty framer, a frame that starts with the preamble is emitted
/// once, whole, when its last byte arrives, and the framer is empty again;
/// the indicator thus toggles exactly once.
pub proof fn clean_frame_emitted_once(input: Seq<u8>, n: nat)
    requires
        2 <= n,
        input.len() == n,
        input[0] == PREAMBLE_0,
        input[1] == PREAMBLE_1,
    ensures
        framer_run(Seq::empty(), input, n) == (Seq::<u8>::empty(), seq![input]),
{
    lemma_clean_prefix(input, n, (n - 1) as nat);
    assert(input.drop_last() =~= input.take(n - 1));
    assert(input.take(n - 1).push(input.last()) =~= input);
    assert(Seq::<Seq<u8>>::empty().push(input) =~= seq![input]);
}

/// A byte that cannot start a frame is dropped: from an empty framer, a stray
/// byte before a clean frame leaves exactly that frame emitted.
pub proof fn stray_byte_then_frame(stray: u8, input: Seq<u8>, n: nat)
    requires
        stray != PREAMBLE_0,
        2 <= n,
        input.len() == n,
        input[0] == PREAMBLE_0,
        input[1] == PREAMBLE_1,
    ensures
        framer_run(Seq::empty(), seq![stray] + input, n) == (Seq::<u8>::empty(), seq![input]),
{
    lemma_run_prepend(Seq::empty(), stray, input, n);
    clean_frame_emitted_once(input, n);
    assert(emitted_frames(None) + seq![input] =~= seq![input]);
}

/// A byte that breaks the preamble is itself a candidate first byte: from an
/// empty framer, a repeated first preamble byte before a clean frame still
/// leaves exactly that frame emitted.
pub proof fn repeated_first_byte_then_frame(input: Seq<u8>, n: nat)
    requires
        2 <= n,
        input.len() == n,
        input[0] == PREAMBLE_0,
        input[1] == PREAMBLE_1,
    ensures
        framer_run(Seq::empty(), seq![PREAMBLE_0] + input, n) == (Seq::<u8>::empty(), seq![input]),
{
    let rest = input.drop_first();
    assert(input =~= seq![PREAMBLE_0] + rest);
    lemma_run_prepend(Seq::empty(), PREAMBLE_0, input, n);
    lemma_run_prepend(seq![PREAMBLE_0], PREAMBLE_0, rest, n);
    lemma_run_prepend(Seq::empty(), PREAMBLE_0, rest, n);
    assert(Seq::<u8>::empty().push(PREAMBLE_0) =~= seq![PREAMBLE_0]);
    clean_frame_emitted_once(input, n);
    let (after, frames) = framer_run(seq![PREAMBLE_0], rest, n);
    assert(emitted_frames(None) + frames =~= frames);
}

} // verus!
