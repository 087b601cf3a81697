//! Fixed-capacity FIFO queue of received frames.
//!
//! The queue is a ring of `N` slots: the oldest frame is in slot `head`, the
//! `k`-th oldest in slot `(head + k) % N`. It takes `&mut self` for every
//! change, so a caller that fills it from interrupt context and drains it
//! from the main context must serialise the two (for example with a
//! critical section).

use vstd::prelude::*;
use crate::frame::CanFrame;
use crate::modular::lemma_mod_one_period;

verus! {

/// The frames held after a push of `frame` onto `held` with room for `cap`:
/// appended if there is room, dropped otherwise.
pub open spec fn held_after_push(held: Seq<CanFrame>, frame: CanFrame, cap: nat) -> Seq<CanFrame> {
    if held.len() < cap {
        held.push(frame)
    } else {
        held
    }
}

/// The frames held after a pop from `held`: the oldest removed, if any.
pub open spec fn held_after_pop(held: Seq<CanFrame>) -> Seq<CanFrame> {
    if held.len() > 0 {
        held.drop_first()
    } else {
        held
    }
}

/// One call on a queue: a push of a frame, or a pop.
pub enum QueueOp {
    Push(CanFrame),
    Pop,
}

/// What a sequence of calls does to a queue of capacity `cap` that starts
/// out holding `held`: the frames held at the end, the frames the pops
/// returned, and the frames the pushes accepted, each in call order.
pub open spec fn run_ops(held: Seq<CanFrame>, ops: Seq<QueueOp>, cap: nat) -> (
    Seq<CanFrame>,
    Seq<CanFrame>,
    Seq<CanFrame>,
)
    decreases ops.len(),
{
    if ops.len() == 0 {
        (held, Seq::empty(), Seq::empty())
    } else {
        let (h, popped, accepted) = run_ops(held, ops.drop_last(), cap);
        match ops.last() {
            QueueOp::Push(f) => (
                held_after_push(h, f, cap),
                popped,
                if h.len() < cap { accepted.push(f) } else { accepted },
            ),
            QueueOp::Pop => (
                held_after_pop(h),
                if h.len() > 0 { popped.push(h[0]) } else { popped },
                accepted,
            ),
        }
    }
}

/// Over any sequence of pushes and pops, a queue never holds more than its
/// capacity, and the frames the pops return, followed by the frames still
/// held, are exactly the frames held at the start followed by the frames the
/// pushes accepted, in order. From an empty queue: every accepted frame is
/// popped at most once, in the order it was pushed.
pub proof fn lemma_ops_keep_fifo(held: Seq<CanFrame>, ops: Seq<QueueOp>, cap: nat)
    requires
        held.len() <= cap,
    ensures
        run_ops(held, ops, cap).0.len() <= cap,
        run_ops(held, ops, cap).1 + run_ops(held, ops, cap).0 == held + run_ops(
            held,
            ops,
            cap,
        ).2,
    decreases ops.len(),
{
    if ops.len() > 0 {
        lemma_ops_keep_fifo(held, ops.drop_last(), cap);
        let (h, popped, accepted) = run_ops(held, ops.drop_last(), cap);
        match ops.last() {
            QueueOp::Push(f) => {
                if h.len() < cap {
                    assert(popped + h.push(f) =~= (popped + h).push(f));
                    assert(held + accepted.push(f) =~= (held + accepted).push(f));
                }
            },
            QueueOp::Pop => {
                if h.len() > 0 {
                    assert(popped.push(h[0]) + h.drop_first() =~= popped + h);
                }
            },
        }
    }
}

/// Receive queue holding at most `N` frames, oldest first.
pub struct RxQueue<const N: usize> {
    buf: Vec<CanFrame>,
    head: usize,
    len: usize,
}

impl<const N: usize> RxQueue<N> {
    /// The frames held, oldest first.
    pub closed spec fn frames(&self) -> Seq<CanFrame> {
        Seq::new(self.len as nat, |k: int| self.buf@[(self.head + k) % (N as int)])
    }

    /// Number of frames held.
    pub open spec fn len(&self) -> int {
        self.frames().len() as int
    }

    /// The ring has `N > 0` slots, its head is one of them, and at most `N`
    /// frames are held.
    pub closed spec fn wf(&self) -> bool {
        &&& N > 0
        &&& self.buf@.len() == N
        &&& self.head < N
        &&& self.len <= N
    }

    /// Every well-formed queue holds at most `N` frames.
    pub proof fn lemma_len_bounded(&self)
        requires
            self.wf(),
        ensures
            0 <= self.len() <= N,
    {
    }

    /// An empty queue. `N` must be greater than zero.
    pub fn new() -> (r: RxQueue<N>)
        requires
            N > 0,
        ensures
            r.wf(),
            r.frames() == Seq::<CanFrame>::empty(),
    {
        let mut buf: Vec<CanFrame> = Vec::new();
        let mut i: usize = 0;
        while i < N
            invariant
                i <= N,
                buf@.len() == i,
            decreases N - i,
        {
            buf.push(CanFrame::from_parts(0, 0, [0u8; 8]));
            i = i + 1;
        }
        let r = RxQueue::<N> { buf, head: 0, len: 0 };
        assert(r.frames() =~= Seq::<CanFrame>::empty());
        r
    }

    /// Appends a frame unless `N` frames are held already, in which case the
    /// frame is dropped, the queue left as it was, and `false` returned.
    pub fn push(&mut self, frame: CanFrame) -> (r: bool)
        requires
            old(self).wf(),
        ensures
            final(self).wf(),
            r == (old(self).len() < N),
            final(self).frames() == held_after_push(old(self).frames(), frame, N as nat),
            r ==> final(self).frames() == old(self).frames().push(frame),
            !r ==> *final(self) == *old(self),
    {
        if self.len >= N {
            return false;
        }
        let ghost old_q = *self;
        let head = self.head;
        let len = self.len;
        // The slot `(head + len) % N`, computed without overflow.
        let slot: usize = if head < N - len { head + len } else { head - (N - len) };
        proof {
            lemma_mod_one_period(head + len, N as int);
        }
        self.buf.set(slot, frame);
        self.len = len + 1;
        proof {
            assert forall|k: int| 0 <= k < len implies #[trigger] self.frames()[k]
                == old_q.frames()[k] by {
                lemma_mod_one_period(head + k, N as int);
            }
            assert(self.frames() =~= old_q.frames().push(frame));
        }
        true
    }

    /// Removes and returns the oldest frame; `None`, leaving the queue as it
    /// was, if the queue is empty.
    pub fn pop(&mut self) -> (r: Option<CanFrame>)
        requires
            old(self).wf(),
        ensures
            final(self).wf(),
            r is None <==> old(self).len() == 0,
            r is None ==> *final(self) == *old(self),
            r matches Some(f) ==> f == old(self).frames()[0],
            final(self).frames() == held_after_pop(old(self).frames()),
            r is Some ==> final(self).frames() == old(self).frames().drop_first(),
    {
        if self.len == 0 {
            return None;
        }
        let ghost old_q = *self;
        let head = self.head;
        let frame = self.buf[head];
        self.head = if head + 1 == N { 0 } else { head + 1 };
        self.len = self.len - 1;
        proof {
            lemma_mod_one_period(head as int, N as int);
            assert(frame == old_q.frames()[0]);
            assert forall|k: int| 0 <= k < self.len implies #[trigger] self.frames()[k]
                == old_q.frames()[k + 1] by {
                lemma_mod_one_period(self.head + k, N as int);
                lemma_mod_one_period(head + k + 1, N as int);
            }
            assert(self.frames() =~= old_q.frames().drop_first());
        }
        Some(frame)
    }
}

} // verus!
