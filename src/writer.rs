//! The outbound queue: whole frames, written out in the order they were accepted.
//!
//! Each entry is the complete wire form of one command, so frames of two
//! sends never interleave. The queue is bounded: a send to a full queue fails
//! with `Busy`, and the caller may wait and try again.
use vstd::prelude::*;

verus! {

/// A send was refused because the queue is full.
#[derive(PartialEq, Eq, Structural, Debug, Clone, Copy)]
pub struct Busy;

/// Frames waiting to be written, oldest first.
pub struct OutboundQueue {
    frames: Vec<Vec<u8>>,
    capacity: usize,
}

/// What the contracts see of a queue.
pub struct QueueView {
    pub frames: Seq<Seq<u8>>,
    pub capacity: nat,
}

impl View for OutboundQueue {
    type V = QueueView;

    closed spec fn view(&self) -> QueueView {
        QueueView {
            frames: self.frames@.map_values(|f: Vec<u8>| f@),
            capacity: self.capacity as nat,
        }
    }
}

impl OutboundQueue {
    /// An empty queue that holds up to `capacity` frames.
    pub fn new(capacity: usize) -> (q: OutboundQueue)
        ensures
            q@.frames == Seq::<Seq<u8>>::empty(),
            q@.capacity == capacity,
    {
        let q = OutboundQueue { frames: Vec::new(), capacity };
        assert(q@.frames =~= Seq::<Seq<u8>>::empty());
        q
    }

    pub fn len(&self) -> (n: usize)
        ensures
            n == self@.frames.len(),
    {
        self.frames.len()
    }

    pub fn capacity(&self) -> (n: usize)
        ensures
            n == self@.capacity,
    {
        self.capacity
    }

    /// Puts a frame at the back of the queue; `Busy`, and no change, where the queue is full.
    pub fn push(&mut self, frame: Vec<u8>) -> (r: Result<(), Busy>)
        ensures
            final(self)@.capacity == old(self)@.capacity,
            old(self)@.frames.len() < old(self)@.capacity ==> r is Ok && final(self)@.frames
                == old(self)@.frames.push(frame@),
            old(self)@.frames.len() >= old(self)@.capacity ==> r is Err && final(self)@ == old(
                self,
            )@,
    {
        if self.frames.len() >= self.capacity {
            return Err(Busy);
        }
        let ghost before = self@;
        self.frames.push(frame);
        assert(self@.frames =~= before.frames.push(frame@));
        Ok(())
    }

    /// Takes the oldest frame off the queue; `None` where it is empty.
    pub fn pop(&mut self) -> (r: Option<Vec<u8>>)
        ensures
            final(self)@.capacity == old(self)@.capacity,
            old(self)@.frames.len() == 0 ==> r is None && final(self)@ == old(self)@,
            old(self)@.frames.len() > 0 ==> r is Some && r->0@ == old(self)@.frames[0]
                && final(self)@.frames == old(self)@.frames.drop_first(),
    {
        if self.frames.len() == 0 {
            return None;
        }
        let ghost before = self@;
        let f = self.frames.remove(0);
        assert(self@.frames =~= before.frames.drop_first());
        Some(f)
    }
}

} // verus!
