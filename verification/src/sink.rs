//! Destinations for the bytes of a file.
//!
//! A sink takes bytes in order and never gives them back; the encoder only
//! appends. What has happened to a sink is described by three ghost
//! observations: the bytes it has accepted, the errors with which it has
//! refused writes, and whether it refused the latest write.
//!
//! [`MemorySink`] and [`BoundedSink`] keep the bytes themselves, so for
//! them the observations are facts about their contents. Any other
//! destination, a file or a connection, comes in as a [`RawSink`], of
//! which nothing is known, wrapped in [`Recorded`], which observes what
//! was handed to it and what it answered.

use vstd::prelude::*;
use vstd::slice::slice_subrange;

verus! {

/// `after` is `before` followed by a leading part of `chunk`.
pub open spec fn took_part_of(before: Seq<u8>, after: Seq<u8>, chunk: Seq<u8>) -> bool {
    &&& before.len() <= after.len() <= before.len() + chunk.len()
    &&& after == before + chunk.take(after.len() - before.len())
}

/// A forward-only destination for bytes.
pub trait ByteSink {
    /// What the sink reports when it refuses a write.
    type Error;

    /// Every byte the sink has accepted so far, in order.
    spec fn accepted(&self) -> Seq<u8>;

    /// The errors of the writes the sink has refused so far, in order.
    spec fn refusals(&self) -> Seq<Self::Error>;

    /// Whether the sink refused the latest write that was handed to it.
    spec fn refused_last(&self) -> bool;

    /// Hands `bytes` to the sink.
    ///
    /// On success the sink has accepted all of them. On failure it has
    /// accepted a leading part of them, possibly none or all, and has
    /// recorded the error it returns.
    fn write_bytes(&mut self, bytes: &[u8]) -> (outcome: Result<(), Self::Error>)
        ensures
            outcome is Ok ==> final(self).accepted() == old(self).accepted() + bytes@,
            outcome is Ok ==> final(self).refusals() == old(self).refusals(),
            outcome is Err ==> took_part_of(old(self).accepted(), final(self).accepted(), bytes@),
            outcome matches Err(e) ==> final(self).refusals() == old(self).refusals().push(e),
            final(self).refused_last() == (outcome is Err),
    ;
}

/// The error type of a sink that refuses nothing. No write returns it.
#[derive(Clone, Copy, Debug, PartialEq, Eq, Structural)]
pub struct NeverRefused;

/// A growable in-memory sink. It accepts every write.
#[derive(Debug)]
pub struct MemorySink {
    bytes: Vec<u8>,
}

impl MemorySink {
    /// An empty sink.
    pub fn new() -> (sink: MemorySink)
        ensures
            sink@ == Seq::<u8>::empty(),
    {
        MemorySink { bytes: Vec::new() }
    }

    /// An empty sink with room reserved for `capacity` bytes.
    pub fn with_capacity(capacity: usize) -> (sink: MemorySink)
        ensures
            sink@ == Seq::<u8>::empty(),
    {
        MemorySink { bytes: Vec::with_capacity(capacity) }
    }

    /// The bytes accepted so far.
    pub fn as_slice(&self) -> (bytes: &[u8])
        ensures
            bytes@ == self@,
    {
        self.bytes.as_slice()
    }

    /// Number of bytes accepted so far.
    pub fn len(&self) -> (n: usize)
        ensures
            n == self@.len(),
    {
        self.bytes.len()
    }

    /// Gives up the sink for the bytes it has accepted.
    pub fn into_bytes(self) -> (bytes: Vec<u8>)
        ensures
            bytes@ == self@,
    {
        self.bytes
    }
}

impl View for MemorySink {
    type V = Seq<u8>;

    closed spec fn view(&self) -> Seq<u8> {
        self.bytes@
    }
}

impl ByteSink for MemorySink {
    type Error = NeverRefused;

    open spec fn accepted(&self) -> Seq<u8> {
        self@
    }

    open spec fn refusals(&self) -> Seq<NeverRefused> {
        Seq::empty()
    }

    open spec fn refused_last(&self) -> bool {
        false
    }

    fn write_bytes(&mut self, bytes: &[u8]) -> (outcome: Result<(), NeverRefused>)
        ensures
            outcome is Ok,
    {
        self.bytes.extend_from_slice(bytes);
        Ok(())
    }
}

/// The error of a [`BoundedSink`] that has run out of room.
#[derive(Clone, Copy, Debug, PartialEq, Eq, Structural)]
pub struct SinkFull {
    /// How many bytes of the refused write found no room.
    pub left_over: usize,
}

/// An in-memory sink of fixed capacity.
///
/// It reserves its room once and never grows. A write that fits is
/// accepted whole. Of a write that does not fit the sink keeps the leading
/// part that fills it and refuses the write, and it keeps the error of
/// every write it has refused.
#[derive(Debug)]
pub struct BoundedSink {
    bytes: Vec<u8>,
    capacity: usize,
    errors: Vec<SinkFull>,
    last_refused: bool,
}

impl BoundedSink {
    /// The capacity the sink was made with.
    pub closed spec fn spec_capacity(self) -> nat {
        self.capacity as nat
    }

    /// How many more bytes the sink can accept.
    pub open spec fn room(self) -> nat {
        if self@.len() <= self.spec_capacity() {
            (self.spec_capacity() - self@.len()) as nat
        } else {
            0
        }
    }

    /// An empty sink with room for `capacity` bytes.
    pub fn with_capacity(capacity: usize) -> (sink: BoundedSink)
        ensures
            sink@ == Seq::<u8>::empty(),
            sink.refusals() == Seq::<SinkFull>::empty(),
            !sink.refused_last(),
            sink.spec_capacity() == capacity,
    {
        BoundedSink {
            bytes: Vec::with_capacity(capacity),
            capacity,
            errors: Vec::new(),
            last_refused: false,
        }
    }

    /// The capacity the sink was made with.
    pub fn capacity(&self) -> (n: usize)
        ensures
            n == self.spec_capacity(),
    {
        self.capacity
    }

    /// The bytes accepted so far.
    pub fn as_slice(&self) -> (bytes: &[u8])
        ensures
            bytes@ == self@,
    {
        self.bytes.as_slice()
    }

    /// Number of bytes accepted so far.
    pub fn len(&self) -> (n: usize)
        ensures
            n == self@.len(),
    {
        self.bytes.len()
    }

    /// The errors of the writes refused so far, in order.
    pub fn refused_writes(&self) -> (errors: &[SinkFull])
        ensures
            errors@ == self.refusals(),
    {
        self.errors.as_slice()
    }

    /// Whether the sink refused the latest write that was handed to it.
    pub fn last_write_refused(&self) -> (refused: bool)
        ensures
            refused == self.refused_last(),
    {
        self.last_refused
    }

    /// Gives up the sink for the bytes it has accepted.
    pub fn into_bytes(self) -> (bytes: Vec<u8>)
        ensures
            bytes@ == self@,
    {
        self.bytes
    }
}

impl View for BoundedSink {
    type V = Seq<u8>;

    closed spec fn view(&self) -> Seq<u8> {
        self.bytes@
    }
}

impl ByteSink for BoundedSink {
    type Error = SinkFull;

    open spec fn accepted(&self) -> Seq<u8> {
        self@
    }

    closed spec fn refusals(&self) -> Seq<SinkFull> {
        self.errors@
    }

    closed spec fn refused_last(&self) -> bool {
        self.last_refused
    }

    fn write_bytes(&mut self, bytes: &[u8]) -> (outcome: Result<(), SinkFull>)
        ensures
            final(self).spec_capacity() == old(self).spec_capacity(),
            outcome is Ok <==> bytes@.len() <= old(self).room(),
            outcome matches Err(e) ==> {
                &&& final(self)@ == old(self)@ + bytes@.take(old(self).room() as int)
                &&& e.left_over == bytes@.len() - old(self).room()
            },
    {
        let held = self.bytes.len();
        let room = if held <= self.capacity {
            self.capacity - held
        } else {
            0
        };
        if bytes.len() <= room {
            self.bytes.extend_from_slice(bytes);
            self.last_refused = false;
            Ok(())
        } else {
            let error = SinkFull { left_over: bytes.len() - room };
            self.bytes.extend_from_slice(slice_subrange(bytes, 0, room));
            self.errors.push(error);
            self.last_refused = true;
            assert(self@ =~= old(self)@ + bytes@.take(self@.len() - old(self)@.len()));
            Err(error)
        }
    }
}

/// A destination for bytes of which nothing is known but its signature.
///
/// This is the trait to implement for a file, a socket or any other
/// writer; [`Recorded`] makes a [`ByteSink`] of it.
pub trait RawSink {
    /// What the destination reports when a write fails.
    type Error;

    /// Writes all of `bytes` or fails.
    fn write_raw(&mut self, bytes: &[u8]) -> Result<(), Self::Error>;
}

/// A [`RawSink`] under observation.
///
/// The wrapper passes every write on unchanged and keeps a ghost record of
/// the answers: the bytes of the writes that the destination acknowledged,
/// and the errors of those it refused. What a refused write may have left
/// behind in the destination is not part of the record.
pub struct Recorded<W: RawSink> {
    inner: W,
    acknowledged: Ghost<Seq<u8>>,
    errors: Ghost<Seq<W::Error>>,
    failed_last: Ghost<bool>,
}

impl<W: RawSink> Recorded<W> {
    /// The destination under observation.
    pub closed spec fn inner(self) -> W {
        self.inner
    }

    /// Puts `inner` under observation, with an empty record.
    pub fn new(inner: W) -> (sink: Recorded<W>)
        ensures
            sink.inner() == inner,
            sink.accepted() == Seq::<u8>::empty(),
            sink.refusals() == Seq::<W::Error>::empty(),
            !sink.refused_last(),
    {
        Recorded {
            inner,
            acknowledged: Ghost(Seq::empty()),
            errors: Ghost(Seq::empty()),
            failed_last: Ghost(false),
        }
    }

    /// Ends the observation and gives the destination back.
    pub fn into_inner(self) -> (inner: W)
        ensures
            inner == self.inner(),
    {
        self.inner
    }
}

impl<W: RawSink> ByteSink for Recorded<W> {
    type Error = W::Error;

    closed spec fn accepted(&self) -> Seq<u8> {
        self.acknowledged@
    }

    closed spec fn refusals(&self) -> Seq<W::Error> {
        self.errors@
    }

    closed spec fn refused_last(&self) -> bool {
        self.failed_last@
    }

    fn write_bytes(&mut self, bytes: &[u8]) -> (outcome: Result<(), W::Error>)
        ensures
            outcome is Err ==> final(self).accepted() == old(self).accepted(),
    {
        let outcome = self.inner.write_raw(bytes);
        let ghost answer = outcome;
        proof {
            match answer {
                Ok(()) => {
                    self.acknowledged@ = self.acknowledged@ + bytes@;
                    self.failed_last@ = false;
                },
                Err(e) => {
                    self.errors@ = self.errors@.push(e);
                    self.failed_last@ = true;
                    assert(self.acknowledged@ =~= self.acknowledged@ + bytes@.take(0));
                },
            }
        }
        outcome
    }
}

} // verus!
