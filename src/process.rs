//! The output side of a driven child process: its stream goes to exactly one
//! consumer, once.

use vstd::prelude::*;

verus! {

/// Why a consumer could not be attached.
#[derive(Debug, Clone, Copy, PartialEq, Eq)]
pub enum ConsumerError {
    /// The output already went to an earlier consumer.
    AlreadyConsumed,
}

/// Holds an output stream until a consumer takes it.
pub struct OutputStream<R> {
    stream: Option<R>,
}

/// What one attempt to take the stream does: the first attempt gets it, every
/// later one is refused, and afterwards the stream is gone either way.
pub open spec fn took<R>(
    before: OutputStream<R>,
    after: OutputStream<R>,
    r: Result<R, ConsumerError>,
) -> bool {
    &&& !after.is_available()
    &&& match r {
        Ok(s) => before.held() == Some(s),
        Err(e) => e == ConsumerError::AlreadyConsumed && !before.is_available(),
    }
}

impl<R> OutputStream<R> {
    pub closed spec fn held(&self) -> Option<R> {
        self.stream
    }

    pub open spec fn is_available(&self) -> bool {
        self.held() is Some
    }

    pub fn new(stream: R) -> (r: OutputStream<R>)
        ensures
            r.held() == Some(stream),
    {
        OutputStream { stream: Some(stream) }
    }

    /// Whether no consumer has taken the stream yet.
    pub fn is_unclaimed(&self) -> (r: bool)
        ensures
            r == self.is_available(),
    {
        self.stream.is_some()
    }

    /// Hands the stream to the caller, the first time only.
    pub fn take_for_consumer(&mut self) -> (r: Result<R, ConsumerError>)
        ensures
            took(*old(self), *final(self), r),
    {
        match self.stream.take() {
            Some(s) => Ok(s),
            None => Err(ConsumerError::AlreadyConsumed),
        }
    }
}

/// A second consumer is refused, whatever became of the first attempt.
pub proof fn lemma_second_consumer_refused<R>(
    s0: OutputStream<R>,
    s1: OutputStream<R>,
    s2: OutputStream<R>,
    r1: Result<R, ConsumerError>,
    r2: Result<R, ConsumerError>,
)
    requires
        took(s0, s1, r1),
        took(s1, s2, r2),
    ensures
        r1 is Ok <==> s0.is_available(),
        r2 == Err::<R, ConsumerError>(ConsumerError::AlreadyConsumed),
        !s2.is_available(),
{
}

} // verus!
