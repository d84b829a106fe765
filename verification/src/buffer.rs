//! Fixed-capacity receive buffer.
//!
//! Incoming transport bytes are appended one at a time; on demand the
//! buffer carves one complete response unit off its front, leaving
//! partial data for the next attempt. Consumed bytes are removed exactly
//! once, never duplicated or lost.

use vstd::prelude::*;

use crate::parser::parse_spec;
use crate::parser::parse_unit;
use crate::parser::ParseModel;
use crate::parser::ParseStep;
use crate::types::LoraError;
use crate::types::Response;
use crate::types::ResponseModel;
use crate::types::RECV_BUFFER_LEN;

verus! {

/// A complete but malformed response unit; the calling loop treats it
/// as transient noise and keeps reading.
#[derive(Clone, Copy, Debug, PartialEq, Eq, Structural)]
pub struct ParseError;

/// A fixed-capacity byte accumulator with parse-on-demand.
pub struct Buffer {
    data: Vec<u8>,
}

impl View for Buffer {
    type V = Seq<u8>;

    closed spec fn view(&self) -> Seq<u8> {
        self.data@
    }
}

impl Buffer {
    /// An empty buffer.
    pub fn new() -> (b: Buffer)
        ensures
            b@ == Seq::<u8>::empty(),
    {
        Buffer { data: Vec::new() }
    }

    /// The number of buffered bytes.
    pub fn len(&self) -> (r: usize)
        ensures
            r == self@.len(),
    {
        self.data.len()
    }

    /// Append one byte, failing with [`LoraError::BufferFull`] and
    /// leaving the contents untouched when the capacity is reached.
    pub fn write(&mut self, b: u8) -> (r: Result<(), LoraError>)
        ensures
            old(self)@.len() < RECV_BUFFER_LEN ==> (r matches Ok(())
                && final(self)@ == old(self)@.push(b)),
            old(self)@.len() >= RECV_BUFFER_LEN ==> (r matches Err(LoraError::BufferFull)
                && final(self)@ == old(self)@),
    {
        if self.data.len() >= RECV_BUFFER_LEN {
            Err(LoraError::BufferFull)
        } else {
            self.data.push(b);
            Ok(())
        }
    }

    /// Remove the `n` leading bytes.
    fn drain(&mut self, n: usize)
        requires
            n <= old(self)@.len(),
        ensures
            final(self)@ == old(self)@.skip(n as int),
    {
        let len = self.data.len();
        let mut rest: Vec<u8> = Vec::new();
        let mut i: usize = n;
        while i < len
            invariant
                n <= i <= len == self.data@.len(),
                self.data@ == old(self)@,
                rest@ == self.data@.subrange(n as int, i as int),
            decreases len - i,
        {
            let b = self.data[i];
            rest.push(b);
            proof {
                assert(self.data@.subrange(n as int, i + 1) =~= self.data@.subrange(
                    n as int,
                    i as int,
                ) + seq![self.data@[i as int]]);
            }
            i = i + 1;
        }
        proof {
            assert(self.data@.subrange(n as int, len as int) =~= self.data@.skip(n as int));
        }
        self.data = rest;
    }

    /// Attempt to carve one complete response unit off the front.
    ///
    /// With no complete unit buffered the result is
    /// [`Response::NoResponse`] and the contents stay as they are; a
    /// decoded unit is returned with its bytes removed; a malformed
    /// complete unit is removed as noise and reported as an error.
    pub fn parse(&mut self) -> (r: Result<Response, ParseError>)
        ensures
            parse_spec(old(self)@) matches ParseModel::Incomplete ==> (r matches Ok(resp)
                && resp@ == ResponseModel::NoResponse && final(self)@ == old(self)@),
            parse_spec(old(self)@) matches ParseModel::Decoded(m, n) ==> (r matches Ok(resp)
                && resp@ == m && final(self)@ == old(self)@.skip(n)),
            parse_spec(old(self)@) matches ParseModel::Failed(n) ==> (r is Err
                && final(self)@ == old(self)@.skip(n)),
    {
        let step = parse_unit(&self.data);
        match step {
            ParseStep::Incomplete => Ok(Response::NoResponse),
            ParseStep::Decoded(resp, n) => {
                self.drain(n);
                Ok(resp)
            },
            ParseStep::Failed(n) => {
                self.drain(n);
                Err(ParseError)
            },
        }
    }
}

} // verus!
