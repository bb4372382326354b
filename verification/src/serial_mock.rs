//! A transport that answers from a script, for trying the driver without a
//! sensor.

use crate::transport::{NbError, NbResult, Transport};
use std::collections::VecDeque;
use std::string::String;
use std::vec::Vec;
use vstd::prelude::*;

verus! {

/// A transport that gives the answers it was made with, one per call and in
/// their order, and says that it would block once they are used up.
#[derive(Debug)]
pub struct SerialMock {
    read_return_values: VecDeque<NbResult<u8, String>>,
    write_return_values: VecDeque<NbResult<(), String>>,
    /// The bytes that were written and taken.
    pub write_buf: Vec<u8>,
    /// How many bytes had been written when the transport was last flushed.
    pub flushed_up_to: usize,
}

/// Moves the answers into a queue, the first of them to the front.
fn queue_of<T>(answers: Vec<T>) -> (queue: VecDeque<T>)
    ensures
        queue@ == answers@,
{
    let mut rest = answers;
    let mut queue: VecDeque<T> = VecDeque::new();
    loop
        invariant
            rest@ + queue@ == answers@,
        decreases rest@.len(),
    {
        let ghost before = rest@;
        let ghost queued = queue@;
        match rest.pop() {
            Some(answer) => {
                queue.push_front(answer);
                assert(rest@ + queue@ =~= before + queued);
            },
            None => {
                assert(rest@ + queue@ =~= queue@);
                return queue;
            },
        }
    }
}

impl SerialMock {
    /// The answers that reads are still to get.
    pub closed spec fn reads(&self) -> Seq<NbResult<u8, String>> {
        self.read_return_values@
    }

    /// The answers that writes are still to get.
    pub closed spec fn writes(&self) -> Seq<NbResult<(), String>> {
        self.write_return_values@
    }

    /// The bytes that were written and taken.
    pub closed spec fn written(&self) -> Seq<u8> {
        self.write_buf@
    }

    /// How many bytes had been written when the transport was last flushed.
    pub closed spec fn flushed(&self) -> nat {
        self.flushed_up_to as nat
    }

    /// Creates a transport that answers its reads with `read_return_values`
    /// and its writes with `write_return_values`.
    pub fn new(
        read_return_values: Vec<NbResult<u8, String>>,
        write_return_values: Vec<NbResult<(), String>>,
    ) -> (mock: Self)
        ensures
            mock.reads() == read_return_values@,
            mock.writes() == write_return_values@,
            mock.written() == Seq::<u8>::empty(),
            mock.flushed() == 0,
    {
        Self {
            read_return_values: queue_of(read_return_values),
            write_return_values: queue_of(write_return_values),
            write_buf: Vec::new(),
            flushed_up_to: 0,
        }
    }
}

impl Transport for SerialMock {
    type Error = String;

    /// Gives the next answer for a read.
    fn read(&mut self) -> (answer: NbResult<u8, String>)
        ensures
            final(self).writes() == old(self).writes(),
            final(self).written() == old(self).written(),
            final(self).flushed() == old(self).flushed(),
            old(self).reads().len() == 0 ==> answer == Err::<u8, NbError<String>>(
                NbError::WouldBlock,
            ) && final(self).reads() == old(self).reads(),
            old(self).reads().len() > 0 ==> answer == old(self).reads()[0]
                && final(self).reads() == old(self).reads().skip(1),
    {
        match self.read_return_values.pop_front() {
            Some(answer) => {
                proof {
                    assert(self.reads() =~= old(self).reads().skip(1));
                }
                answer
            },
            None => Err(NbError::WouldBlock),
        }
    }

    /// Gives the next answer for a write, and keeps the byte if the answer is
    /// that it was taken.
    fn write(&mut self, c: u8) -> (answer: NbResult<(), String>)
        ensures
            final(self).reads() == old(self).reads(),
            final(self).flushed() == old(self).flushed(),
            old(self).writes().len() == 0 ==> answer == Err::<(), NbError<String>>(
                NbError::WouldBlock,
            ) && final(self).writes() == old(self).writes(),
            old(self).writes().len() > 0 ==> answer == old(self).writes()[0]
                && final(self).writes() == old(self).writes().skip(1),
            final(self).written() == if answer is Ok {
                old(self).written().push(c)
            } else {
                old(self).written()
            },
    {
        match self.write_return_values.pop_front() {
            Some(return_value) => {
                proof {
                    assert(self.writes() =~= old(self).writes().skip(1));
                }
                if return_value.is_ok() {
                    self.write_buf.push(c);
                }
                return_value
            },
            None => Err(NbError::WouldBlock),
        }
    }

    /// Notes how many bytes have been written.
    fn flush(&mut self) -> (answer: NbResult<(), String>)
        ensures
            answer is Ok,
            final(self).reads() == old(self).reads(),
            final(self).writes() == old(self).writes(),
            final(self).written() == old(self).written(),
            final(self).flushed() == old(self).written().len(),
    {
        self.flushed_up_to = self.write_buf.len();
        Ok(())
    }
}

} // verus!
