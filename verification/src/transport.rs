//! The byte transport that the driver talks through, and the record of what
//! went over it.

use vstd::prelude::*;

verus! {

/// What a non-blocking operation reports when it has no value to give.
#[derive(Clone, Copy, Debug, PartialEq, Eq)]
pub enum NbError<E> {
    /// The operation failed for good.
    Other(E),
    /// The operation could not complete yet and has to be tried again.
    WouldBlock,
}

/// Result of a non-blocking operation.
pub type NbResult<T, E> = Result<T, NbError<E>>;

/// A serial line that moves one byte at a time without ever blocking.
pub trait Transport {
    /// Error with which the line fails for good.
    type Error;

    /// Reads a single byte from the line.
    fn read(&mut self) -> NbResult<u8, Self::Error>;

    /// Writes a single byte to the line.
    fn write(&mut self, word: u8) -> NbResult<(), Self::Error>;

    /// Ensures that none of the previously written bytes are still buffered.
    fn flush(&mut self) -> NbResult<(), Self::Error>;
}

/// One call of a transport, with the answer it gave.
pub enum Call<E> {
    /// A read, and the byte or error that came back.
    Read(NbResult<u8, E>),
    /// A write of the given byte, and whether it was taken.
    Write(u8, NbResult<(), E>),
    /// A flush, and whether it went through.
    Flush(NbResult<(), E>),
}

impl<E> Call<E> {
    /// Whether the transport did what the call asked for.
    pub open spec fn succeeded(self) -> bool {
        match self {
            Call::Read(answer) => answer is Ok,
            Call::Write(_, answer) => answer is Ok,
            Call::Flush(answer) => answer is Ok,
        }
    }

    /// The same call, answered with `error`.
    pub open spec fn refused(self, error: NbError<E>) -> Call<E> {
        match self {
            Call::Read(_) => Call::Read(Err(error)),
            Call::Write(word, _) => Call::Write(word, Err(error)),
            Call::Flush(_) => Call::Flush(Err(error)),
        }
    }
}

/// The calls that write `bytes` one after the other, each of them taken.
pub open spec fn writes_taken<E>(bytes: Seq<u8>) -> Seq<Call<E>> {
    Seq::new(bytes.len(), |i: int| Call::Write(bytes[i], Ok(())))
}

/// The calls that read `bytes` one after the other.
pub open spec fn reads_given<E>(bytes: Seq<u8>) -> Seq<Call<E>> {
    Seq::new(bytes.len(), |i: int| Call::Read(Ok(bytes[i])))
}

/// The calls of `log` that the transport did not refuse, in their order.
pub open spec fn successes<E>(log: Seq<Call<E>>) -> Seq<Call<E>> {
    log.filter(|call: Call<E>| call.succeeded())
}

/// A transport together with the record of every call that was made on it.
pub struct Line<U: Transport> {
    uart: U,
    calls: Ghost<Seq<Call<U::Error>>>,
}

impl<U: Transport> Line<U> {
    /// The calls made on the transport so far, oldest first.
    pub closed spec fn log(&self) -> Seq<Call<U::Error>> {
        self.calls@
    }

    /// The transport, as the calls so far have left it.
    pub closed spec fn transport(&self) -> U {
        self.uart
    }

    /// Starts a record for `uart`.
    pub fn new(uart: U) -> (line: Self)
        ensures
            line.log() == Seq::<Call<U::Error>>::empty(),
            line.transport() == uart,
    {
        Line { uart, calls: Ghost(Seq::empty()) }
    }

    /// Gives the transport back and drops the record.
    pub fn into_inner(self) -> (uart: U)
        ensures
            uart == self.transport(),
    {
        self.uart
    }

    /// Reads a single byte and records the call.
    pub fn read(&mut self) -> (answer: NbResult<u8, U::Error>)
        ensures
            final(self).log() == old(self).log().push(Call::Read(answer)),
    {
        let answer = self.uart.read();
        proof {
            self.calls@ = self.calls@.push(Call::Read(answer));
        }
        answer
    }

    /// Writes a single byte and records the call.
    pub fn write(&mut self, word: u8) -> (answer: NbResult<(), U::Error>)
        ensures
            final(self).log() == old(self).log().push(Call::Write(word, answer)),
    {
        let answer = self.uart.write(word);
        proof {
            self.calls@ = self.calls@.push(Call::Write(word, answer));
        }
        answer
    }

    /// Flushes the transport and records the call.
    pub fn flush(&mut self) -> (answer: NbResult<(), U::Error>)
        ensures
            final(self).log() == old(self).log().push(Call::Flush(answer)),
    {
        let answer = self.uart.flush();
        proof {
            self.calls@ = self.calls@.push(Call::Flush(answer));
        }
        answer
    }
}

} // verus!
