//! Driver for the MH-Z19C sensor on a serial interface that blocks until a
//! whole frame is written or read.

use crate::command::Command;
use crate::frame::{checksum, command_frame, spec_checksum, Frame, START_BYTE};
use vstd::prelude::*;

verus! {

/// A serial interface that blocks.
pub trait Uart {
    /// Error with which the interface fails.
    type Error;

    /// Reads `len` bytes into the front of `buffer`.
    fn read_blocking(&mut self, buffer: &mut [u8], len: usize) -> Result<(), Self::Error>;

    /// Writes all of `buffer` and waits until it has left.
    fn write_blocking(&mut self, buffer: &[u8]) -> Result<(), Self::Error>;
}

/// Errors of the driver.
#[derive(Debug, PartialEq, Eq)]
pub enum Error<T> {
    /// The response did not begin with the start byte.
    StartByteExpected { got: u8 },
    /// Received a response for a different op code than expected.
    OpCodeMismatch { expected: u8, got: u8 },
    /// The checksum of the response is not that of its bytes.
    InvalidChecksum,
    /// Communication error caused by the UART/serial interface.
    UartError(T),
}

/// One call of a serial interface, with what came back.
pub enum Transfer<E> {
    /// A write of the given bytes, and whether it went through.
    Write(Seq<u8>, Result<(), E>),
    /// A read of so many bytes, what stood in the buffer afterwards, and
    /// whether the read went through.
    Read(nat, Seq<u8>, Result<(), E>),
}

/// What nine bytes give as the answer to `command`: they must begin with the
/// start byte, end with the checksum of the seven bytes between, and carry
/// the op code of the command; then they give their six bytes of data. The
/// start byte is looked at first, then the checksum, then the op code.
pub open spec fn spec_unpack_return_frame<E>(command: Command, buf: Seq<u8>) -> Result<
    Seq<u8>,
    Error<E>,
> {
    if buf[0] != START_BYTE {
        Err(Error::StartByteExpected { got: buf[0] })
    } else if spec_checksum(buf.subrange(1, 8)) != buf[8] {
        Err(Error::InvalidChecksum)
    } else if buf[1] != command.spec_op_code() {
        Err(Error::OpCodeMismatch { expected: command.spec_op_code(), got: buf[1] })
    } else {
        Ok(buf.subrange(2, 8))
    }
}

/// The CO₂ concentration that the nine bytes `response` report.
pub open spec fn spec_co2_ppm<E>(response: Seq<u8>) -> Result<u16, Error<E>> {
    match spec_unpack_return_frame::<E>(Command::ReadCo2, response) {
        Ok(data) => Ok((data[0] as int * 256 + data[1] as int) as u16),
        Err(error) => Err(error),
    }
}

/// Writes the frame that carries `command` into `buf`.
pub fn frame_command(command: Command, buf: &mut [u8; 9])
    ensures
        final(buf)@ == command_frame(command),
{
    *buf = Frame::from(command).into_inner();
}

/// Unpacks the data of the nine bytes that answer `command`.
pub fn unpack_return_frame<E>(command: Command, buf: &[u8; 9]) -> (data: Result<&[u8], Error<E>>)
    ensures
        match data {
            Ok(data) => spec_unpack_return_frame::<E>(command, buf@) == Ok::<Seq<u8>, Error<E>>(
                data@,
            ),
            Err(error) => spec_unpack_return_frame::<E>(command, buf@) == Err::<Seq<u8>, Error<E>>(
                error,
            ),
        },
{
    if buf[0] != 0xff {
        return Err(Error::StartByteExpected { got: buf[0] });
    }
    if checksum(&buf[1..8]) != buf[8] {
        return Err(Error::InvalidChecksum);
    }
    if buf[1] != command.op_code() {
        return Err(Error::OpCodeMismatch { expected: command.op_code(), got: buf[1] });
    }
    Ok(&buf[2..8])
}

/// Decodes the response to a read of the CO₂ concentration.
pub fn decode_co2_ppm<E>(response: &[u8; 9]) -> (co2: Result<u16, Error<E>>)
    ensures
        co2 == spec_co2_ppm::<E>(response@),
{
    match unpack_return_frame::<E>(Command::ReadCo2, response) {
        Ok(data) => Ok(data[0] as u16 * 256 + data[1] as u16),
        Err(error) => Err(error),
    }
}

/// Driver for the MH-Z19C sensor.
pub struct MhZ19C<T: Uart> {
    uart: T,
    transfers: Ghost<Seq<Transfer<T::Error>>>,
}

impl<T: Uart> MhZ19C<T> {
    /// The calls made on the serial interface so far, oldest first.
    pub closed spec fn log(&self) -> Seq<Transfer<T::Error>> {
        self.transfers@
    }

    /// What a read of the CO₂ concentration gives, after it took the log from
    /// `pre` to `post`: the command is written; if that fails, so does the
    /// read; else nine bytes are read, and if that fails, so does the read;
    /// else the read gives what the nine bytes decode to.
    pub open spec fn co2_read(
        pre: Seq<Transfer<T::Error>>,
        answer: Result<u16, Error<T::Error>>,
        post: Seq<Transfer<T::Error>>,
    ) -> bool {
        let first = pre.len() as int;
        &&& post.len() > first
        &&& post.take(first) == pre
        &&& post[first] matches Transfer::Write(request, written)
        &&& request == command_frame(Command::ReadCo2)
        &&& match written {
            Err(error) => {
                &&& post.len() == first + 1
                &&& answer == Err::<u16, Error<T::Error>>(Error::UartError(error))
            },
            Ok(_) => {
                &&& post.len() == first + 2
                &&& post[first + 1] matches Transfer::Read(len, response, read)
                &&& len == 9
                &&& response.len() == 9
                &&& answer == match read {
                    Err(error) => Err(Error::UartError(error)),
                    Ok(_) => spec_co2_ppm::<T::Error>(response),
                }
            },
        }
    }

    /// Create a new instance.
    pub fn new(uart: T) -> (driver: Self)
        ensures
            driver.log() == Seq::<Transfer<T::Error>>::empty(),
    {
        Self { uart, transfers: Ghost(Seq::empty()) }
    }

    /// Reads and returns the CO₂ concentration in parts-per-million (ppm).
    pub fn read_co2_ppm(&mut self) -> (answer: Result<u16, Error<T::Error>>)
        ensures
            Self::co2_read(old(self).log(), answer, final(self).log()),
    {
        let mut buf = [0u8; 9];
        frame_command(Command::ReadCo2, &mut buf);
        let ghost request = buf@;
        let written = self.uart.write_blocking(&buf);
        proof {
            self.transfers@ = self.transfers@.push(Transfer::Write(request, written));
        }
        if let Err(error) = written {
            assert(self.log().take(old(self).log().len() as int) =~= old(self).log());
            return Err(Error::UartError(error));
        }
        let read = self.uart.read_blocking(&mut buf, 9);
        proof {
            self.transfers@ = self.transfers@.push(Transfer::Read(9, buf@, read));
        }
        assert(self.log().take(old(self).log().len() as int) =~= old(self).log());
        if let Err(error) = read {
            return Err(Error::UartError(error));
        }
        decode_co2_ppm(&buf)
    }
}

} // verus!
