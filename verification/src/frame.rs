//! Serial communication frame handling for the MH-Z19C sensor.

use crate::command::Command;
use vstd::prelude::*;
use vstd::std_specs::convert::FromSpecImpl;

verus! {

/// First byte of every frame.
pub const START_BYTE: u8 = 0xff;

/// Second byte of a frame that carries a command; a response carries the
/// op code of the command it answers there instead.
pub const COMMAND_MAGIC_BYTE: u8 = 0x01;

/// Number of bytes in a frame.
pub const FRAME_LEN: usize = 9;

/// Sum of all bytes of `bytes`.
pub open spec fn byte_sum(bytes: Seq<u8>) -> int
    decreases bytes.len(),
{
    if bytes.len() == 0 {
        0
    } else {
        byte_sum(bytes.drop_last()) + bytes.last() as int
    }
}

/// The checksum of `bytes`: the negated sum of the bytes, modulo 256.
pub open spec fn spec_checksum(bytes: Seq<u8>) -> u8 {
    ((0 - byte_sum(bytes)) % 256) as u8
}

/// The nine bytes of the frame that carries `command` to the sensor.
pub open spec fn command_frame(command: Command) -> Seq<u8> {
    let body = seq![COMMAND_MAGIC_BYTE] + command.spec_serialize();
    seq![START_BYTE] + body + seq![spec_checksum(body)]
}

/// Subtracting one more byte from a running checksum gives the checksum of
/// the longer sequence.
pub proof fn lemma_checksum_push(bytes: Seq<u8>, byte: u8)
    ensures
        spec_checksum(bytes.push(byte)) == vstd::wrapping::u8_specs::wrapping_sub(
            spec_checksum(bytes),
            byte,
        ),
{
    let sum = byte_sum(bytes);
    assert(bytes.push(byte).drop_last() =~= bytes);
    assert(byte_sum(bytes.push(byte)) == sum + byte as int);
    assert((0 - (sum + byte as int)) % 256 == (((0 - sum) % 256) - byte as int) % 256)
        by (nonlinear_arith);
}

/// Calculates the checksum of `buf`.
pub fn checksum(buf: &[u8]) -> (sum: u8)
    ensures
        sum == spec_checksum(buf@),
{
    let mut acc: u8 = 0;
    let mut i: usize = 0;
    while i < buf.len()
        invariant
            i <= buf@.len(),
            acc == spec_checksum(buf@.take(i as int)),
        decreases buf@.len() - i,
    {
        proof {
            lemma_checksum_push(buf@.take(i as int), buf@[i as int]);
            assert(buf@.take(i as int).push(buf@[i as int]) =~= buf@.take(i + 1));
        }
        acc = acc.wrapping_sub(buf[i]);
        i = i + 1;
    }
    assert(buf@.take(i as int) =~= buf@);
    acc
}

/// Reasons for which a frame is rejected.
#[derive(Clone, Copy, Debug, PartialEq, Eq)]
pub enum ValidateFrameError {
    /// Indicates that the start byte is invalid and provides that invalid byte.
    InvalidStartByte(u8),
    /// Indicates that the checksum is invalid.
    InvalidChecksum { expected: u8, actual: u8 },
}

/// Represents a frame for the serial communication.
#[derive(Clone, Debug, Eq, Hash, PartialEq)]
pub struct Frame([u8; 9]);

impl View for Frame {
    type V = Seq<u8>;

    /// The nine bytes of the frame, in the order in which they travel.
    closed spec fn view(&self) -> Seq<u8> {
        self.0@
    }
}

impl Frame {
    /// Every frame has nine bytes.
    pub proof fn lemma_len(&self)
        ensures
            self@.len() == 9,
    {
    }

    /// Two frames with the same bytes are the same frame.
    pub proof fn lemma_view_injective(&self, other: &Frame)
        requires
            self@ == other@,
        ensures
            *self == *other,
    {
        assert(self.0 =~= other.0);
    }

    /// Whether the frame begins with the start byte.
    pub open spec fn spec_has_valid_start_byte(&self) -> bool {
        self@[0] == START_BYTE
    }

    /// Whether the frame answers a command, rather than carrying one.
    pub open spec fn spec_is_response(&self) -> bool {
        self@[1] != COMMAND_MAGIC_BYTE
    }

    /// The op code that the frame carries or answers.
    pub open spec fn spec_op_code(&self) -> u8 {
        if self.spec_is_response() {
            self@[1]
        } else {
            self@[2]
        }
    }

    /// The bytes behind the op code: six of data in a response, five
    /// arguments in a command.
    pub open spec fn spec_data(&self) -> Seq<u8> {
        if self.spec_is_response() {
            self@.subrange(2, 8)
        } else {
            self@.subrange(3, 8)
        }
    }

    /// The checksum that the frame's bytes 1 to 7 call for.
    pub open spec fn expected_checksum(&self) -> u8 {
        spec_checksum(self@.subrange(1, 8))
    }

    /// Whether the last byte is the checksum of bytes 1 to 7.
    pub open spec fn spec_has_valid_checksum(&self) -> bool {
        self.expected_checksum() == self@[8]
    }

    /// The verdict on the frame: the start byte is looked at first, then the
    /// checksum; the op code is not looked at.
    pub open spec fn spec_validate(&self) -> Result<(), ValidateFrameError> {
        if !self.spec_has_valid_start_byte() {
            Err(ValidateFrameError::InvalidStartByte(self@[0]))
        } else if !self.spec_has_valid_checksum() {
            Err(
                ValidateFrameError::InvalidChecksum {
                    expected: self.expected_checksum(),
                    actual: self@[8],
                },
            )
        } else {
            Ok(())
        }
    }

    /// The frame made of the nine bytes `bytes`.
    pub closed spec fn of_bytes(bytes: Seq<u8>) -> Frame {
        Frame(
            [
                bytes[0],
                bytes[1],
                bytes[2],
                bytes[3],
                bytes[4],
                bytes[5],
                bytes[6],
                bytes[7],
                bytes[8],
            ],
        )
    }

    /// The frame made of nine bytes has those bytes.
    pub proof fn lemma_of_bytes(bytes: Seq<u8>)
        requires
            bytes.len() == 9,
        ensures
            Frame::of_bytes(bytes)@ == bytes,
    {
        assert(Frame::of_bytes(bytes)@ =~= bytes);
    }

    /// The frame that carries `command`.
    pub open spec fn of_command(command: Command) -> Frame {
        Frame::of_bytes(command_frame(command))
    }

    /// The frame that carries `command` has the bytes of `command_frame`.
    pub proof fn lemma_of_command(command: Command)
        ensures
            Frame::of_command(command)@ == command_frame(command),
    {
        Frame::lemma_of_bytes(command_frame(command));
    }

    /// Return a new initialized [`Frame`] struct.
    pub fn new(data: [u8; 9]) -> (frame: Self)
        ensures
            frame@ == data@,
            frame == Frame::of_bytes(data@),
    {
        let frame = Self(data);
        proof {
            Frame::lemma_of_bytes(data@);
            frame.lemma_view_injective(&Frame::of_bytes(data@));
        }
        frame
    }

    /// Unwrap the frame data.
    pub fn into_inner(self) -> (data: [u8; 9])
        ensures
            data@ == self@,
    {
        self.0
    }

    fn start_byte(&self) -> (byte: u8)
        ensures
            byte == self@[0],
    {
        self.0[0]
    }

    /// Returns `true` if the frame has a valid start byte.
    pub fn has_valid_start_byte(&self) -> (valid: bool)
        ensures
            valid == self.spec_has_valid_start_byte(),
    {
        self.start_byte() == START_BYTE
    }

    /// Returns `true` if the frame represents the response to a command.
    pub fn is_response(&self) -> (response: bool)
        ensures
            response == self.spec_is_response(),
    {
        self.0[1] != COMMAND_MAGIC_BYTE
    }

    /// Returns the op code byte of the command of a request or response.
    pub fn op_code(&self) -> (code: u8)
        ensures
            code == self.spec_op_code(),
    {
        if self.is_response() {
            self.0[1]
        } else {
            self.0[2]
        }
    }

    fn checksum(&self) -> (byte: u8)
        ensures
            byte == self@[8],
    {
        self.0[8]
    }

    /// Returns the command arguments or response data (without op code).
    pub fn data(&self) -> (data: &[u8])
        ensures
            data@ == self.spec_data(),
    {
        if self.is_response() {
            &self.0[2..8]
        } else {
            &self.0[3..8]
        }
    }

    /// Returns `true` if the frame's checksum is valid.
    pub fn has_valid_checksum(&self) -> (valid: bool)
        ensures
            valid == self.spec_has_valid_checksum(),
    {
        checksum(&self.0[1..8]) == self.checksum()
    }

    /// Validates the correctness of the frame.
    ///
    /// * Checks that the start byte is valid.
    /// * Checks that the checksum is valid.
    pub fn validate(&self) -> (verdict: Result<(), ValidateFrameError>)
        ensures
            verdict == self.spec_validate(),
    {
        if !self.has_valid_start_byte() {
            Err(ValidateFrameError::InvalidStartByte(self.start_byte()))
        } else if !self.has_valid_checksum() {
            Err(
                ValidateFrameError::InvalidChecksum {
                    expected: checksum(&self.0[1..8]),
                    actual: self.checksum(),
                },
            )
        } else {
            Ok(())
        }
    }
}

/// Decoding the frame that was built for a command gives back the command's
/// op code and argument bytes; the frame passes validation and is no
/// response.
pub proof fn lemma_command_round_trip(command: Command)
    ensures
        Frame::of_command(command)@ == command_frame(command),
        Frame::of_command(command).spec_validate() is Ok,
        !Frame::of_command(command).spec_is_response(),
        Frame::of_command(command).spec_op_code() == command.spec_op_code(),
        Frame::of_command(command).spec_data() == command.spec_arguments(),
        seq![Frame::of_command(command).spec_op_code()] + Frame::of_command(command).spec_data()
            == command.spec_serialize(),
{
    let frame = Frame::of_command(command);
    Frame::lemma_of_command(command);
    let body = seq![COMMAND_MAGIC_BYTE] + command.spec_serialize();
    assert(frame@.subrange(1, 8) =~= body);
    assert(frame@.subrange(3, 8) =~= command.spec_arguments());
}

impl FromSpecImpl<Command> for Frame {
    open spec fn obeys_from_spec() -> bool {
        true
    }

    open spec fn from_spec(command: Command) -> Frame {
        Frame::of_command(command)
    }
}

impl From<Command> for Frame {
    fn from(command: Command) -> (frame: Self)
        ensures
            frame@ == command_frame(command),
    {
        let args = command.serialize();
        let mut buf: [u8; 9] = [
            START_BYTE,
            COMMAND_MAGIC_BYTE,
            args[0],
            args[1],
            args[2],
            args[3],
            args[4],
            args[5],
            0,
        ];
        proof {
            assert(buf@.subrange(1, 8) =~= seq![COMMAND_MAGIC_BYTE] + command.spec_serialize());
        }
        let sum = checksum(&buf[1..8]);
        buf[8] = sum;
        let frame = Self(buf);
        proof {
            assert(frame@ =~= command_frame(command));
            Frame::lemma_of_command(command);
            frame.lemma_view_injective(&Frame::of_command(command));
        }
        frame
    }
}

} // verus!
