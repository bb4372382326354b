//! Driver for the MH-Z19C sensor: the operations of the sensor, each of them
//! a non-blocking call that is repeated until it gives its result.

use crate::command::Command;
use crate::frame::{byte_sum, command_frame, Frame, ValidateFrameError};
use crate::nb_comm::{
    exchange_script, lemma_exchange_script, lemma_polls_resume, NbFuture, Progress, WriteAll,
    WriteAndReadResponse,
};
use crate::transport::{successes, writes_taken, Call, Line, NbError, NbResult, Transport};
use vstd::prelude::*;

verus! {

/// Errors of the driver.
#[derive(Debug, PartialEq, Eq)]
pub enum Error<T> {
    /// The frame of a command or return value was invalid.
    ValidateFrameError(ValidateFrameError),
    /// The received data is not response.
    NotAResponse,
    /// Received a response for a different op code than expected.
    OpCodeMismatch { expected: u8, got: u8 },
    /// Communication error caused by the UART/serial interface.
    UartError(T),
    /// Cannot upgrade to requested firmware version.
    /// Firmware version reported by the sensor will be included.
    NotSupportedByFirmware([u8; 4]),
}

/// Data-transfer object for combined measurement of CO₂ and temperature.
#[derive(Clone, Copy, Debug, PartialEq, Eq)]
pub struct Co2AndTemperature {
    /// CO₂ concentration in parts per million (ppm).
    pub co2_ppm: u16,
    /// Temperature in hundredths of a degree Celsius.
    pub temp_centi_celsius: u16,
}

/// The number that two bytes spell, the high byte first.
pub open spec fn spec_be_u16(high: u8, low: u8) -> u16 {
    (high as int * 256 + low as int) as u16
}

/// What a frame gives as the answer to `command`: the frame must pass
/// validation, be a response, and carry the op code of the command; then it
/// gives its six bytes of data.
pub open spec fn spec_unpack_return_frame<E>(command: Command, frame: Frame) -> Result<
    Seq<u8>,
    Error<E>,
> {
    match frame.spec_validate() {
        Err(error) => Err(Error::ValidateFrameError(error)),
        Ok(_) => if !frame.spec_is_response() {
            Err(Error::NotAResponse)
        } else if frame.spec_op_code() != command.spec_op_code() {
            Err(
                Error::OpCodeMismatch {
                    expected: command.spec_op_code(),
                    got: frame.spec_op_code(),
                },
            )
        } else {
            Ok(frame.spec_data())
        },
    }
}

/// The CO₂ concentration that the nine bytes `response` report.
pub open spec fn spec_co2_ppm<E>(response: Seq<u8>) -> Result<u16, Error<E>> {
    match spec_unpack_return_frame::<E>(Command::ReadCo2, Frame::of_bytes(response)) {
        Ok(data) => Ok(spec_be_u16(data[0], data[1])),
        Err(error) => Err(error),
    }
}

/// The CO₂ concentration and temperature that the nine bytes `response`
/// report.
pub open spec fn spec_co2_and_temperature<E>(response: Seq<u8>) -> Result<
    Co2AndTemperature,
    Error<E>,
> {
    match spec_unpack_return_frame::<E>(
        Command::ReadCo2AndTemperature,
        Frame::of_bytes(response),
    ) {
        Ok(data) => Ok(
            Co2AndTemperature {
                co2_ppm: spec_be_u16(data[2], data[3]),
                temp_centi_celsius: spec_be_u16(data[0], data[1]),
            },
        ),
        Err(error) => Err(error),
    }
}

/// The firmware version that the nine bytes `response` report.
pub open spec fn spec_firmware_version<E>(response: Seq<u8>) -> Result<[u8; 4], Error<E>> {
    match spec_unpack_return_frame::<E>(Command::GetFirmwareVersion, Frame::of_bytes(response)) {
        Ok(data) => Ok([data[0], data[1], data[2], data[3]]),
        Err(error) => Err(error),
    }
}

/// The character `'5'`.
pub const DIGIT_FIVE: u8 = 0x35;

/// Whether a firmware of this version has what firmware 5 brought: its
/// second character, the major version, is `'5'` or later.
pub open spec fn spec_supports_v5(version: [u8; 4]) -> bool {
    version@[1] >= DIGIT_FIVE
}

fn be_u16(high: u8, low: u8) -> (value: u16)
    ensures
        value == spec_be_u16(high, low),
{
    high as u16 * 256 + low as u16
}

/// Unpacks the data of the frame that answers `command`.
pub fn unpack_return_frame<E>(command: Command, frame: &Frame) -> (data: Result<&[u8], Error<E>>)
    ensures
        match data {
            Ok(data) => spec_unpack_return_frame::<E>(command, *frame) == Ok::<Seq<u8>, Error<E>>(
                data@,
            ),
            Err(error) => spec_unpack_return_frame::<E>(command, *frame) == Err::<Seq<u8>, Error<E>>(
                error,
            ),
        },
{
    match frame.validate() {
        Err(error) => Err(Error::ValidateFrameError(error)),
        Ok(()) => {
            if !frame.is_response() {
                Err(Error::NotAResponse)
            } else if frame.op_code() != command.op_code() {
                Err(Error::OpCodeMismatch { expected: command.op_code(), got: frame.op_code() })
            } else {
                Ok(frame.data())
            }
        },
    }
}

/// Decodes the response to a read of the CO₂ concentration.
pub fn decode_co2_ppm<E>(response: [u8; 9]) -> (co2: Result<u16, Error<E>>)
    ensures
        co2 == spec_co2_ppm::<E>(response@),
{
    let frame = Frame::new(response);
    match unpack_return_frame::<E>(Command::ReadCo2, &frame) {
        Ok(data) => {
            proof {
                frame.lemma_len();
            }
            Ok(be_u16(data[0], data[1]))
        },
        Err(error) => Err(error),
    }
}

/// Decodes the response to a read of the CO₂ concentration and temperature.
pub fn decode_co2_and_temperature<E>(response: [u8; 9]) -> (measurement: Result<
    Co2AndTemperature,
    Error<E>,
>)
    ensures
        measurement == spec_co2_and_temperature::<E>(response@),
{
    let frame = Frame::new(response);
    match unpack_return_frame::<E>(Command::ReadCo2AndTemperature, &frame) {
        Ok(data) => {
            proof {
                frame.lemma_len();
            }
            let co2_ppm = be_u16(data[2], data[3]);
            let temp_centi_celsius = be_u16(data[0], data[1]);
            Ok(Co2AndTemperature { co2_ppm, temp_centi_celsius })
        },
        Err(error) => Err(error),
    }
}

/// Decodes the response to a query of the firmware version.
pub fn decode_firmware_version<E>(response: [u8; 9]) -> (version: Result<[u8; 4], Error<E>>)
    ensures
        version == spec_firmware_version::<E>(response@),
{
    let frame = Frame::new(response);
    match unpack_return_frame::<E>(Command::GetFirmwareVersion, &frame) {
        Ok(data) => {
            proof {
                frame.lemma_len();
            }
            let version = [data[0], data[1], data[2], data[3]];
            assert(version =~= [data@[0], data@[1], data@[2], data@[3]]);
            Ok(version)
        },
        Err(error) => Err(error),
    }
}

/// Whether the firmware of the given version supports what firmware 5
/// brought.
pub fn supports_v5(version: &[u8; 4]) -> (supported: bool)
    ensures
        supported == spec_supports_v5(*version),
{
    version[1] >= DIGIT_FIVE
}

/// The frame that asks for the CO₂ concentration and temperature.
pub const READ_CO2_AND_TEMPERATURE: [u8; 9] = [0xff, 0x01, 0x85, 0x00, 0x00, 0x00, 0x00, 0x00, 0x7a];

/// The frame that asks for the CO₂ concentration.
pub const READ_CO2: [u8; 9] = [0xff, 0x01, 0x86, 0x00, 0x00, 0x00, 0x00, 0x00, 0x79];

/// The frame that asks for the firmware version.
pub const GET_FIRMWARE_VERSION: [u8; 9] = [0xff, 0x01, 0xa0, 0x00, 0x00, 0x00, 0x00, 0x00, 0x5f];

/// The frames of the commands without arguments are those of the commands.
pub proof fn lemma_fixed_frames()
    ensures
        READ_CO2_AND_TEMPERATURE@ == command_frame(Command::ReadCo2AndTemperature),
        READ_CO2@ == command_frame(Command::ReadCo2),
        GET_FIRMWARE_VERSION@ == command_frame(Command::GetFirmwareVersion),
{
    reveal_with_fuel(byte_sum, 8);
    assert forall|command: Command| !(command is SetSelfCalibrate) implies #[trigger] command_frame(
        command,
    ) =~= seq![
        0xffu8,
        0x01,
        command.spec_op_code(),
        0,
        0,
        0,
        0,
        0,
        ((0 - (1 + command.spec_op_code())) % 256) as u8,
    ] by {
        let body = seq![0x01u8] + command.spec_serialize();
        assert(body.len() == 7);
        assert(body.drop_last().drop_last().drop_last().drop_last().drop_last().drop_last()
            .drop_last().len() == 0);
        assert(byte_sum(body) == 1 + command.spec_op_code());
    }
    assert(READ_CO2_AND_TEMPERATURE@ =~= command_frame(Command::ReadCo2AndTemperature));
    assert(READ_CO2@ =~= command_frame(Command::ReadCo2));
    assert(GET_FIRMWARE_VERSION@ =~= command_frame(Command::GetFirmwareVersion));
}

/// Whether two commands are of one kind: they differ at most in their
/// arguments.
pub open spec fn same_kind(a: Command, b: Command) -> bool {
    a.spec_op_code() == b.spec_op_code()
}

/// A response buffer into which nothing has been read yet.
pub open spec fn blank_response() -> Seq<u8> {
    Seq::new(9, |i: int| 0u8)
}

/// The calls that carry out `command`: its frame is written, and, for every
/// command but the setting of the self-calibration, the transport is flushed
/// and the nine bytes of `response` are read.
pub open spec fn script_of<E>(command: Command, response: Seq<u8>) -> Seq<Call<E>> {
    match command {
        Command::SetSelfCalibrate(_) => writes_taken(command_frame(command)),
        _ => exchange_script(command_frame(command), response),
    }
}

/// What a driver is doing.
pub struct Activity<E> {
    /// Whether an operation is in flight. A driver that is not busy is idle.
    pub busy: bool,
    /// The command in flight; in an idle driver, the last command that was.
    pub command: Command,
    /// The buffer that takes the response to the command.
    pub response: Seq<u8>,
    /// The calls made on the transport since the driver was made, and how far
    /// the command has come.
    pub progress: Progress<E>,
}

impl<E> Activity<E> {
    /// The progress is that of the command.
    pub open spec fn wf(self) -> bool {
        &&& self.response.len() == 9
        &&& self.progress.wf()
        &&& self.progress.script == script_of::<E>(self.command, self.response)
    }

    /// What a call for `command` polls: the operation in flight if there is
    /// one, and else `command`, of which no call has been made yet.
    pub open spec fn begun(self, command: Command) -> Activity<E> {
        if self.busy {
            self
        } else {
            Activity {
                busy: true,
                command,
                response: blank_response(),
                progress: Progress {
                    log: self.progress.log,
                    script: script_of::<E>(command, blank_response()),
                    position: 0,
                },
            }
        }
    }

    /// A call for `command`, whose response `decode` reads, returned `answer`
    /// and took the driver from `self` to `post`. The call polled what it
    /// began with, once.
    ///
    /// * Where the transport made it wait, the call says so and the
    ///   operation stays in flight.
    /// * Where the transport failed, the call gives the error and the driver
    ///   is idle.
    /// * Where the operation came to its end, the driver is idle. The call
    ///   gives what the response decodes to if the operation was of the kind
    ///   of `command`; if it was of another kind, the call says that it has
    ///   to wait, as no call for `command` has been made yet.
    pub open spec fn served<T>(
        self,
        command: Command,
        decode: spec_fn(Seq<u8>) -> Result<T, Error<E>>,
        answer: NbResult<T, Error<E>>,
        post: Activity<E>,
    ) -> bool {
        let start = self.begun(command);
        &&& post.wf()
        &&& post.command == start.command
        &&& match answer {
            Err(NbError::WouldBlock) => if post.busy {
                start.progress.polled(Err(NbError::WouldBlock), post.progress)
            } else {
                &&& !same_kind(start.command, command)
                &&& start.progress.polled(Ok(()), post.progress)
            },
            Err(NbError::Other(Error::UartError(error))) => {
                &&& !post.busy
                &&& start.progress.polled(Err(NbError::Other(error)), post.progress)
            },
            _ => {
                &&& !post.busy
                &&& same_kind(start.command, command)
                &&& start.progress.polled(Ok(()), post.progress)
                &&& answer == match decode(post.response) {
                    Ok(value) => Ok::<T, NbError<Error<E>>>(value),
                    Err(error) => Err(NbError::Other(error)),
                }
            },
        }
    }
}

/// A call for one operation while another is in flight does nothing for its
/// own: it polls the operation in flight, so that every call that it makes
/// on the transport is the next of that operation's script, and it returns
/// an error. The error is a failure of the transport, if there was one, and
/// else the one that tells to call again.
pub proof fn lemma_call_polls_operation_in_flight<E, T>(
    pre: Activity<E>,
    command: Command,
    decode: spec_fn(Seq<u8>) -> Result<T, Error<E>>,
    answer: NbResult<T, Error<E>>,
    post: Activity<E>,
)
    requires
        pre.busy,
        !same_kind(pre.command, command),
        pre.served(command, decode, answer, post),
    ensures
        post.command == pre.command,
        post.progress.script == script_of::<E>(pre.command, post.response),
        answer matches Err(error) && (error matches NbError::Other(failure)
            ==> failure is UartError),
        pre.progress.advanced(
            match answer {
                Err(NbError::Other(Error::UartError(error))) => Err(NbError::Other(error)),
                _ => if post.busy {
                    Err(NbError::WouldBlock)
                } else {
                    Ok(())
                },
            },
            post.progress,
        ),
        post.busy ==> answer == Err::<T, NbError<Error<E>>>(NbError::WouldBlock),
{
}

/// An operation that was begun and made to wait is not overtaken. A call for
/// an operation of another kind, made while the first waits, goes on with
/// the first: of all calls made since the driver was idle, the transport has
/// answered well those of the first operation's script up to its position,
/// each once and in order, and no other. The second call returns an error,
/// the one that tells to call again unless the transport failed.
pub proof fn lemma_operation_in_flight_goes_first<E, A, B>(
    idle: Activity<E>,
    first: Command,
    decode_first: spec_fn(Seq<u8>) -> Result<A, Error<E>>,
    first_answer: NbResult<A, Error<E>>,
    stalled: Activity<E>,
    second: Command,
    decode_second: spec_fn(Seq<u8>) -> Result<B, Error<E>>,
    second_answer: NbResult<B, Error<E>>,
    after: Activity<E>,
)
    requires
        !idle.busy,
        idle.served(first, decode_first, first_answer, stalled),
        stalled.busy,
        !same_kind(first, second),
        stalled.served(second, decode_second, second_answer, after),
    ensures
        first_answer == Err::<A, NbError<Error<E>>>(NbError::WouldBlock),
        second_answer matches Err(error) && (error matches NbError::Other(failure)
            ==> failure is UartError),
        after.busy ==> second_answer == Err::<B, NbError<Error<E>>>(NbError::WouldBlock),
        after.command == first,
        successes(after.progress.log) == successes(idle.progress.log) + script_of::<E>(
            first,
            after.response,
        ).take(after.progress.position as int),
{
    let begun = idle.begun(first);
    lemma_exchange_script::<E>(command_frame(first), blank_response());
    assert(begun.progress.wf());
    let second_polled: NbResult<(), E> = match second_answer {
        Err(NbError::Other(Error::UartError(error))) => Err(NbError::Other(error)),
        _ => if after.busy {
            Err(NbError::WouldBlock)
        } else {
            Ok(())
        },
    };
    let states = seq![begun.progress, stalled.progress, after.progress];
    let answers = seq![Err(NbError::WouldBlock), second_polled];
    assert forall|i: int| 0 <= i < answers.len() implies (#[trigger] states[i]).polled(
        answers[i],
        states[i + 1],
    ) by {
        if i == 0 {
            assert(begun.progress.polled(Err(NbError::WouldBlock), stalled.progress));
        } else {
            assert(stalled.progress.polled(second_polled, after.progress));
        }
    }
    lemma_polls_resume(states, answers);
    assert(states.last() == after.progress);
    assert(after.progress.script.subrange(0, after.progress.position as int)
        =~= after.progress.script.take(after.progress.position as int));
}

/// What the driver is occupied with, and the exchange that goes with it.
enum MhZ19CState<U: Transport> {
    Idle,
    ReadCo2AndTemperature(WriteAndReadResponse<U, 9, 9>),
    ReadCo2(WriteAndReadResponse<U, 9, 9>),
    GetFirmwareVersion(WriteAndReadResponse<U, 9, 9>),
    SetSelfCalibrate(WriteAll<U, 9>),
}

impl<U: Transport> Default for MhZ19CState<U> {
    fn default() -> (state: Self)
        ensures
            state is Idle,
    {
        Self::Idle
    }
}

impl<U: Transport> MhZ19CState<U> {
    /// The exchange of an operation that reads a response.
    spec fn exchange(&self) -> WriteAndReadResponse<U, 9, 9> {
        match self {
            Self::ReadCo2AndTemperature(future) => *future,
            Self::ReadCo2(future) => *future,
            Self::GetFirmwareVersion(future) => *future,
            _ => arbitrary(),
        }
    }

    /// The command of the operation.
    spec fn command(&self) -> Command {
        match self {
            Self::ReadCo2AndTemperature(_) => Command::ReadCo2AndTemperature,
            Self::ReadCo2(_) => Command::ReadCo2,
            Self::GetFirmwareVersion(_) => Command::GetFirmwareVersion,
            Self::SetSelfCalibrate(future) => Command::SetSelfCalibrate(
                future.bytes()[3] == 0xA0u8,
            ),
            Self::Idle => arbitrary(),
        }
    }

    /// What a driver with this operation in flight is doing.
    spec fn activity(&self) -> Activity<U::Error> {
        match self {
            Self::SetSelfCalibrate(future) => Activity {
                busy: true,
                command: self.command(),
                response: blank_response(),
                progress: future.progress(),
            },
            _ => Activity {
                busy: true,
                command: self.command(),
                response: self.exchange().buffer(),
                progress: self.exchange().progress(),
            },
        }
    }

    /// The future of the operation stands as it should, writes the frame of
    /// the command, and reads nine bytes if it reads at all.
    spec fn wf(&self) -> bool {
        match self {
            Self::Idle => true,
            Self::SetSelfCalibrate(future) => future.wf() && future.bytes() == command_frame(
                self.command(),
            ),
            _ => {
                &&& self.exchange().wf()
                &&& self.exchange().request() == command_frame(self.command())
                &&& self.exchange().target() == 9
            },
        }
    }

    /// What the driver is doing while an operation is in flight is well
    /// formed.
    proof fn lemma_activity_wf(&self)
        requires
            self.wf(),
            !(self is Idle),
        ensures
            self.activity().wf(),
    {
        match self {
            Self::SetSelfCalibrate(future) => {
                future.lemma_progress_wf();
            },
            _ => {
                let exchange = self.exchange();
                exchange.lemma_progress_wf();
                exchange.lemma_complete();
                assert(exchange.buffer().take(9) =~= exchange.buffer());
            },
        }
    }

    /// Whether the operation is of the kind of `command`.
    fn answers(&self, command: &Command) -> (same: bool)
        requires
            !(self is Idle),
        ensures
            same == same_kind(self.command(), *command),
    {
        match self {
            Self::Idle => false,
            Self::ReadCo2AndTemperature(_) => command.op_code() == 0x85,
            Self::ReadCo2(_) => command.op_code() == 0x86,
            Self::GetFirmwareVersion(_) => command.op_code() == 0xA0,
            Self::SetSelfCalibrate(_) => command.op_code() == 0x79,
        }
    }
}

/// Driver for the MH-Z19C sensor.
pub struct MhZ19C<U: Transport> {
    state: MhZ19CState<U>,
    uart: Option<Line<U>>,
    last: Ghost<Activity<U::Error>>,
}

impl<U: Transport> View for MhZ19C<U> {
    type V = Activity<U::Error>;

    /// What the driver is doing.
    closed spec fn view(&self) -> Activity<U::Error> {
        if self.state is Idle {
            self.last@
        } else {
            self.state.activity()
        }
    }
}

/// What a poll of the operation in flight, which took the driver from `pre`
/// to `post`, gives to a call for `command`.
spec fn turned<E>(
    pre: Activity<E>,
    command: Command,
    answer: NbResult<[u8; 9], E>,
    post: Activity<E>,
) -> bool {
    let start = pre.begun(command);
    &&& post.wf()
    &&& post.command == start.command
    &&& match answer {
        Ok(buffer) => {
            &&& !post.busy
            &&& same_kind(start.command, command)
            &&& start.progress.polled(Ok(()), post.progress)
            &&& buffer@ == post.response
        },
        Err(NbError::WouldBlock) => if post.busy {
            start.progress.polled(Err(NbError::WouldBlock), post.progress)
        } else {
            &&& !same_kind(start.command, command)
            &&& start.progress.polled(Ok(()), post.progress)
        },
        Err(NbError::Other(error)) => {
            &&& !post.busy
            &&& start.progress.polled(Err(NbError::Other(error)), post.progress)
        },
    }
}

impl<U: Transport> MhZ19C<U> {
    /// Exactly one of the driver and the operation in flight holds the
    /// transport, and the operation stands as it should.
    pub closed spec fn wf(&self) -> bool {
        &&& self.state.wf()
        &&& self.state is Idle <==> self.uart is Some
        &&& self.state is Idle ==> !self.last@.busy && self.last@.progress.log
            == self.uart->Some_0.log()
    }

    /// The transport with the record of its calls, whoever holds it.
    pub closed spec fn line(&self) -> Line<U> {
        match self.state {
            MhZ19CState::Idle => self.uart->Some_0,
            MhZ19CState::SetSelfCalibrate(future) => future.line(),
            _ => self.state.exchange().line(),
        }
    }

    /// The log of the driver is that of its transport.
    pub proof fn lemma_log(&self)
        requires
            self.wf(),
        ensures
            self@.progress.log == self.line().log(),
    {
    }

    /// Create a new instance.
    ///
    /// * `uart`: Serial (UART) interface for communication with the sensor.
    pub fn new(uart: U) -> (driver: Self)
        ensures
            driver.wf(),
            !driver@.busy,
            driver@.progress.log == Seq::<Call<U::Error>>::empty(),
            driver.line().transport() == uart,
    {
        Self {
            state: MhZ19CState::default(),
            uart: Some(Line::new(uart)),
            last: Ghost(
                Activity {
                    busy: false,
                    command: Command::ReadCo2,
                    response: blank_response(),
                    progress: Progress { log: Seq::empty(), script: Seq::empty(), position: 0 },
                },
            ),
        }
    }

    /// Returns the owned UART interface.
    ///
    /// Note that this might leave the interface with partially written or read
    /// bytes on the UART interface if not all MH-Z19C commands have been polled
    /// to completion (i.e. the last command call returned
    /// [`NbError::WouldBlock`]).
    pub fn into_inner(self) -> (uart: U)
        requires
            self.wf(),
        ensures
            uart == self.line().transport(),
    {
        let MhZ19C { state, uart, last: _ } = self;
        match state {
            MhZ19CState::Idle => uart.unwrap().into_inner(),
            MhZ19CState::ReadCo2AndTemperature(future) => future.into_return_value().0,
            MhZ19CState::ReadCo2(future) => future.into_return_value().0,
            MhZ19CState::GetFirmwareVersion(future) => future.into_return_value().0,
            MhZ19CState::SetSelfCalibrate(future) => future.into_return_value(),
        }
    }

    /// Polls the operation in flight.
    fn poll(&mut self) -> (answer: NbResult<(), U::Error>)
        requires
            old(self).wf(),
            !(old(self).state is Idle),
        ensures
            final(self).state.wf(),
            !(final(self).state is Idle),
            final(self).uart == old(self).uart,
            final(self).last == old(self).last,
            final(self).state.command() == old(self).state.command(),
            old(self).state.activity().progress.polled(
                answer,
                final(self).state.activity().progress,
            ),
    {
        match &mut self.state {
            MhZ19CState::Idle => Ok(()),
            MhZ19CState::ReadCo2AndTemperature(future) => future.poll(),
            MhZ19CState::ReadCo2(future) => future.poll(),
            MhZ19CState::GetFirmwareVersion(future) => future.poll(),
            MhZ19CState::SetSelfCalibrate(future) => future.poll(),
        }
    }

    /// Takes the transport back from an operation, and the buffer with it.
    fn recover_uart(&mut self, state: MhZ19CState<U>) -> (buffer: [u8; 9])
        requires
            old(self).state is Idle,
            old(self).uart is None,
            state.wf(),
            !(state is Idle),
        ensures
            final(self).wf(),
            final(self)@ == (Activity { busy: false, ..state.activity() }),
            buffer@ == state.activity().response,
    {
        proof {
            state.lemma_activity_wf();
        }
        let ghost done = Activity { busy: false, ..state.activity() };
        let (uart, buffer) = match state {
            MhZ19CState::Idle => vstd::pervasive::unreached(),
            MhZ19CState::ReadCo2AndTemperature(future) => future.into_parts(),
            MhZ19CState::ReadCo2(future) => future.into_parts(),
            MhZ19CState::GetFirmwareVersion(future) => future.into_parts(),
            MhZ19CState::SetSelfCalibrate(future) => (future.into_line(), [0u8; 9]),
        };
        assert(buffer@ =~= done.response);
        self.uart = Some(uart);
        self.last = Ghost(done);
        buffer
    }

    /// Begins the operation for `command` if none is in flight, polls the
    /// operation in flight once, and takes the transport back where the
    /// operation ended.
    fn drive(&mut self, command: Command) -> (answer: NbResult<[u8; 9], U::Error>)
        requires
            old(self).wf(),
        ensures
            final(self).wf(),
            turned(old(self)@, command, answer, final(self)@),
    {
        let ghost start = self@.begun(command);
        if self.uart.is_some() {
            let uart = self.uart.take().unwrap();
            proof {
                lemma_fixed_frames();
                lemma_exchange_script::<U::Error>(command_frame(command), blank_response());
            }
            self.state = match command {
                Command::ReadCo2AndTemperature => MhZ19CState::ReadCo2AndTemperature(
                    WriteAndReadResponse::over(uart, READ_CO2_AND_TEMPERATURE, [0u8; 9], 9),
                ),
                Command::ReadCo2 => MhZ19CState::ReadCo2(
                    WriteAndReadResponse::over(uart, READ_CO2, [0u8; 9], 9),
                ),
                Command::GetFirmwareVersion => MhZ19CState::GetFirmwareVersion(
                    WriteAndReadResponse::over(uart, GET_FIRMWARE_VERSION, [0u8; 9], 9),
                ),
                Command::SetSelfCalibrate(_) => MhZ19CState::SetSelfCalibrate(
                    WriteAll::over(uart, Frame::from(command).into_inner()),
                ),
            };
            proof {
                let begun = self.state.activity();
                assert(begun.response =~= start.response);
                assert(begun.response.take(9) =~= begun.response);
                assert(begun.command == command);
                assert(begun.progress.script =~= start.progress.script);
                assert(begun.progress == start.progress);
            }
        }
        assert(self.state.activity() == start);
        let polled = self.poll();
        proof {
            self.state.lemma_activity_wf();
        }
        match polled {
            Err(NbError::WouldBlock) => Err(NbError::WouldBlock),
            Err(NbError::Other(error)) => {
                let mut state = MhZ19CState::Idle;
                core::mem::swap(&mut self.state, &mut state);
                let _ = self.recover_uart(state);
                Err(NbError::Other(error))
            },
            Ok(()) => {
                let mut state = MhZ19CState::Idle;
                core::mem::swap(&mut self.state, &mut state);
                let same = state.answers(&command);
                let buffer = self.recover_uart(state);
                if same {
                    Ok(buffer)
                } else {
                    Err(NbError::WouldBlock)
                }
            },
        }
    }

    /// Reads and returns the CO₂ concentration in parts-per-million (ppm).
    pub fn read_co2_ppm(&mut self) -> (answer: NbResult<u16, Error<U::Error>>)
        requires
            old(self).wf(),
        ensures
            final(self).wf(),
            old(self)@.served(
                Command::ReadCo2,
                |response: Seq<u8>| spec_co2_ppm::<U::Error>(response),
                answer,
                final(self)@,
            ),
    {
        match self.drive(Command::ReadCo2) {
            Ok(buffer) => match decode_co2_ppm(buffer) {
                Ok(co2) => Ok(co2),
                Err(error) => Err(NbError::Other(error)),
            },
            Err(NbError::WouldBlock) => Err(NbError::WouldBlock),
            Err(NbError::Other(error)) => Err(NbError::Other(Error::UartError(error))),
        }
    }

    /// Retrieves the firmware version of the sensor.
    pub fn get_firmware_version(&mut self) -> (answer: NbResult<[u8; 4], Error<U::Error>>)
        requires
            old(self).wf(),
        ensures
            final(self).wf(),
            old(self)@.served(
                Command::GetFirmwareVersion,
                |response: Seq<u8>| spec_firmware_version::<U::Error>(response),
                answer,
                final(self)@,
            ),
    {
        match self.drive(Command::GetFirmwareVersion) {
            Ok(buffer) => match decode_firmware_version(buffer) {
                Ok(version) => Ok(version),
                Err(error) => Err(NbError::Other(error)),
            },
            Err(NbError::WouldBlock) => Err(NbError::WouldBlock),
            Err(NbError::Other(error)) => Err(NbError::Other(Error::UartError(error))),
        }
    }

    /// Activates or deactivates the sensor's self-calibration mode.
    ///
    /// See the sensor's data sheet for more information on self-calibration
    /// and hand-operated mode.
    pub fn set_self_calibrate(&mut self, enabled: bool) -> (answer: NbResult<
        (),
        Error<U::Error>,
    >)
        requires
            old(self).wf(),
        ensures
            final(self).wf(),
            old(self)@.served(
                Command::SetSelfCalibrate(enabled),
                |response: Seq<u8>| Ok::<(), Error<U::Error>>(()),
                answer,
                final(self)@,
            ),
    {
        match self.drive(Command::SetSelfCalibrate(enabled)) {
            Ok(_) => Ok(()),
            Err(NbError::WouldBlock) => Err(NbError::WouldBlock),
            Err(NbError::Other(error)) => Err(NbError::Other(Error::UartError(error))),
        }
    }
}

/// Driver for the MH-Z19C sensor with firmware 5 capabilities.
pub struct MhZ19CFw5<'a, U: Transport> {
    mh_z19c: &'a mut MhZ19C<U>,
}

/// Whether the firmware that sent the nine bytes `response` as its version
/// supports what firmware 5 brought, and the error if it does not.
pub open spec fn spec_upgrade<E>(response: Seq<u8>) -> Result<(), Error<E>> {
    match spec_firmware_version::<E>(response) {
        Ok(version) => if spec_supports_v5(version) {
            Ok(())
        } else {
            Err(Error::NotSupportedByFirmware(version))
        },
        Err(error) => Err(error),
    }
}

impl<'a, U: Transport> MhZ19CFw5<'a, U> {
    /// The driver that the handle works on.
    pub closed spec fn driver(&self) -> MhZ19C<U> {
        *self.mh_z19c
    }

    /// Gives up the handle for the driver that it works on.
    pub fn release(self) -> (driver: &'a mut MhZ19C<U>)
        ensures
            *driver == self.driver(),
    {
        self.mh_z19c
    }

    /// Reads and returns the CO₂ concentration in parts-per-million (ppm).
    pub fn read_co2_ppm(&mut self) -> (answer: NbResult<u16, Error<U::Error>>)
        requires
            old(self).driver().wf(),
        ensures
            final(self).driver().wf(),
            old(self).driver()@.served(
                Command::ReadCo2,
                |response: Seq<u8>| spec_co2_ppm::<U::Error>(response),
                answer,
                final(self).driver()@,
            ),
    {
        self.mh_z19c.read_co2_ppm()
    }

    /// Retrieves the firmware version of the sensor.
    pub fn get_firmware_version(&mut self) -> (answer: NbResult<[u8; 4], Error<U::Error>>)
        requires
            old(self).driver().wf(),
        ensures
            final(self).driver().wf(),
            old(self).driver()@.served(
                Command::GetFirmwareVersion,
                |response: Seq<u8>| spec_firmware_version::<U::Error>(response),
                answer,
                final(self).driver()@,
            ),
    {
        self.mh_z19c.get_firmware_version()
    }

    /// Activates or deactivates the sensor's self-calibration mode.
    ///
    /// See the sensor's data sheet for more information on self-calibration
    /// and hand-operated mode.
    pub fn set_self_calibrate(&mut self, enabled: bool) -> (answer: NbResult<
        (),
        Error<U::Error>,
    >)
        requires
            old(self).driver().wf(),
        ensures
            final(self).driver().wf(),
            old(self).driver()@.served(
                Command::SetSelfCalibrate(enabled),
                |response: Seq<u8>| Ok::<(), Error<U::Error>>(()),
                answer,
                final(self).driver()@,
            ),
    {
        self.mh_z19c.set_self_calibrate(enabled)
    }

    /// Reads the CO₂ concentration and temperature.
    pub fn read_co2_and_temp(&mut self) -> (answer: NbResult<Co2AndTemperature, Error<U::Error>>)
        requires
            old(self).driver().wf(),
        ensures
            final(self).driver().wf(),
            old(self).driver()@.served(
                Command::ReadCo2AndTemperature,
                |response: Seq<u8>| spec_co2_and_temperature::<U::Error>(response),
                answer,
                final(self).driver()@,
            ),
    {
        match self.mh_z19c.drive(Command::ReadCo2AndTemperature) {
            Ok(buffer) => match decode_co2_and_temperature(buffer) {
                Ok(measurement) => Ok(measurement),
                Err(error) => Err(NbError::Other(error)),
            },
            Err(NbError::WouldBlock) => Err(NbError::WouldBlock),
            Err(NbError::Other(error)) => Err(NbError::Other(Error::UartError(error))),
        }
    }
}

impl<U: Transport> MhZ19C<U> {
    /// Will make the firmware 5 capabilities available.
    ///
    /// If the sensor firmware is not at least of version 5, an error will be
    /// returned.
    pub fn upgrade_to_v5<'b>(&'b mut self) -> (answer: NbResult<MhZ19CFw5<'b, U>, Error<U::Error>>)
        requires
            old(self).wf(),
        ensures
            match answer {
                Ok(handle) => {
                    &&& handle.driver().wf()
                    &&& old(self)@.served(
                        Command::GetFirmwareVersion,
                        |response: Seq<u8>| spec_upgrade::<U::Error>(response),
                        Ok(()),
                        handle.driver()@,
                    )
                },
                Err(error) => {
                    &&& final(self).wf()
                    &&& old(self)@.served(
                        Command::GetFirmwareVersion,
                        |response: Seq<u8>| spec_upgrade::<U::Error>(response),
                        Err::<(), NbError<Error<U::Error>>>(error),
                        final(self)@,
                    )
                },
            },
    {
        match self.get_firmware_version() {
            Ok(fw_version) => {
                if supports_v5(&fw_version) {
                    Ok(MhZ19CFw5 { mh_z19c: self })
                } else {
                    Err(NbError::Other(Error::NotSupportedByFirmware(fw_version)))
                }
            },
            Err(error) => Err(error),
        }
    }
}

/// Methods supported by all MH-Z19C sensors.
pub trait BaseApi<E>: Sized {
    /// What holds of a driver between any two calls.
    spec fn well_formed(&self) -> bool;

    /// What the driver is doing.
    spec fn activity(&self) -> Activity<E>;

    /// Reads and returns the CO₂ concentration in parts-per-million (ppm).
    fn read_co2_ppm(&mut self) -> (answer: NbResult<u16, Error<E>>)
        requires
            old(self).well_formed(),
        ensures
            final(self).well_formed(),
            old(self).activity().served(
                Command::ReadCo2,
                |response: Seq<u8>| spec_co2_ppm::<E>(response),
                answer,
                final(self).activity(),
            ),
    ;

    /// Retrieves the firmware version of the sensor.
    fn get_firmware_version(&mut self) -> (answer: NbResult<[u8; 4], Error<E>>)
        requires
            old(self).well_formed(),
        ensures
            final(self).well_formed(),
            old(self).activity().served(
                Command::GetFirmwareVersion,
                |response: Seq<u8>| spec_firmware_version::<E>(response),
                answer,
                final(self).activity(),
            ),
    ;

    /// Activates or deactivates the sensor's self-calibration mode.
    ///
    /// See the sensor's data sheet for more information on self-calibration
    /// and hand-operated mode.
    fn set_self_calibrate(&mut self, enabled: bool) -> (answer: NbResult<(), Error<E>>)
        requires
            old(self).well_formed(),
        ensures
            final(self).well_formed(),
            old(self).activity().served(
                Command::SetSelfCalibrate(enabled),
                |response: Seq<u8>| Ok::<(), Error<E>>(()),
                answer,
                final(self).activity(),
            ),
    ;
}

/// Methods supported by all MH-Z19C sensors with firmware 5.
pub trait Firmware5Api<E>: BaseApi<E> {
    /// Reads the CO₂ concentration and temperature.
    fn read_co2_and_temp(&mut self) -> (answer: NbResult<Co2AndTemperature, Error<E>>)
        requires
            old(self).well_formed(),
        ensures
            final(self).well_formed(),
            old(self).activity().served(
                Command::ReadCo2AndTemperature,
                |response: Seq<u8>| spec_co2_and_temperature::<E>(response),
                answer,
                final(self).activity(),
            ),
    ;
}

impl<U: Transport> BaseApi<U::Error> for MhZ19C<U> {
    open spec fn well_formed(&self) -> bool {
        self.wf()
    }

    open spec fn activity(&self) -> Activity<U::Error> {
        self@
    }

    fn read_co2_ppm(&mut self) -> (answer: NbResult<u16, Error<U::Error>>) {
        MhZ19C::read_co2_ppm(self)
    }

    fn get_firmware_version(&mut self) -> (answer: NbResult<[u8; 4], Error<U::Error>>) {
        MhZ19C::get_firmware_version(self)
    }

    fn set_self_calibrate(&mut self, enabled: bool) -> (answer: NbResult<(), Error<U::Error>>) {
        MhZ19C::set_self_calibrate(self, enabled)
    }
}

impl<'a, U: Transport> BaseApi<U::Error> for MhZ19CFw5<'a, U> {
    open spec fn well_formed(&self) -> bool {
        self.driver().wf()
    }

    open spec fn activity(&self) -> Activity<U::Error> {
        self.driver()@
    }

    fn read_co2_ppm(&mut self) -> (answer: NbResult<u16, Error<U::Error>>) {
        MhZ19CFw5::read_co2_ppm(self)
    }

    fn get_firmware_version(&mut self) -> (answer: NbResult<[u8; 4], Error<U::Error>>) {
        MhZ19CFw5::get_firmware_version(self)
    }

    fn set_self_calibrate(&mut self, enabled: bool) -> (answer: NbResult<(), Error<U::Error>>) {
        MhZ19CFw5::set_self_calibrate(self, enabled)
    }
}

impl<'a, U: Transport> Firmware5Api<U::Error> for MhZ19CFw5<'a, U> {
    fn read_co2_and_temp(&mut self) -> (answer: NbResult<Co2AndTemperature, Error<U::Error>>) {
        MhZ19CFw5::read_co2_and_temp(self)
    }
}

} // verus!
