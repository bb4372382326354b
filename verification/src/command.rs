//! MH-Z19C command definitions.

use vstd::prelude::*;

verus! {

/// Commands understood by the MH-Z19C sensor.
#[derive(Clone, Copy, Debug, PartialEq, Eq)]
pub enum Command {
    /// Read CO₂ concentration and temperature from sensor.
    /// Requires firmware version 5 or higher.
    ReadCo2AndTemperature,
    /// Read CO₂ concentration from sensor.
    ReadCo2,
    /// Read out the firmware version of the sensor.
    GetFirmwareVersion,
    /// Set self calibration enabled status.
    SetSelfCalibrate(bool),
}

impl Command {
    /// The op code that identifies the command on the wire.
    pub open spec fn spec_op_code(&self) -> u8 {
        match *self {
            Command::ReadCo2AndTemperature => 0x85,
            Command::ReadCo2 => 0x86,
            Command::GetFirmwareVersion => 0xA0,
            Command::SetSelfCalibrate(_) => 0x79,
        }
    }

    /// The five argument bytes that follow the op code on the wire.
    pub open spec fn spec_arguments(&self) -> Seq<u8> {
        match *self {
            Command::SetSelfCalibrate(true) => seq![0xA0u8, 0, 0, 0, 0],
            _ => seq![0u8, 0, 0, 0, 0],
        }
    }

    /// The op code followed by the argument bytes.
    pub open spec fn spec_serialize(&self) -> Seq<u8> {
        seq![self.spec_op_code()] + self.spec_arguments()
    }

    /// Op code used for the command in communication with the sensor.
    #[verifier::when_used_as_spec(spec_op_code)]
    pub fn op_code(&self) -> (code: u8)
        ensures
            code == self.spec_op_code(),
    {
        match self {
            Self::ReadCo2AndTemperature => 0x85,
            Self::ReadCo2 => 0x86,
            Self::GetFirmwareVersion => 0xA0,
            Self::SetSelfCalibrate(_) => 0x79,
        }
    }

    /// Serialize the command op code together with its arguments.
    pub fn serialize(&self) -> (bytes: [u8; 6])
        ensures
            bytes@ == self.spec_serialize(),
    {
        let bytes: [u8; 6] = match self {
            Self::ReadCo2AndTemperature => [self.op_code(), 0, 0, 0, 0, 0],
            Self::ReadCo2 => [self.op_code(), 0, 0, 0, 0, 0],
            Self::GetFirmwareVersion => [self.op_code(), 0, 0, 0, 0, 0],
            Self::SetSelfCalibrate(true) => [self.op_code(), 0xa0, 0, 0, 0, 0],
            Self::SetSelfCalibrate(false) => [self.op_code(), 0, 0, 0, 0, 0],
        };
        assert(bytes@ =~= self.spec_serialize());
        bytes
    }
}

} // verus!
