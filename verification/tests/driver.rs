use mh_z19c::command::Command;
use mh_z19c::driver::{
    decode_co2_and_temperature, decode_co2_ppm, decode_firmware_version, supports_v5,
    unpack_return_frame, BaseApi, Co2AndTemperature, Error, Firmware5Api, MhZ19C,
};
use mh_z19c::frame::{Frame, ValidateFrameError};
use mh_z19c::serial_mock::SerialMock;
use mh_z19c::transport::{NbError, NbResult};

const READ_CO2_RESPONSE: [u8; 9] = [0xff, 0x86, 0x03, 0x20, 0x12, 0x34, 0x56, 0x78, 0x43];
const READ_CO2_AND_TEMPERATURE_RESPONSE: [u8; 9] =
    [0xff, 0x85, 0x09, 0x60, 0x03, 0x20, 0x00, 0x00, 0xef];
const FIRMWARE_0515_RESPONSE: [u8; 9] = [0xff, 0xa0, 0x30, 0x35, 0x31, 0x35, 0x00, 0x00, 0x95];
const FIRMWARE_0400_RESPONSE: [u8; 9] = [0xff, 0xa0, 0x30, 0x34, 0x30, 0x30, 0x00, 0x00, 0x9c];
const SELF_CALIBRATE_ON_COMMAND: [u8; 9] = [0xff, 0x01, 0x79, 0xa0, 0x00, 0x00, 0x00, 0x00, 0xe6];

/// A transport that takes nine bytes and then gives `data`.
fn create_serial_mock_returning(data: &[u8]) -> SerialMock {
    SerialMock::new(data.iter().copied().map(Ok).collect(), vec![Ok(()); 9])
}

/// Calls `operation` again and again until it has a result.
fn block<T, E>(mut operation: impl FnMut() -> NbResult<T, E>) -> Result<T, E> {
    loop {
        match operation() {
            Err(NbError::Other(error)) => return Err(error),
            Err(NbError::WouldBlock) => {}
            Ok(value) => return Ok(value),
        }
    }
}

#[test]
fn lib_test_read_co2() {
    let uart = create_serial_mock_returning(&READ_CO2_RESPONSE);
    let mut co2sensor = MhZ19C::new(uart);
    let co2 = block(|| co2sensor.read_co2_ppm());
    let uart = co2sensor.into_inner();
    assert_eq!(uart.write_buf, Frame::from(Command::ReadCo2).into_inner());
    assert_eq!(co2, Ok(800));
}

#[test]
fn lib_test_read_co2_uart_error() {
    let uart = SerialMock::new(
        vec![Err(NbError::Other("No more data.".into()))],
        vec![Ok(()); 9],
    );
    let mut co2sensor = MhZ19C::new(uart);
    assert_eq!(
        block(|| co2sensor.read_co2_ppm()),
        Err(Error::UartError("No more data.".into()))
    );
}

#[test]
fn lib_test_read_co2_invalid_start_byte() {
    let mut response = READ_CO2_RESPONSE.clone();
    response[0] = 0x00;
    let uart = create_serial_mock_returning(&response);
    let mut co2sensor = MhZ19C::new(uart);
    assert_eq!(
        block(|| co2sensor.read_co2_ppm()),
        Err(Error::ValidateFrameError(
            ValidateFrameError::InvalidStartByte(0x00)
        ))
    );
}

#[test]
fn lib_test_read_co2_invalid_checksum() {
    let mut response = READ_CO2_RESPONSE.clone();
    response[8] = 0x00;
    let uart = create_serial_mock_returning(&response);
    let mut co2sensor = MhZ19C::new(uart);
    assert_eq!(
        block(|| co2sensor.read_co2_ppm()),
        Err(Error::ValidateFrameError(
            ValidateFrameError::InvalidChecksum {
                expected: READ_CO2_RESPONSE[8],
                actual: 0x00
            }
        ))
    );
}

#[test]
fn test_set_self_calibrate() -> Result<(), Error<String>> {
    let uart = create_serial_mock_returning(&[]);
    let mut co2sensor = MhZ19C::new(uart);
    block(|| co2sensor.set_self_calibrate(true))?;
    let uart = co2sensor.into_inner();
    assert_eq!(uart.write_buf, SELF_CALIBRATE_ON_COMMAND);
    Ok(())
}

#[test]
fn test_set_self_calibrate_uart_error() {
    let uart = SerialMock::new(vec![], vec![Err(NbError::Other("No more data.".into()))]);
    let mut co2sensor = MhZ19C::new(uart);
    assert_eq!(
        block(|| co2sensor.set_self_calibrate(true)),
        Err(Error::UartError("No more data.".into()))
    );
}

#[test]
fn test_into_inner_during_read() {
    let uart = SerialMock::new(vec![], vec![Err(NbError::WouldBlock)]);
    let mut co2sensor = MhZ19C::new(uart);
    assert_eq!(co2sensor.read_co2_ppm(), Err(NbError::WouldBlock));
    let _ = co2sensor.into_inner(); // Must not panic
}

#[test]
fn test_ignore_read_co2_result_by_polling_set_self_calibrate() {
    let mut read_data = Vec::with_capacity(10);
    read_data.push(Err(NbError::WouldBlock));
    read_data.extend(READ_CO2_RESPONSE.iter().copied().map(Ok));
    let uart = SerialMock::new(read_data, vec![Ok(()); 2 * 9]);
    let mut co2sensor = MhZ19C::new(uart);
    assert_eq!(co2sensor.read_co2_ppm(), Err(NbError::WouldBlock));
    assert_eq!(block(|| co2sensor.set_self_calibrate(true)), Ok(()));
}

#[test]
fn test_read_co2_without_waiting_for_set_self_calibrate() {
    let mut write_return_values = vec![Ok(()); 2 * 9 + 1];
    write_return_values[0] = Err(NbError::WouldBlock);
    let uart = SerialMock::new(
        READ_CO2_RESPONSE.iter().copied().map(Ok).collect(),
        write_return_values,
    );
    let mut co2sensor = MhZ19C::new(uart);
    assert_eq!(
        co2sensor.set_self_calibrate(true),
        Err(NbError::WouldBlock)
    );
    assert_eq!(block(|| co2sensor.read_co2_ppm()), Ok(800));
}

#[test]
fn test_get_firmware_version() {
    let uart = create_serial_mock_returning(&FIRMWARE_0515_RESPONSE);
    let mut co2sensor = MhZ19C::new(uart);
    let firmware = block(|| co2sensor.get_firmware_version());
    let uart = co2sensor.into_inner();
    assert_eq!(
        uart.write_buf,
        Frame::from(Command::GetFirmwareVersion).into_inner()
    );
    assert_eq!(firmware, Ok(*b"0515"));
}

#[test]
fn test_get_firmware_version_error() {
    let uart = SerialMock::new(
        vec![Err(NbError::Other("No more data.".into()))],
        vec![Ok(()); 9],
    );
    let mut co2sensor = MhZ19C::new(uart);
    assert_eq!(
        block(|| co2sensor.get_firmware_version()),
        Err(Error::UartError("No more data.".into()))
    );
}

#[test]
fn test_upgrade_to_v5() {
    let uart = create_serial_mock_returning(&FIRMWARE_0515_RESPONSE);
    let mut co2sensor = MhZ19C::new(uart);
    loop {
        match co2sensor.upgrade_to_v5() {
            Ok(_) => break,
            Err(NbError::WouldBlock) => {}
            Err(NbError::Other(error)) => panic!("upgrade failed: {:?}", error),
        }
    }
}

#[test]
fn test_upgrade_to_v5_error() {
    let uart = create_serial_mock_returning(&FIRMWARE_0400_RESPONSE);
    let mut co2sensor = MhZ19C::new(uart);
    let error = loop {
        match co2sensor.upgrade_to_v5() {
            Ok(_) => break None,
            Err(NbError::WouldBlock) => {}
            Err(NbError::Other(error)) => break Some(error),
        }
    };
    assert_eq!(error, Some(Error::NotSupportedByFirmware(*b"0400")));
}

#[test]
fn test_read_co2_and_temperature() {
    let mut responses: Vec<NbResult<u8, String>> = FIRMWARE_0515_RESPONSE
        .iter()
        .chain(READ_CO2_AND_TEMPERATURE_RESPONSE.iter())
        .copied()
        .map(Ok)
        .collect();
    responses.push(Err(NbError::Other("No more data.".into())));
    let uart = SerialMock::new(responses, vec![Ok(()); 27]);
    let mut co2sensor = MhZ19C::new(uart);
    // The sensor answers the query of its version at once.
    let mut co2sensor = match co2sensor.upgrade_to_v5() {
        Ok(handle) => handle,
        Err(error) => panic!("upgrade failed: {:?}", error),
    };

    let measurement = block(|| co2sensor.read_co2_and_temp());
    assert_eq!(
        measurement,
        Ok(Co2AndTemperature {
            co2_ppm: 800,
            temp_centi_celsius: 2400,
        })
    );
    assert_eq!(
        f32::from(measurement.unwrap().temp_centi_celsius) / 100.0,
        24.
    );
    assert_eq!(
        block(|| co2sensor.read_co2_and_temp()),
        Err(Error::UartError("No more data.".into()))
    );
}

#[test]
fn response_decodes_to_800_ppm() {
    assert_eq!(decode_co2_ppm::<String>(READ_CO2_RESPONSE), Ok(800));
}

#[test]
fn response_with_wrong_start_byte_is_rejected() {
    let mut response = READ_CO2_RESPONSE;
    response[0] = 0x00;
    assert_eq!(
        decode_co2_ppm::<String>(response),
        Err(Error::ValidateFrameError(
            ValidateFrameError::InvalidStartByte(0x00)
        ))
    );
}

#[test]
fn response_with_wrong_checksum_is_rejected() {
    let mut response = READ_CO2_RESPONSE;
    response[8] = 0x00;
    assert_eq!(
        decode_co2_ppm::<String>(response),
        Err(Error::ValidateFrameError(
            ValidateFrameError::InvalidChecksum {
                expected: 0x43,
                actual: 0x00
            }
        ))
    );
}

#[test]
fn start_byte_is_looked_at_before_the_checksum() {
    let response = [0x00, 0x86, 0x03, 0x20, 0x12, 0x34, 0x56, 0x78, 0x00];
    assert_eq!(
        decode_co2_ppm::<String>(response),
        Err(Error::ValidateFrameError(
            ValidateFrameError::InvalidStartByte(0x00)
        ))
    );
}

#[test]
fn command_frame_is_no_response() {
    let request = Frame::from(Command::ReadCo2).into_inner();
    assert_eq!(decode_co2_ppm::<String>(request), Err(Error::NotAResponse));
}

#[test]
fn response_to_another_command_is_rejected() {
    assert_eq!(
        decode_co2_ppm::<String>(FIRMWARE_0515_RESPONSE),
        Err(Error::OpCodeMismatch {
            expected: 0x86,
            got: 0xa0
        })
    );
    assert_eq!(
        decode_firmware_version::<String>(READ_CO2_RESPONSE),
        Err(Error::OpCodeMismatch {
            expected: 0xa0,
            got: 0x86
        })
    );
}

#[test]
fn unpacked_data_are_the_six_bytes_behind_the_op_code() {
    let frame = Frame::new(READ_CO2_RESPONSE);
    let data = unpack_return_frame::<String>(Command::ReadCo2, &frame);
    assert_eq!(data, Ok(&[0x03u8, 0x20, 0x12, 0x34, 0x56, 0x78][..]));
}

#[test]
fn temperature_stands_before_the_concentration() {
    assert_eq!(
        decode_co2_and_temperature::<String>(READ_CO2_AND_TEMPERATURE_RESPONSE),
        Ok(Co2AndTemperature {
            co2_ppm: 0x0320,
            temp_centi_celsius: 0x0960,
        })
    );
}

#[test]
fn largest_values_decode_without_overflow() {
    let mut response = [0xff, 0x85, 0xff, 0xff, 0xff, 0xff, 0x00, 0x00, 0x00];
    response[8] = mh_z19c::frame::checksum(&response[1..8]);
    assert_eq!(
        decode_co2_and_temperature::<String>(response),
        Ok(Co2AndTemperature {
            co2_ppm: 0xffff,
            temp_centi_celsius: 0xffff,
        })
    );
}

#[test]
fn firmware_version_is_the_first_four_bytes_of_data() {
    assert_eq!(
        decode_firmware_version::<String>(FIRMWARE_0515_RESPONSE),
        Ok(*b"0515")
    );
}

#[test]
fn major_version_decides_the_upgrade() {
    assert!(supports_v5(b"0515"));
    assert!(supports_v5(b"0500"));
    assert!(supports_v5(b"0600"));
    assert!(!supports_v5(b"0400"));
    assert!(!supports_v5(b"5400"));
}

#[test]
fn set_self_calibrate_off_writes_no_argument() {
    let uart = create_serial_mock_returning(&[]);
    let mut co2sensor = MhZ19C::new(uart);
    assert_eq!(co2sensor.set_self_calibrate(false), Ok(()));
    let uart = co2sensor.into_inner();
    assert_eq!(
        uart.write_buf,
        [0xff, 0x01, 0x79, 0x00, 0x00, 0x00, 0x00, 0x00, 0x86]
    );
}

#[test]
fn stalled_operation_goes_on_where_it_stopped() {
    let mut write_return_values = vec![Ok(()); 10];
    write_return_values[4] = Err(NbError::WouldBlock);
    let mut read_return_values: Vec<NbResult<u8, String>> =
        READ_CO2_RESPONSE.iter().copied().map(Ok).collect();
    read_return_values.insert(3, Err(NbError::WouldBlock));
    let uart = SerialMock::new(read_return_values, write_return_values);
    let mut co2sensor = MhZ19C::new(uart);
    assert_eq!(co2sensor.read_co2_ppm(), Err(NbError::WouldBlock));
    assert_eq!(co2sensor.read_co2_ppm(), Err(NbError::WouldBlock));
    assert_eq!(co2sensor.read_co2_ppm(), Ok(800));
    let uart = co2sensor.into_inner();
    assert_eq!(uart.write_buf, Frame::from(Command::ReadCo2).into_inner());
    assert_eq!(uart.flushed_up_to, 9);
}

#[test]
fn call_for_another_operation_polls_the_one_in_flight() {
    let mut read_data: Vec<NbResult<u8, String>> = vec![Err(NbError::WouldBlock)];
    read_data.extend(READ_CO2_RESPONSE.iter().copied().map(Ok));
    let uart = SerialMock::new(read_data, vec![Ok(()); 2 * 9]);
    let mut co2sensor = MhZ19C::new(uart);
    assert_eq!(co2sensor.read_co2_ppm(), Err(NbError::WouldBlock));
    // Ends the read in flight; its result is dropped and nothing is written.
    assert_eq!(
        co2sensor.set_self_calibrate(true),
        Err(NbError::WouldBlock)
    );
    let uart = co2sensor.into_inner();
    assert_eq!(uart.write_buf, Frame::from(Command::ReadCo2).into_inner());

    let mut co2sensor = MhZ19C::new(uart);
    assert_eq!(co2sensor.set_self_calibrate(true), Ok(()));
    let uart = co2sensor.into_inner();
    assert_eq!(uart.write_buf.len(), 18);
    assert_eq!(uart.write_buf[9..], SELF_CALIBRATE_ON_COMMAND);
}

#[test]
fn call_for_another_operation_stalls_with_the_one_in_flight() {
    let uart = SerialMock::new(vec![], vec![Ok(()); 2 * 9]);
    let mut co2sensor = MhZ19C::new(uart);
    assert_eq!(co2sensor.read_co2_ppm(), Err(NbError::WouldBlock));
    assert_eq!(
        co2sensor.set_self_calibrate(true),
        Err(NbError::WouldBlock)
    );
    assert_eq!(
        co2sensor.get_firmware_version(),
        Err(NbError::WouldBlock)
    );
    let uart = co2sensor.into_inner();
    assert_eq!(uart.write_buf, Frame::from(Command::ReadCo2).into_inner());
}

#[test]
fn driver_is_idle_again_after_a_failure() {
    let mut read_data: Vec<NbResult<u8, String>> = vec![Err(NbError::Other("noise".into()))];
    read_data.extend(READ_CO2_RESPONSE.iter().copied().map(Ok));
    let uart = SerialMock::new(read_data, vec![Ok(()); 2 * 9]);
    let mut co2sensor = MhZ19C::new(uart);
    assert_eq!(
        co2sensor.read_co2_ppm(),
        Err(NbError::Other(Error::UartError("noise".into())))
    );
    // A fresh read writes its command again.
    assert_eq!(co2sensor.read_co2_ppm(), Ok(800));
    let uart = co2sensor.into_inner();
    assert_eq!(uart.write_buf.len(), 18);
}

#[test]
fn driver_is_idle_again_after_a_rejected_response() {
    let mut read_data: Vec<NbResult<u8, String>> =
        FIRMWARE_0515_RESPONSE.iter().copied().map(Ok).collect();
    read_data.extend(READ_CO2_RESPONSE.iter().copied().map(Ok));
    let uart = SerialMock::new(read_data, vec![Ok(()); 2 * 9]);
    let mut co2sensor = MhZ19C::new(uart);
    assert_eq!(
        co2sensor.read_co2_ppm(),
        Err(NbError::Other(Error::OpCodeMismatch {
            expected: 0x86,
            got: 0xa0
        }))
    );
    assert_eq!(co2sensor.read_co2_ppm(), Ok(800));
}

#[test]
fn in_flight_calibration_answers_a_call_with_the_other_setting() {
    let mut write_return_values = vec![Ok(()); 10];
    write_return_values[2] = Err(NbError::WouldBlock);
    let uart = SerialMock::new(vec![], write_return_values);
    let mut co2sensor = MhZ19C::new(uart);
    assert_eq!(
        co2sensor.set_self_calibrate(true),
        Err(NbError::WouldBlock)
    );
    assert_eq!(co2sensor.set_self_calibrate(false), Ok(()));
    let uart = co2sensor.into_inner();
    assert_eq!(uart.write_buf, SELF_CALIBRATE_ON_COMMAND);
}

#[test]
fn operations_are_reached_through_the_traits() {
    fn read<E>(sensor: &mut impl BaseApi<E>) -> NbResult<u16, Error<E>> {
        sensor.read_co2_ppm()
    }
    fn read_both<E>(sensor: &mut impl Firmware5Api<E>) -> NbResult<Co2AndTemperature, Error<E>> {
        sensor.read_co2_and_temp()
    }
    let mut responses: Vec<NbResult<u8, String>> = FIRMWARE_0515_RESPONSE
        .iter()
        .chain(READ_CO2_RESPONSE.iter())
        .chain(READ_CO2_AND_TEMPERATURE_RESPONSE.iter())
        .copied()
        .map(Ok)
        .collect();
    responses.push(Err(NbError::WouldBlock));
    let uart = SerialMock::new(responses, vec![Ok(()); 27]);
    let mut co2sensor = MhZ19C::new(uart);
    assert_eq!(
        BaseApi::get_firmware_version(&mut co2sensor),
        Ok(*b"0515")
    );
    assert_eq!(read(&mut co2sensor), Ok(800));
    let mut upgraded = MhZ19C::new(create_serial_mock_returning(&FIRMWARE_0515_RESPONSE));
    assert!(upgraded.upgrade_to_v5().is_ok());
    let uart = co2sensor.into_inner();
    let mut co2sensor = MhZ19C::new(uart);
    assert_eq!(
        co2sensor.read_co2_ppm(),
        Err(NbError::Other(Error::OpCodeMismatch {
            expected: 0x86,
            got: 0x85
        }))
    );
    let mut sensor = MhZ19C::new(SerialMock::new(
        FIRMWARE_0515_RESPONSE
            .iter()
            .chain(READ_CO2_AND_TEMPERATURE_RESPONSE.iter())
            .copied()
            .map(Ok)
            .collect(),
        vec![Ok(()); 18],
    ));
    let mut handle = match sensor.upgrade_to_v5() {
        Ok(handle) => handle,
        Err(error) => panic!("upgrade failed: {:?}", error),
    };
    assert_eq!(
        read_both(&mut handle),
        Ok(Co2AndTemperature {
            co2_ppm: 800,
            temp_centi_celsius: 2400,
        })
    );
}

#[test]
fn fixed_frames_are_those_of_their_commands() {
    assert_eq!(
        mh_z19c::driver::READ_CO2,
        Frame::from(Command::ReadCo2).into_inner()
    );
    assert_eq!(
        mh_z19c::driver::READ_CO2_AND_TEMPERATURE,
        Frame::from(Command::ReadCo2AndTemperature).into_inner()
    );
    assert_eq!(
        mh_z19c::driver::GET_FIRMWARE_VERSION,
        Frame::from(Command::GetFirmwareVersion).into_inner()
    );
}

#[test]
fn released_handle_gives_the_driver_back() {
    let mut responses: Vec<NbResult<u8, String>> = FIRMWARE_0515_RESPONSE
        .iter()
        .chain(READ_CO2_RESPONSE.iter())
        .copied()
        .map(Ok)
        .collect();
    responses.push(Err(NbError::WouldBlock));
    let uart = SerialMock::new(responses, vec![Ok(()); 18]);
    let mut co2sensor = MhZ19C::new(uart);
    let handle = match co2sensor.upgrade_to_v5() {
        Ok(handle) => handle,
        Err(error) => panic!("upgrade failed: {:?}", error),
    };
    let base = handle.release();
    assert_eq!(base.read_co2_ppm(), Ok(800));
}
