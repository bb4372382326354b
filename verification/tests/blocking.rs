use mh_z19c::blocking::{
    decode_co2_ppm, frame_command, unpack_return_frame, Error, MhZ19C, Uart,
};
use mh_z19c::command::Command;

struct MockUart {
    return_start_byte: u8,
    return_checksum: u8,
    uart_error: bool,
}

impl Default for MockUart {
    fn default() -> Self {
        Self {
            return_start_byte: 0xff,
            return_checksum: 0x43,
            uart_error: false,
        }
    }
}

impl Uart for MockUart {
    type Error = String;

    fn read_blocking(&mut self, buffer: &mut [u8], len: usize) -> Result<(), Self::Error> {
        if self.uart_error {
            Err("Mocked UART error.".into())
        } else if len > 9 {
            Err("Tried to read more than 9 bytes.".into())
        } else {
            buffer.copy_from_slice(
                &[
                    self.return_start_byte,
                    0x86,
                    0x03,
                    0x20,
                    0x12,
                    0x34,
                    0x56,
                    0x78,
                    self.return_checksum,
                ][..len],
            );
            Ok(())
        }
    }

    fn write_blocking(&mut self, buffer: &[u8]) -> Result<(), Self::Error> {
        if self.uart_error {
            Err("Mocked UART error.".into())
        } else if buffer == [0xff, 0x01, 0x86, 0x00, 0x00, 0x00, 0x00, 0x00, 0x79] {
            Ok(())
        } else {
            Err(format!(
                "Did not write expected read command, but {:x?}.",
                buffer
            ))
        }
    }
}

#[test]
fn mh_z19c_test_read_co2() {
    let mut co2sensor = MhZ19C::new(MockUart::default());
    assert_eq!(co2sensor.read_co2_ppm(), Ok(800));
}

#[test]
fn mh_z19c_test_read_co2_uart_error() {
    let mut uart = MockUart::default();
    uart.uart_error = true;
    let mut co2sensor = MhZ19C::new(uart);
    assert_eq!(
        co2sensor.read_co2_ppm(),
        Err(Error::UartError("Mocked UART error.".into()))
    );
}

#[test]
fn mh_z19c_test_read_co2_invalid_start_byte() {
    let mut uart = MockUart::default();
    uart.return_start_byte = 0x00;
    let mut co2sensor = MhZ19C::new(uart);
    assert_eq!(
        co2sensor.read_co2_ppm(),
        Err(Error::StartByteExpected { got: 0x00 })
    );
}

#[test]
fn mh_z19c_test_read_co2_invalid_checksum() {
    let mut uart = MockUart::default();
    uart.return_checksum = 0x00;
    let mut co2sensor = MhZ19C::new(uart);
    assert_eq!(co2sensor.read_co2_ppm(), Err(Error::InvalidChecksum));
}

#[test]
fn blocking_frame_of_read_command() {
    let mut buf = [0u8; 9];
    frame_command(Command::ReadCo2, &mut buf);
    assert_eq!(buf, [0xff, 0x01, 0x86, 0x00, 0x00, 0x00, 0x00, 0x00, 0x79]);
}

#[test]
fn blocking_response_to_another_command_is_rejected() {
    let response = [0xff, 0xa0, 0x30, 0x35, 0x31, 0x35, 0x00, 0x00, 0x95];
    assert_eq!(
        decode_co2_ppm::<String>(&response),
        Err(Error::OpCodeMismatch {
            expected: 0x86,
            got: 0xa0
        })
    );
}

#[test]
fn blocking_checksum_is_looked_at_before_the_op_code() {
    let response = [0xff, 0xa0, 0x30, 0x35, 0x31, 0x35, 0x00, 0x00, 0x00];
    assert_eq!(
        decode_co2_ppm::<String>(&response),
        Err(Error::InvalidChecksum)
    );
}

#[test]
fn blocking_unpacked_data_are_six_bytes() {
    let response = [0xff, 0x86, 0x03, 0x20, 0x12, 0x34, 0x56, 0x78, 0x43];
    assert_eq!(
        unpack_return_frame::<String>(Command::ReadCo2, &response),
        Ok(&[0x03u8, 0x20, 0x12, 0x34, 0x56, 0x78][..])
    );
}
