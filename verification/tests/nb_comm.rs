use mh_z19c::nb_comm::{NbFuture, ReadMultiple, WriteAll, WriteAndReadResponse};
use mh_z19c::serial_mock::SerialMock;
use mh_z19c::transport::{NbError, NbResult};

/// Calls `operation` again and again until it has a result.
fn block<T, E>(mut operation: impl FnMut() -> NbResult<T, E>) -> Result<T, E> {
    loop {
        match operation() {
            Err(NbError::Other(error)) => return Err(error),
            Err(NbError::WouldBlock) => {}
            Ok(value) => return Ok(value),
        }
    }
}

#[test]
fn test_write_all() -> Result<(), String> {
    let write_mock = SerialMock::new(
        vec![],
        vec![
            Ok(()),
            Ok(()),
            Err(NbError::WouldBlock),
            Err(NbError::WouldBlock),
            Ok(()),
        ],
    );
    let buf = ['f' as u8, 'o' as u8, 'o' as u8];

    let mut future = WriteAll::new(write_mock, buf);
    block(|| future.poll())?;
    let write_mock = future.into_return_value();
    assert_eq!(write_mock.write_buf, buf);
    Ok(())
}

#[test]
fn test_write_all_error_propagation() {
    let write_mock = SerialMock::new(vec![], vec![Err(NbError::Other("expected error".into()))]);
    let buf = [0u8; 1];

    let mut future = WriteAll::new(write_mock, buf);
    assert_eq!(
        block(|| future.poll()).unwrap_err(),
        String::from("expected error")
    );
}

#[test]
fn test_read_multiple() -> Result<(), String> {
    let read_mock = SerialMock::new(
        vec![
            Ok('f' as u8),
            Ok('o' as u8),
            Err(NbError::WouldBlock),
            Err(NbError::WouldBlock),
            Ok('o' as u8),
        ],
        vec![],
    );
    let buf = [0u8; 3];

    let mut future = ReadMultiple::new(read_mock, buf, 3);
    block(|| future.poll())?;
    let (_, buf) = future.into_return_value();
    assert_eq!(buf, ['f' as u8, 'o' as u8, 'o' as u8]);
    Ok(())
}

#[test]
fn test_read_multiple_error_propagation() {
    let read_mock = SerialMock::new(vec![Err(NbError::Other("expected error".into()))], vec![]);
    let buf = [0u8; 1];

    let mut future = ReadMultiple::new(read_mock, buf, 1);
    assert_eq!(
        block(|| future.poll()).unwrap_err(),
        String::from("expected error")
    );
}

#[test]
fn test_write_and_read_response() -> Result<(), String> {
    let serial_mock = SerialMock::new(
        vec![
            Ok('o' as u8),
            Err(NbError::WouldBlock),
            Ok('u' as u8),
            Ok('t' as u8),
        ],
        vec![Ok(()), Err(NbError::WouldBlock), Ok(())],
    );
    let write_buf = ['i' as u8, 'n' as u8];
    let read_buf = [0u8; 3];

    let mut future = WriteAndReadResponse::new(serial_mock, write_buf, read_buf, 3);
    block(|| future.poll())?;
    let (serial_mock, read_buf) = future.into_return_value();
    assert_eq!(serial_mock.write_buf, write_buf);
    assert_eq!(read_buf, ['o' as u8, 'u' as u8, 't' as u8]);
    assert_eq!(serial_mock.flushed_up_to, 2);
    Ok(())
}

#[test]
fn test_write_and_read_response_error_propagation() {
    let serial_mock = SerialMock::new(vec![], vec![Err(NbError::Other("expected error".into()))]);
    let write_buf = ['i' as u8, 'n' as u8];
    let read_buf = [0u8; 3];

    let mut future = WriteAndReadResponse::new(serial_mock, write_buf, read_buf, 3);
    assert_eq!(
        block(|| future.poll()).unwrap_err(),
        String::from("expected error")
    );
}

#[test]
fn write_all_resumes_at_the_byte_that_was_refused() {
    let write_mock = SerialMock::new(
        vec![],
        vec![
            Ok(()),
            Err(NbError::WouldBlock),
            Ok(()),
            Err(NbError::WouldBlock),
            Err(NbError::WouldBlock),
            Ok(()),
            Ok(()),
        ],
    );
    let mut future = WriteAll::new(write_mock, [1u8, 2, 3, 4]);
    assert_eq!(future.poll(), Err(NbError::WouldBlock));
    assert_eq!(future.poll(), Err(NbError::WouldBlock));
    assert_eq!(future.poll(), Err(NbError::WouldBlock));
    assert_eq!(future.poll(), Ok(()));
    assert_eq!(future.into_return_value().write_buf, vec![1u8, 2, 3, 4]);
}

#[test]
fn write_all_of_nothing_is_complete_at_once() {
    let write_mock = SerialMock::new(vec![], vec![]);
    let mut future = WriteAll::new(write_mock, []);
    assert_eq!(future.poll(), Ok(()));
    assert_eq!(future.into_return_value().write_buf, Vec::<u8>::new());
}

#[test]
fn polling_a_complete_future_makes_no_call() {
    let write_mock = SerialMock::new(vec![], vec![Ok(()), Ok(()), Ok(())]);
    let mut future = WriteAll::new(write_mock, [7u8, 8]);
    assert_eq!(future.poll(), Ok(()));
    assert_eq!(future.poll(), Ok(()));
    assert_eq!(future.into_return_value().write_buf, vec![7u8, 8]);
}

#[test]
fn read_multiple_fills_only_the_front_of_the_buffer() {
    let read_mock = SerialMock::new(
        vec![Ok(1), Err(NbError::WouldBlock), Ok(2), Ok(3)],
        vec![],
    );
    let mut future = ReadMultiple::new(read_mock, [9u8; 4], 2);
    assert_eq!(future.poll(), Err(NbError::WouldBlock));
    assert_eq!(future.poll(), Ok(()));
    let (_, buf) = future.into_return_value();
    assert_eq!(buf, [1, 2, 9, 9]);
}

#[test]
fn read_multiple_of_nothing_reads_nothing() {
    let read_mock = SerialMock::new(vec![Ok(1)], vec![]);
    let mut future = ReadMultiple::new(read_mock, [9u8; 2], 0);
    assert_eq!(future.poll(), Ok(()));
    let (_, buf) = future.into_return_value();
    assert_eq!(buf, [9, 9]);
}

#[test]
fn exchange_flushes_after_the_last_write_and_before_the_first_read() {
    let serial_mock = SerialMock::new(
        vec![Err(NbError::WouldBlock), Ok(5), Ok(6)],
        vec![Ok(()), Err(NbError::WouldBlock), Ok(()), Ok(())],
    );
    let mut future = WriteAndReadResponse::new(serial_mock, [1u8, 2, 3], [0u8; 2], 2);
    // Stalls in the write: nothing is flushed yet.
    assert_eq!(future.poll(), Err(NbError::WouldBlock));
    // Writes the rest, flushes, and stalls in the read.
    assert_eq!(future.poll(), Err(NbError::WouldBlock));
    assert_eq!(future.poll(), Ok(()));
    let (serial_mock, read_buf) = future.into_return_value();
    assert_eq!(serial_mock.write_buf, vec![1u8, 2, 3]);
    assert_eq!(serial_mock.flushed_up_to, 3);
    assert_eq!(read_buf, [5, 6]);
}

#[test]
fn cancelled_exchange_gives_back_what_was_read() {
    let serial_mock = SerialMock::new(vec![Ok(5)], vec![Ok(()), Ok(())]);
    let mut future = WriteAndReadResponse::new(serial_mock, [1u8, 2], [0u8; 3], 3);
    assert_eq!(future.poll(), Err(NbError::WouldBlock));
    let (serial_mock, read_buf) = future.into_return_value();
    assert_eq!(serial_mock.write_buf, vec![1u8, 2]);
    assert_eq!(read_buf, [5, 0, 0]);
}

#[test]
fn failed_read_ends_the_poll_with_the_error() {
    let serial_mock = SerialMock::new(
        vec![Ok(5), Err(NbError::Other("line down".into())), Ok(6)],
        vec![Ok(()), Ok(())],
    );
    let mut future = WriteAndReadResponse::new(serial_mock, [1u8, 2], [0u8; 3], 3);
    assert_eq!(
        future.poll(),
        Err(NbError::Other(String::from("line down")))
    );
    let (_, read_buf) = future.into_return_value();
    assert_eq!(read_buf, [5, 0, 0]);
}
