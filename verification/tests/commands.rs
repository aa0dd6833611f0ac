use sim7000::commands::{
    AtRead, AtWrite, Ciprxget, Cipsend, Cpsi, NetworkReceiveMode, OperationMode, SendResult,
    SystemInfo, SystemMode,
};
use sim7000::commands::ErrorReportMode;
use sim7000::error::Error;
use sim7000::framed::FramedPort;
use sim7000::serial::SerialReadTimeout;
use sim7000::mock::MockSerial;
use sim7000::modem::{run_request, ModemRequest};

#[test]
fn test_rx_ready() {
    let mut mock = FramedPort::new(MockSerial::build()
        .expect_write(b"AT+CIPRXGET=2,4\r")
        .expect_read(b"\r\n+CIPRXGET: 2,4,4\r\n1234")
        .expect_read(b"\r\nOK\r\n")
        .finalize());

    let response = Ciprxget
        .write(NetworkReceiveMode::GetBytes(4), &mut mock, 1000)
        .unwrap();

    assert_eq!(response.bytes.unwrap(), b"1234")
}

#[test]
fn test_rx_wait() {
    let mut mock = FramedPort::new(MockSerial::build()
        .expect_write(b"AT+CIPRXGET=2,4\r")
        .expect_read(b"\r\n+CIPRXGET: 1\r\n")
        .expect_read(b"\r\n+CIPRXGET: 1\r\n")
        .expect_read(b"\r\n+CIPRXGET: 2,4,4\r\n")
        .expect_read(&[0, 1, 2, 3])
        .expect_read(b"\r\nOK\r\n")
        .finalize());

    let response = Ciprxget
        .write(NetworkReceiveMode::GetBytes(4), &mut mock, 1000)
        .unwrap();

    assert_eq!(response.bytes.unwrap(), &[0, 1, 2, 3])
}

#[test]
fn test_send_ok() {
    let data = b"hello, world!";
    let mut mock = FramedPort::new(MockSerial::build()
        .expect_write(format!("AT+CIPSEND={}\r", data.len()).as_bytes())
        .expect_read(b"\r\n> ")
        .expect_write(data)
        .expect_read(b"\r\nSEND OK\r\n")
        .finalize());

    let output = Cipsend.write(data, &mut mock, 1000).unwrap();
    assert_eq!(output, SendResult::Success);
}

#[test]
fn test_send_failed() {
    let data = b"hello, world!";
    let mut mock = FramedPort::new(MockSerial::build()
        .expect_write(format!("AT+CIPSEND={}\r", data.len()).as_bytes())
        .expect_read(b"\r\n> ")
        .expect_write(data)
        .expect_read(b"\r\nSEND FAIL\r\n")
        .finalize());

    let output = Cipsend.write(data, &mut mock, 1000).unwrap();
    assert_eq!(output, SendResult::Failure);
}

#[test]
fn test_gsm_response() {
    let mut mock = FramedPort::new(MockSerial::build()
        .expect_write(b"AT+CPSI?\r")
        .expect_read(b"\r\n+CPSI: GSM,Online,240-01,0x11a4,25882,80 EGSM 900,-89,0,22-22\r\n")
        .expect_read(b"\r\n\r\n")
        .expect_read(b"\r\nOK\r\n")
        .finalize());

    let response = Cpsi.read(&mut mock, 1000).unwrap();

    assert_eq!(
        response,
        SystemInfo {
            system_mode: SystemMode::Gsm,
            operation_mode: OperationMode::Online
        }
    )
}

#[test]
fn test_lte_response() {
    let mut mock = FramedPort::new(MockSerial::build()
        .expect_write(b"AT+CPSI?\r")
        .expect_read(b"\r\n+CPSI: LTE CAT-M1,Online,240-01,0x0081,25716767,254,EUTRAN-BAND3,1300,5,5,-13,-84,-54,18\r\n")
        .expect_read(b"\r\nOK\r\n")
        .finalize());

    let response = Cpsi.read(&mut mock, 1000).unwrap();

    assert_eq!(
        response,
        SystemInfo {
            system_mode: SystemMode::LteCatM1,
            operation_mode: OperationMode::Online
        }
    )
}

#[test]
fn requests_run_with_their_commands() {
    let mut mock = FramedPort::new(MockSerial::build()
        .expect_write(b"AT+CMEE=2\r")
        .expect_read(b"\r\nOK\r\n")
        .finalize());
    let request = ModemRequest::ConfigureCmeErrors(ErrorReportMode::Verbose);
    assert_eq!(run_request(&request, &mut mock, 1000), Some(Ok(())));

    let mut mock = FramedPort::new(MockSerial::build()
        .expect_write(b"AT+CMEE=2\r")
        .expect_read(b"\r\nERROR\r\n")
        .finalize());
    assert_eq!(run_request(&request, &mut mock, 1000), Some(Err(Error::DecodingFailed)));

    let mut mock = FramedPort::new(MockSerial::build().finalize());
    assert_eq!(run_request(&ModemRequest::At, &mut mock, 1000), None);
}

#[test]
fn mock_hands_on_each_read_whole() {
    let mut mock = MockSerial::build()
        .expect_read(b" a")
        .expect_read(b"\r\nOK\r\n")
        .finalize();
    assert_eq!(mock.read_line(1000), Ok(Some(b" a".to_vec())));
    assert_eq!(mock.read_line(1000), Ok(Some(b"\r\nOK\r\n".to_vec())));
    assert_eq!(mock.read_line(1000), Ok(None));
    assert_eq!(mock.read_exact(1, 1000), Ok(None));
}

#[test]
fn framed_port_hands_on_lines() {
    let mut port = FramedPort::new(
        MockSerial::build()
            .expect_read(b"\r\n+CIPRXGET: 2,4,4\r\n12")
            .expect_read(b"34\r\nOK\r\n")
            .finalize(),
    );
    assert_eq!(port.read_line(1000), Ok(Some(b"+CIPRXGET: 2,4,4".to_vec())));
    assert_eq!(port.read_exact(4, 1000), Ok(Some(b"1234".to_vec())));
    assert_eq!(port.read_line(1000), Ok(Some(b"OK".to_vec())));
    assert_eq!(port.read_line(1000), Ok(None));
}

#[test]
fn missing_answer_is_a_timeout() {
    let mut mock = FramedPort::new(MockSerial::build().expect_write(b"AT+CPSI?\r").finalize());
    assert_eq!(Cpsi.read(&mut mock, 1000), Err(Error::Timeout));
}
