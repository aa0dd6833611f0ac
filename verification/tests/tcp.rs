use sim7000::error::{Error, IoErrorKind};
use sim7000::framed::FramedPort;
use sim7000::mock::MockSerial;
use sim7000::tcp::{
    next_chunk, ConnectAttempt, ConnectError, ConnectEvent, ConnectStep, ConnectionMessage,
    ReadAction, ReadEvent, TcpError, TcpStream, TcpWrite, WriteAction, WriteEvent, CONNECT_WAITS,
};
use sim7000::tcp_client::TcpClient;

#[test]
fn client_default_timeouts() {
    let mut client = TcpClient::default();
    assert_eq!(client.read_timeout(), Some(2000));
    assert_eq!(client.write_timeout(), Some(5000));
    client.set_read_timeout(10);
    client.set_write_timeout(20);
    assert_eq!(client.read_timeout(), Some(10));
    assert_eq!(client.write_timeout(), Some(20));
}

#[test]
fn client_connects() {
    let mut mock = FramedPort::new(MockSerial::build()
        .expect_write(b"AT+CIPSHUT\r")
        .expect_read(b"\r\nSHUT OK\r\n")
        .expect_write(b"AT+CIPSTART=\"TCP\",\"example.com\",\"80\"\r")
        .expect_read(b"\r\nOK\r\n")
        .expect_read(b"\r\nCONNECT OK\r\n")
        .finalize());
    let mut client = TcpClient::default();
    assert_eq!(client.connect(&mut mock, "example.com", 80, None), Ok(()));
}

#[test]
fn client_connect_reports_failure() {
    let mut mock = FramedPort::new(MockSerial::build()
        .expect_write(b"AT+CIPSHUT\r")
        .expect_read(b"\r\nSHUT OK\r\n")
        .expect_write(b"AT+CIPSTART=\"TCP\",\"example.com\",\"443\"\r")
        .expect_read(b"\r\nOK\r\n")
        .expect_read(b"\r\nSTATE: TCP CLOSED\r\n")
        .expect_read(b"\r\nCONNECT FAIL\r\n")
        .finalize());
    let mut client = TcpClient::default();
    assert_eq!(client.connect(&mut mock, "example.com", 443, Some(1000)), Err(Error::ConnectFailed));
}

#[test]
fn client_connect_without_answer_times_out() {
    let mut mock = FramedPort::new(MockSerial::build()
        .expect_write(b"AT+CIPSHUT\r")
        .finalize());
    let mut client = TcpClient::default();
    assert_eq!(client.connect(&mut mock, "example.com", 80, None), Err(Error::Timeout));
}

#[test]
fn client_disconnects() {
    let mut mock = FramedPort::new(MockSerial::build()
        .expect_write(b"AT+CIPSHUT\r")
        .expect_read(b"\r\nSHUT OK\r\n")
        .finalize());
    let mut client = TcpClient::default();
    assert_eq!(client.disconnect(&mut mock, None), Ok(()));
}

#[test]
fn client_sends() {
    let mut mock = FramedPort::new(MockSerial::build()
        .expect_write(b"AT+CIPSEND=5\r")
        .expect_read(b"\r\n> ")
        .expect_write(b"hello")
        .expect_read(b"\r\nSEND OK\r\n")
        .finalize());
    let mut client = TcpClient::default();
    assert_eq!(client.send(&mut mock, b"hello"), Ok(()));
}

#[test]
fn client_try_receive() {
    let mut mock = FramedPort::new(MockSerial::build()
        .expect_write(b"AT+CIPRXGET=2,4\r")
        .expect_read(b"\r\n+CIPRXGET: 2,4,4\r\n1234")
        .expect_read(b"\r\nOK\r\n")
        .finalize());
    let mut client = TcpClient::default();
    let mut buf = [0u8; 4];
    assert_eq!(client.try_receive(&mut mock, &mut buf), Ok(4));
    assert_eq!(&buf, b"1234");
}

#[test]
fn client_try_receive_into_empty_buffer_asks_nothing() {
    let mut mock = FramedPort::new(MockSerial::build().finalize());
    let mut client = TcpClient::default();
    let mut buf = [0u8; 0];
    assert_eq!(client.try_receive(&mut mock, &mut buf), Ok(0));
}

#[test]
fn client_receive_fills_buffer() {
    let mut mock = FramedPort::new(MockSerial::build()
        .expect_write(b"AT+CIPRXGET=2,4\r")
        .expect_read(b"\r\n+CIPRXGET: 2,2,0\r\nab")
        .expect_read(b"\r\nOK\r\n")
        .expect_write(b"AT+CIPRXGET=2,2\r")
        .expect_read(b"\r\n+CIPRXGET: 2,2,0\r\ncd")
        .expect_read(b"\r\nOK\r\n")
        .finalize());
    let mut client = TcpClient::default();
    let mut buf = [0u8; 4];
    assert_eq!(client.receive(&mut mock, &mut buf), Ok(4));
    assert_eq!(&buf, b"abcd");
}

#[test]
fn client_receive_overflow() {
    let mut mock = FramedPort::new(MockSerial::build()
        .expect_write(b"AT+CIPRXGET=2,2\r")
        .expect_read(b"\r\n+CIPRXGET: 2,4,0\r\nabcd")
        .expect_read(b"\r\nOK\r\n")
        .finalize());
    let mut client = TcpClient::default();
    let mut buf = [0u8; 2];
    assert_eq!(client.try_receive(&mut mock, &mut buf), Err(Error::BufferOverflow));
}

#[test]
fn client_is_connected() {
    let mut mock = FramedPort::new(MockSerial::build()
        .expect_write(b"AT+CIPSTATUS\r")
        .expect_read(b"\r\nOK\r\n")
        .expect_read(b"\r\nSTATE: CONNECT OK\r\n")
        .finalize());
    let client = TcpClient::default();
    assert!(client.is_connected(&mut mock));
}

#[test]
fn client_is_not_connected() {
    let mut mock = FramedPort::new(MockSerial::build()
        .expect_write(b"AT+CIPSTATUS\r")
        .expect_read(b"\r\nOK\r\n")
        .expect_read(b"\r\nSTATE: IP INITIAL\r\n")
        .finalize());
    let client = TcpClient::default();
    assert!(!client.is_connected(&mut mock));
}

#[test]
fn connect_attempt_succeeds() {
    let mut a = ConnectAttempt::new();
    assert_eq!(a.on_event(ConnectEvent::TimedOut), ConnectStep::CheckModem);
    assert_eq!(a.on_event(ConnectEvent::Alive), ConnectStep::Wait);
    assert_eq!(a.on_event(ConnectEvent::Message(ConnectionMessage::Connected)), ConnectStep::Connected);
}

#[test]
fn connect_attempt_failures() {
    let mut a = ConnectAttempt::new();
    assert_eq!(
        a.on_event(ConnectEvent::Message(ConnectionMessage::ConnectionFailed)),
        ConnectStep::Failed(ConnectError::ConnectFailed)
    );
    let mut b = ConnectAttempt::new();
    assert_eq!(
        b.on_event(ConnectEvent::Message(ConnectionMessage::SendFail)),
        ConnectStep::Failed(ConnectError::Unexpected(ConnectionMessage::SendFail))
    );
    let mut c = ConnectAttempt::new();
    assert_eq!(c.on_event(ConnectEvent::Dead(Error::Serial)), ConnectStep::Failed(ConnectError::Other(Error::Serial)));
}

#[test]
fn connect_attempt_gives_up_after_all_waits() {
    let mut a = ConnectAttempt::new();
    for _ in 0..CONNECT_WAITS - 1 {
        assert_eq!(a.on_event(ConnectEvent::Lagged), ConnectStep::Wait);
    }
    assert_eq!(a.on_event(ConnectEvent::Alive), ConnectStep::Failed(ConnectError::Other(Error::Timeout)));
}

#[test]
fn write_in_chunks() {
    let mut stream = TcpStream::opened(3);
    let (mut w, first) = TcpWrite::start(&stream, 2500);
    assert_eq!(first, WriteAction::Send { start: 0, end: 1024 });
    assert_eq!(
        w.on_event(&mut stream, WriteEvent::Message(ConnectionMessage::SendSuccess)),
        WriteAction::Send { start: 1024, end: 2048 }
    );
    assert_eq!(
        w.on_event(&mut stream, WriteEvent::Message(ConnectionMessage::SendSuccess)),
        WriteAction::Send { start: 2048, end: 2500 }
    );
    assert_eq!(
        w.on_event(&mut stream, WriteEvent::Message(ConnectionMessage::SendSuccess)),
        WriteAction::Done(Ok(2500))
    );
}

#[test]
fn write_of_nothing_is_done() {
    let stream = TcpStream::opened(0);
    let (_, first) = TcpWrite::start(&stream, 0);
    assert_eq!(first, WriteAction::Done(Ok(0)));
}

#[test]
fn write_errors() {
    let mut stream = TcpStream::opened(1);
    let (mut w, _) = TcpWrite::start(&stream, 10);
    assert_eq!(w.on_event(&mut stream, WriteEvent::CommandFailed), WriteAction::Done(Err(TcpError::SendFail)));
    let (mut w, _) = TcpWrite::start(&stream, 10);
    assert_eq!(w.on_event(&mut stream, WriteEvent::TimedOut), WriteAction::Done(Err(TcpError::Timeout)));
    let (mut w, _) = TcpWrite::start(&stream, 10);
    assert_eq!(
        w.on_event(&mut stream, WriteEvent::Message(ConnectionMessage::SendFail)),
        WriteAction::Done(Err(TcpError::SendFail))
    );
    assert!(!stream.closed());
    let (mut w, _) = TcpWrite::start(&stream, 10);
    assert_eq!(
        w.on_event(&mut stream, WriteEvent::Message(ConnectionMessage::Closed)),
        WriteAction::Done(Err(TcpError::Closed))
    );
    assert!(stream.closed());
    let (_, first) = TcpWrite::start(&stream, 10);
    assert_eq!(first, WriteAction::Done(Err(TcpError::Closed)));
}

#[test]
fn read_events() {
    let mut stream = TcpStream::opened(2);
    assert_eq!(stream.begin_read(), ReadAction::Wait);
    assert_eq!(stream.on_read(ReadEvent::Data(17)), ReadAction::Done(Ok(17)));
    assert_eq!(stream.on_read(ReadEvent::Message(ConnectionMessage::SendSuccess)), ReadAction::Wait);
    assert_eq!(stream.on_read(ReadEvent::TimedOut), ReadAction::CheckModem);
    assert_eq!(stream.on_read(ReadEvent::Alive), ReadAction::Wait);
    assert_eq!(stream.on_read(ReadEvent::Dead), ReadAction::Done(Err(TcpError::Timeout)));
    assert!(!stream.closed());
    assert_eq!(stream.on_read(ReadEvent::Message(ConnectionMessage::Closed)), ReadAction::Done(Ok(0)));
    assert!(stream.closed());
    assert_eq!(stream.begin_read(), ReadAction::Done(Ok(0)));
}

#[test]
fn unexpected_message_closes_stream_on_read() {
    let mut stream = TcpStream::opened(2);
    assert_eq!(
        stream.on_read(ReadEvent::Message(ConnectionMessage::Connected)),
        ReadAction::Done(Err(TcpError::Closed))
    );
    assert!(stream.closed());
}

#[test]
fn stream_timeout() {
    let mut stream = TcpStream::opened(5);
    assert_eq!(stream.ordinal(), 5);
    assert_eq!(stream.timeout_ms(), 120_000);
    stream.set_timeout(3000);
    assert_eq!(stream.timeout_ms(), 3000);
}

#[test]
fn chunk_bounds() {
    assert_eq!(next_chunk(3000, 0), (0, 1024));
    assert_eq!(next_chunk(3000, 2048), (2048, 3000));
    assert_eq!(next_chunk(1024, 0), (0, 1024));
}

#[test]
fn error_kinds() {
    assert_eq!(TcpError::Timeout.kind(), IoErrorKind::TimedOut);
    assert_eq!(TcpError::SendFail.kind(), IoErrorKind::Other);
    assert_eq!(TcpError::Closed.kind(), IoErrorKind::Other);
    assert_eq!(Error::InvalidUtf8.kind(), IoErrorKind::InvalidData);
    assert_eq!(Error::BufferOverflow.kind(), IoErrorKind::OutOfMemory);
    assert_eq!(Error::Timeout.kind(), IoErrorKind::TimedOut);
    assert_eq!(Error::NoApn.kind(), IoErrorKind::Other);
}

#[test]
fn closed_stream_stays_closed() {
    let mut stream = TcpStream::opened(1);
    assert_eq!(stream.on_write_event(ConnectionMessage::Closed), Some(TcpError::Closed));
    assert!(stream.closed());
    assert_eq!(stream.on_read_event(ConnectionMessage::SendSuccess), None);
    assert_eq!(stream.on_write_event(ConnectionMessage::SendSuccess), None);
    assert!(stream.closed());
    assert_eq!(stream.begin_read(), ReadAction::Done(Ok(0)));
    let (_, action) = TcpWrite::start(&stream, 10);
    assert_eq!(action, WriteAction::Done(Err(TcpError::Closed)));
}
