use autosway::ipc::{
    encode, frame, guard_against_invalid_response, make_request, open_exchange,
    read_response_headers, roundtrip, Delivery, Exchange, Message, ProtocolError, Transfer,
    TransportError, HEADER_LEN, MAGIC_STRING,
};
use std::io;
use std::io::{Read, Write};

struct Foo;

impl Message for Foo {
    fn to_bytes(&self) -> Vec<u8> {
        vec![0u8, 1u8, 2u8, 3u8]
    }
}

fn header_of(mut stream: impl Read) -> [u8; 14] {
    let mut header = [0u8; 14];
    stream.read_exact(&mut header).unwrap();
    header
}

#[test]
fn it_should_generate_a_valid_message() {
    let mut c = io::Cursor::new(Vec::new());
    let expected = vec![105u8, 51u8, 45u8, 105u8, 112u8, 99u8, 0u8, 1u8, 2u8, 3u8];
    c.write_all(&make_request(Foo)).unwrap();
    assert_eq!(&expected, c.get_ref());
}

#[test]
fn it_should_read_the_expected_payload_size_from_the_headers() {
    let c = io::Cursor::new(vec![
        //                                     | size              | type              | payload
        105u8, 51u8, 45u8, 105u8, 112u8, 99u8, 3u8, 0u8, 0u8, 0u8, 0u8, 0u8, 0u8, 0u8, 102u8,
        111u8, 111u8,
    ]);
    let actual = read_response_headers(&header_of(c)).unwrap();
    assert_eq!(3, actual);
}

#[test]
#[should_panic]
fn it_should_panic_if_the_headers_dont_start_with_magic_string() {
    let c = io::Cursor::new(vec![
        //                               |x    | size              | type
        105u8, 51u8, 45u8, 105u8, 112u8, 98u8, 0u8, 0u8, 0u8, 0u8, 3u8, 0u8, 0u8, 0u8,
    ]);
    read_response_headers(&header_of(c)).unwrap();
}

#[test]
fn a_wrong_preamble_is_reported_as_such() {
    let header = [105u8, 51, 45, 105, 112, 98, 0, 0, 0, 0, 3, 0, 0, 0];
    assert_eq!(Err(ProtocolError::InvalidPreamble), read_response_headers(&header));
}

#[test]
fn the_preamble_is_compared_byte_by_byte() {
    // "I3-IPC": the same letters in upper case.
    let header = [73u8, 51, 45, 73, 80, 67, 3, 0, 0, 0, 0, 0, 0, 0];
    assert_eq!(Err(ProtocolError::InvalidPreamble), read_response_headers(&header));
    for position in 0..6 {
        let mut header = [105u8, 51, 45, 105, 112, 99, 3, 0, 0, 0, 0, 0, 0, 0];
        header[position] ^= 1;
        assert_eq!(Err(ProtocolError::InvalidPreamble), read_response_headers(&header));
    }
}

#[test]
fn the_length_is_read_least_significant_byte_first() {
    let header = [105u8, 51, 45, 105, 112, 99, 1, 2, 3, 4, 9, 9, 9, 9];
    assert_eq!(Ok(0x04030201), read_response_headers(&header));
    let header = [105u8, 51, 45, 105, 112, 99, 255, 255, 255, 255, 0, 0, 0, 0];
    assert_eq!(Ok(4294967295), read_response_headers(&header));
    let header = [105u8, 51, 45, 105, 112, 99, 0, 0, 0, 0, 3, 0, 0, 0];
    assert_eq!(Ok(0), read_response_headers(&header));
}

#[test]
fn the_guard_wants_more_than_the_preamble() {
    assert_eq!(Ok(()), guard_against_invalid_response(b"i3-ipc\0"));
    assert_eq!(Ok(()), guard_against_invalid_response(b"i3-ipc and more"));
    assert_eq!(
        Err(ProtocolError::InvalidPreamble),
        guard_against_invalid_response(b"i3-ipc")
    );
    assert_eq!(Err(ProtocolError::InvalidPreamble), guard_against_invalid_response(b""));
    assert_eq!(
        Err(ProtocolError::InvalidPreamble),
        guard_against_invalid_response(b"i3-ipd and more")
    );
}

#[test]
fn the_constants_describe_the_header() {
    assert_eq!("i3-ipc", MAGIC_STRING);
    assert_eq!(14, HEADER_LEN);
    assert_eq!(HEADER_LEN, MAGIC_STRING.len() + 8);
}

#[test]
fn a_run_command_request_is_framed() {
    let request = make_request(autosway::message::Message::RunCommand(String::from("foo")));
    assert_eq!(17, request.len());
    assert_eq!(b"i3-ipc", &request[0..6]);
    assert_eq!([3u8, 0, 0, 0], request[6..10]);
    assert_eq!([0u8, 0, 0, 0], request[10..14]);
    assert_eq!(b"foo", &request[14..]);
    let header: [u8; 14] = request[0..14].try_into().unwrap();
    assert_eq!(Ok(3), read_response_headers(&header));
}

#[test]
fn a_get_outputs_request_is_a_bare_header() {
    let request = make_request(autosway::message::Message::GetOutputs);
    assert_eq!(vec![105u8, 51, 45, 105, 112, 99, 0, 0, 0, 0, 3, 0, 0, 0], request);
    let header: [u8; 14] = request[..].try_into().unwrap();
    assert_eq!(Ok(0), read_response_headers(&header));
}

#[test]
fn a_frame_is_the_preamble_and_the_body() {
    assert_eq!(b"i3-ipc".to_vec(), frame(Vec::new()));
    assert_eq!(b"i3-ipcbody".to_vec(), frame(b"body".to_vec()));
    let message = autosway::message::Message::RunCommand(String::from("foo"));
    assert_eq!(frame(message.to_bytes()), encode(&message));
    assert_eq!(make_request(message.clone()), encode(&message));
}

fn reply_header(length: u32) -> Vec<u8> {
    let mut header = b"i3-ipc".to_vec();
    header.extend_from_slice(&length.to_le_bytes());
    header.extend_from_slice(&0u32.to_le_bytes());
    header
}

#[test]
fn an_exchange_writes_then_reads_the_header_then_the_body() {
    let message = autosway::message::Message::RunCommand(String::from("foo"));
    let (exchange, transfer) = open_exchange(&message);
    assert_eq!(Exchange::Sending, exchange);
    assert!(matches!(transfer, Transfer::Write(bytes) if bytes == encode(&message)));

    let (exchange, transfer) = roundtrip(exchange, Delivery::Written);
    assert_eq!(Exchange::AwaitingHeader, exchange);
    assert!(matches!(transfer, Transfer::Read(14)));

    let (exchange, transfer) = roundtrip(exchange, Delivery::Bytes(reply_header(18)));
    assert_eq!(Exchange::AwaitingBody(18), exchange);
    assert!(matches!(transfer, Transfer::Read(18)));

    let body = b"[{\"success\":true}]".to_vec();
    assert_eq!(18, body.len());
    let (exchange, transfer) = roundtrip(exchange, Delivery::Bytes(body.clone()));
    assert_eq!(Exchange::Over, exchange);
    assert!(matches!(transfer, Transfer::Done(Ok(bytes)) if bytes == body));
}

#[test]
fn an_empty_body_is_read_as_such() {
    let (exchange, transfer) = roundtrip(Exchange::AwaitingHeader, Delivery::Bytes(reply_header(0)));
    assert_eq!(Exchange::AwaitingBody(0), exchange);
    assert!(matches!(transfer, Transfer::Read(0)));
    let (exchange, transfer) = roundtrip(exchange, Delivery::Bytes(Vec::new()));
    assert_eq!(Exchange::Over, exchange);
    assert!(matches!(transfer, Transfer::Done(Ok(bytes)) if bytes.is_empty()));
}

#[test]
fn an_exchange_ends_on_a_foreign_header() {
    let mut header = reply_header(3);
    header[5] = 98;
    let (exchange, transfer) = roundtrip(Exchange::AwaitingHeader, Delivery::Bytes(header));
    assert_eq!(Exchange::Over, exchange);
    assert!(matches!(
        transfer,
        Transfer::Done(Err(TransportError::Protocol(ProtocolError::InvalidPreamble)))
    ));
}

#[test]
fn an_exchange_ends_on_a_short_read() {
    let mut header = reply_header(3);
    header.pop();
    let (exchange, transfer) = roundtrip(Exchange::AwaitingHeader, Delivery::Bytes(header));
    assert_eq!(Exchange::Over, exchange);
    assert!(matches!(transfer, Transfer::Done(Err(TransportError::ShortRead))));

    let mut header = reply_header(3);
    header.push(0);
    let (_, transfer) = roundtrip(Exchange::AwaitingHeader, Delivery::Bytes(header));
    assert!(matches!(transfer, Transfer::Done(Err(TransportError::ShortRead))));

    let (exchange, transfer) = roundtrip(Exchange::AwaitingBody(3), Delivery::Bytes(b"fo".to_vec()));
    assert_eq!(Exchange::Over, exchange);
    assert!(matches!(transfer, Transfer::Done(Err(TransportError::ShortRead))));
}

#[test]
fn an_exchange_ends_where_the_connection_fails() {
    for exchange in [
        Exchange::Sending,
        Exchange::AwaitingHeader,
        Exchange::AwaitingBody(3),
        Exchange::Over,
    ] {
        let failure = Delivery::Failed(String::from("Broken pipe"));
        let (exchange, transfer) = roundtrip(exchange, failure);
        assert_eq!(Exchange::Over, exchange);
        assert!(matches!(
            transfer,
            Transfer::Done(Err(TransportError::Io(cause))) if cause == "Broken pipe"
        ));
    }
}

#[test]
fn a_delivery_out_of_turn_ends_the_exchange() {
    let (exchange, transfer) = roundtrip(Exchange::Sending, Delivery::Bytes(reply_header(0)));
    assert_eq!(Exchange::Over, exchange);
    assert!(matches!(transfer, Transfer::Done(Err(TransportError::OutOfTurn))));
    let (_, transfer) = roundtrip(Exchange::AwaitingHeader, Delivery::Written);
    assert!(matches!(transfer, Transfer::Done(Err(TransportError::OutOfTurn))));
    let (_, transfer) = roundtrip(Exchange::AwaitingBody(0), Delivery::Written);
    assert!(matches!(transfer, Transfer::Done(Err(TransportError::OutOfTurn))));
    let (_, transfer) = roundtrip(Exchange::Over, Delivery::Written);
    assert!(matches!(transfer, Transfer::Done(Err(TransportError::OutOfTurn))));
    let (_, transfer) = roundtrip(Exchange::Over, Delivery::Bytes(Vec::new()));
    assert!(matches!(transfer, Transfer::Done(Err(TransportError::OutOfTurn))));
}
