//! The framing of the compositor's protocol: a six-byte preamble, the
//! payload's length and the message's type as little-endian 32-bit numbers,
//! then the payload.

use crate::message::{encoded, le_bytes, length_field};
use vstd::prelude::*;
use vstd::utf8::{encode_utf8, is_ascii_chars, is_ascii_chars_encode_utf8};

verus! {

/// The preamble of every message, in both directions.
pub const MAGIC_STRING: &'static str = "i3-ipc";

/// The length of a header: the preamble and two 32-bit numbers.
pub const HEADER_LEN: usize = 14;

/// The bytes of the preamble: `i3-ipc` in ASCII.
pub open spec fn magic() -> Seq<u8> {
    seq![105u8, 51u8, 45u8, 105u8, 112u8, 99u8]
}

/// The number that four bytes hold, least significant first.
pub open spec fn le_value(bytes: Seq<u8>) -> u32
    recommends
        bytes.len() == 4,
{
    (bytes[0] + 256 * bytes[1] + 65536 * bytes[2] + 16777216 * bytes[3]) as u32
}

/// The payload length that a header declares.
pub open spec fn declared_length(header: Seq<u8>) -> u32
    recommends
        header.len() == 14,
{
    le_value(header.subrange(6, 10))
}

/// The bytes of the preamble are the text `i3-ipc` in UTF-8.
pub proof fn magic_is_the_preamble_text()
    ensures
        encode_utf8(MAGIC_STRING@) == magic(),
{
    reveal_strlit("i3-ipc");
    let text = MAGIC_STRING@;
    assert(is_ascii_chars(text));
    is_ascii_chars_encode_utf8(text);
    assert(encode_utf8(text) =~= magic());
}

/// Reading back the four bytes of a number gives the number.
pub proof fn le_value_of_le_bytes(x: u32)
    ensures
        le_value(le_bytes(x)) == x,
{
}

/// A request that is framed for a message starts with a header that declares
/// the length field of the message.
pub proof fn request_header_declares_length(message: crate::message::MessageView)
    ensures
        (magic() + encoded(message)).subrange(0, 6) == magic(),
        declared_length((magic() + encoded(message)).subrange(0, 14)) == length_field(message),
{
    let request = magic() + encoded(message);
    assert(request.subrange(0, 6) =~= magic());
    assert(request.subrange(0, 14).subrange(6, 10) =~= le_bytes(length_field(message)));
    le_value_of_le_bytes(length_field(message));
}

/// A response that does not follow the protocol.
#[derive(Clone, Copy, Debug, PartialEq, Eq, Structural)]
pub enum ProtocolError {
    /// The response does not start with the preamble.
    InvalidPreamble,
}

/// Something that can be sent to the compositor.
pub trait Message {
    /// Serializes the message, without the preamble.
    fn to_bytes(&self) -> Vec<u8>;
}

impl Message for crate::message::Message {
    fn to_bytes(&self) -> (bytes: Vec<u8>)
        ensures
            bytes@ == encoded(self@),
    {
        crate::message::Message::to_bytes(self)
    }
}

/// A request: the preamble, then the bytes of a message.
pub fn frame(body: Vec<u8>) -> (request: Vec<u8>)
    ensures
        request@ == magic() + body@,
{
    let mut request: Vec<u8> = Vec::new();
    let preamble = MAGIC_STRING.as_bytes();
    proof {
        magic_is_the_preamble_text();
    }
    let mut i: usize = 0;
    while i < preamble.len()
        invariant
            i <= preamble.len(),
            preamble@ == magic(),
            request@ == magic().subrange(0, i as int),
        decreases preamble.len() - i,
    {
        request.push(preamble[i]);
        assert(request@ =~= magic().subrange(0, i + 1));
        i += 1;
    }
    let ghost bytes = body@;
    let mut body = body;
    request.append(&mut body);
    assert(request@ =~= magic() + bytes);
    request
}

/// Builds the request for a message: the preamble, then the bytes that
/// `to_bytes` gave for the message.
pub fn make_request<M: Message>(mess: M) -> (request: Vec<u8>)
    ensures
        exists|body: Vec<u8>|
            call_ensures(M::to_bytes, (&mess,), body) && request@ == magic() + body@,
{
    frame(mess.to_bytes())
}

/// Builds the request for a message of the protocol.
pub fn encode(message: &crate::message::Message) -> (request: Vec<u8>)
    ensures
        request@ == magic() + encoded(message@),
{
    frame(message.to_bytes())
}

/// Returns the payload length that a response header declares, or an error
/// where the header does not start with the preamble.
pub fn read_response_headers(headers: &[u8; 14]) -> (result: Result<usize, ProtocolError>)
    ensures
        headers@.subrange(0, 6) == magic() ==> result == Ok::<usize, ProtocolError>(
            declared_length(headers@) as usize,
        ),
        headers@.subrange(0, 6) != magic() ==> result == Err::<usize, ProtocolError>(
            ProtocolError::InvalidPreamble,
        ),
{
    match guard_against_invalid_response(headers.as_slice()) {
        Ok(()) => {
            let size: u32 = headers[6] as u32 + 256 * (headers[7] as u32) + 65536 * (
            headers[8] as u32) + 16777216 * (headers[9] as u32);
            Ok(size as usize)
        },
        Err(error) => Err(error),
    }
}

/// Accepts the first bytes of a response where they are the preamble followed
/// by at least one more byte.
pub fn guard_against_invalid_response(headers: &[u8]) -> (result: Result<(), ProtocolError>)
    ensures
        result is Ok <==> headers@.len() > 6 && headers@.subrange(0, 6) == magic(),
        result is Err ==> result == Err::<(), ProtocolError>(ProtocolError::InvalidPreamble),
{
    if headers.len() <= 6 {
        return Err(ProtocolError::InvalidPreamble);
    }
    let preamble = MAGIC_STRING.as_bytes();
    proof {
        magic_is_the_preamble_text();
    }
    let mut i: usize = 0;
    while i < preamble.len()
        invariant
            i <= preamble.len(),
            preamble@ == magic(),
            headers@.len() > 6,
            headers@.subrange(0, i as int) == magic().subrange(0, i as int),
        decreases preamble.len() - i,
    {
        if headers[i] != preamble[i] {
            assert(headers@.subrange(0, 6)[i as int] != magic()[i as int]);
            return Err(ProtocolError::InvalidPreamble);
        }
        assert(headers@.subrange(0, i + 1) =~= magic().subrange(0, i + 1)) by {
            assert(headers@.subrange(0, i as int) =~= headers@.subrange(0, i + 1).drop_last());
            assert(magic().subrange(0, i as int) =~= magic().subrange(0, i + 1).drop_last());
        }
        i += 1;
    }
    assert(magic().subrange(0, 6) =~= magic());
    Ok(())
}

/// Why an exchange with the compositor failed.
#[derive(Debug)]
pub enum TransportError {
    /// The connection could not be made, written to or read from, with the
    /// cause in words.
    Io(String),
    /// The response does not follow the protocol.
    Protocol(ProtocolError),
    /// The connection gave fewer bytes than were asked for, or more.
    ShortRead,
    /// The driver reported something that the exchange had not asked for.
    OutOfTurn,
}

/// A transport error as a mathematical value.
pub enum TransportErrorView {
    Io(Seq<char>),
    Protocol(ProtocolError),
    ShortRead,
    OutOfTurn,
}

impl View for TransportError {
    type V = TransportErrorView;

    open spec fn view(&self) -> TransportErrorView {
        match self {
            TransportError::Io(cause) => TransportErrorView::Io(cause@),
            TransportError::Protocol(error) => TransportErrorView::Protocol(*error),
            TransportError::ShortRead => TransportErrorView::ShortRead,
            TransportError::OutOfTurn => TransportErrorView::OutOfTurn,
        }
    }
}

/// A transport error in words.
pub open spec fn transport_error_text(error: TransportErrorView) -> Seq<char> {
    match error {
        TransportErrorView::Io(cause) => cause,
        TransportErrorView::Protocol(ProtocolError::InvalidPreamble) => "invalid preamble"@,
        TransportErrorView::ShortRead => "short read"@,
        TransportErrorView::OutOfTurn => "delivery out of turn"@,
    }
}

impl TransportError {
    /// The error in words.
    pub fn describe(&self) -> (text: String)
        ensures
            text@ == transport_error_text(self@),
    {
        match self {
            TransportError::Io(cause) => cause.clone(),
            TransportError::Protocol(ProtocolError::InvalidPreamble) => String::from_str(
                "invalid preamble",
            ),
            TransportError::ShortRead => String::from_str("short read"),
            TransportError::OutOfTurn => String::from_str("delivery out of turn"),
        }
    }
}

/// How far one exchange with the compositor has come.
#[derive(Clone, Copy, Debug, PartialEq, Eq, Structural)]
pub enum Exchange {
    /// The request is being written.
    Sending,
    /// The header of the response is being read.
    AwaitingHeader,
    /// The body of the response is being read: so many bytes.
    AwaitingBody(usize),
    /// The exchange is over.
    Over,
}

/// What the driver is asked to do on the connection.
#[derive(Debug)]
pub enum Transfer {
    /// Write all of these bytes.
    Write(Vec<u8>),
    /// Read this many bytes, no fewer and no more.
    Read(usize),
    /// Stop: with the body of the response, or with the error.
    Done(Result<Vec<u8>, TransportError>),
}

/// A transfer as a mathematical value.
pub enum TransferView {
    Write(Seq<u8>),
    Read(usize),
    Done(Result<Seq<u8>, TransportErrorView>),
}

impl View for Transfer {
    type V = TransferView;

    open spec fn view(&self) -> TransferView {
        match self {
            Transfer::Write(bytes) => TransferView::Write(bytes@),
            Transfer::Read(count) => TransferView::Read(*count),
            Transfer::Done(Ok(body)) => TransferView::Done(Ok(body@)),
            Transfer::Done(Err(error)) => TransferView::Done(Err(error@)),
        }
    }
}

/// What the driver reports of the transfer that it was asked to do.
#[derive(Debug)]
pub enum Delivery {
    /// The bytes were written.
    Written,
    /// These bytes were read.
    Bytes(Vec<u8>),
    /// The connection failed, with the cause in words.
    Failed(String),
}

/// A delivery as a mathematical value.
pub enum DeliveryView {
    Written,
    Bytes(Seq<u8>),
    Failed(Seq<char>),
}

impl View for Delivery {
    type V = DeliveryView;

    open spec fn view(&self) -> DeliveryView {
        match self {
            Delivery::Written => DeliveryView::Written,
            Delivery::Bytes(bytes) => DeliveryView::Bytes(bytes@),
            Delivery::Failed(cause) => DeliveryView::Failed(cause@),
        }
    }
}

/// The end of an exchange, with its outcome.
pub open spec fn over(outcome: Result<Seq<u8>, TransportErrorView>) -> (Exchange, TransferView) {
    (Exchange::Over, TransferView::Done(outcome))
}

/// What follows the header of a response: its body is read, as long as the
/// header declares. A header of another length than fourteen bytes is a short
/// read, and one without the preamble breaks the protocol.
pub open spec fn after_header(header: Seq<u8>) -> (Exchange, TransferView) {
    if header.len() != 14 {
        over(Err(TransportErrorView::ShortRead))
    } else if header.subrange(0, 6) != magic() {
        over(Err(TransportErrorView::Protocol(ProtocolError::InvalidPreamble)))
    } else {
        (
            Exchange::AwaitingBody(declared_length(header) as usize),
            TransferView::Read(declared_length(header) as usize),
        )
    }
}

/// The exchange after a delivery, and the transfer that it asks for: the
/// request is written in full, then the header is read, then the body. A
/// failure of the connection ends the exchange with its cause; so does a read
/// of another length than was asked for, and a delivery out of turn.
pub open spec fn exchanged(exchange: Exchange, delivery: DeliveryView) -> (
    Exchange,
    TransferView,
) {
    match (exchange, delivery) {
        (_, DeliveryView::Failed(cause)) => over(Err(TransportErrorView::Io(cause))),
        (Exchange::Sending, DeliveryView::Written) => (
            Exchange::AwaitingHeader,
            TransferView::Read(14),
        ),
        (Exchange::AwaitingHeader, DeliveryView::Bytes(header)) => after_header(header),
        (Exchange::AwaitingBody(count), DeliveryView::Bytes(body)) => if body.len() == count {
            over(Ok(body))
        } else {
            over(Err(TransportErrorView::ShortRead))
        },
        _ => over(Err(TransportErrorView::OutOfTurn)),
    }
}

/// Ends the exchange.
fn close(outcome: Result<Vec<u8>, TransportError>) -> (next: (Exchange, Transfer))
    ensures
        next.0 == Exchange::Over,
        next.1 == Transfer::Done(outcome),
{
    (Exchange::Over, Transfer::Done(outcome))
}

/// Begins an exchange: the request for the message is to be written.
pub fn open_exchange(message: &crate::message::Message) -> (next: (Exchange, Transfer))
    ensures
        next.0 == Exchange::Sending,
        next.1@ == TransferView::Write(magic() + encoded(message@)),
{
    (Exchange::Sending, Transfer::Write(encode(message)))
}

/// Takes the exchange one delivery further and says what to do next on the
/// connection.
pub fn roundtrip(exchange: Exchange, delivery: Delivery) -> (next: (Exchange, Transfer))
    ensures
        (next.0, next.1@) == exchanged(exchange, delivery@),
{
    match delivery {
        Delivery::Failed(cause) => close(Err(TransportError::Io(cause))),
        Delivery::Written => match exchange {
            Exchange::Sending => (Exchange::AwaitingHeader, Transfer::Read(HEADER_LEN)),
            _ => close(Err(TransportError::OutOfTurn)),
        },
        Delivery::Bytes(bytes) => match exchange {
            Exchange::AwaitingHeader => {
                if bytes.len() != HEADER_LEN {
                    return close(Err(TransportError::ShortRead));
                }
                let header: [u8; 14] = [
                    bytes[0],
                    bytes[1],
                    bytes[2],
                    bytes[3],
                    bytes[4],
                    bytes[5],
                    bytes[6],
                    bytes[7],
                    bytes[8],
                    bytes[9],
                    bytes[10],
                    bytes[11],
                    bytes[12],
                    bytes[13],
                ];
                assert(header@ =~= bytes@);
                match read_response_headers(&header) {
                    Ok(size) => (Exchange::AwaitingBody(size), Transfer::Read(size)),
                    Err(error) => close(Err(TransportError::Protocol(error))),
                }
            },
            Exchange::AwaitingBody(count) => {
                if bytes.len() == count {
                    close(Ok(bytes))
                } else {
                    close(Err(TransportError::ShortRead))
                }
            },
            _ => close(Err(TransportError::OutOfTurn)),
        },
    }
}

} // verus!
