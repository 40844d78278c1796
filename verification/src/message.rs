//! The messages that are sent to the compositor and the records that it
//! answers a command with.

use vstd::prelude::*;
use vstd::utf8::encode_utf8;

verus! {

/// The messages of the protocol that this library sends.
#[derive(Debug)]
pub enum Message {
    /// Asks for the outputs that are attached.
    GetOutputs,
    /// Asks the compositor to run a command.
    RunCommand(String),
}

/// A message as a mathematical value.
pub enum MessageView {
    GetOutputs,
    RunCommand(Seq<char>),
}

impl View for Message {
    type V = MessageView;

    open spec fn view(&self) -> MessageView {
        match self {
            Message::GetOutputs => MessageView::GetOutputs,
            Message::RunCommand(text) => MessageView::RunCommand(text@),
        }
    }
}

/// The four bytes that hold `x` on the wire, least significant first.
pub open spec fn le_bytes(x: u32) -> Seq<u8> {
    seq![
        (x % 256) as u8,
        (x / 256 % 256) as u8,
        (x / 65536 % 256) as u8,
        (x / 16777216) as u8,
    ]
}

/// The type tag that the protocol gives a message.
pub open spec fn type_tag(message: MessageView) -> u32 {
    match message {
        MessageView::GetOutputs => 3,
        MessageView::RunCommand(_) => 0,
    }
}

/// The payload of a message: the command's text in UTF-8, or nothing.
pub open spec fn payload(message: MessageView) -> Seq<u8> {
    match message {
        MessageView::GetOutputs => Seq::empty(),
        MessageView::RunCommand(text) => encode_utf8(text),
    }
}

/// The length field of a message: the payload's length, of which the field
/// holds the low 32 bits.
pub open spec fn length_field(message: MessageView) -> u32 {
    payload(message).len() as u32
}

/// A message on the wire, without the preamble: length, type tag, payload.
pub open spec fn encoded(message: MessageView) -> Seq<u8> {
    le_bytes(length_field(message)) + le_bytes(type_tag(message)) + payload(message)
}

/// Appends the four bytes of `x`, least significant first.
fn push_le_bytes(bytes: &mut Vec<u8>, x: u32)
    ensures
        final(bytes)@ == old(bytes)@ + le_bytes(x),
{
    bytes.push((x % 256) as u8);
    bytes.push((x / 256 % 256) as u8);
    bytes.push((x / 65536 % 256) as u8);
    bytes.push((x / 16777216) as u8);
    assert(bytes@ =~= old(bytes)@ + le_bytes(x));
}

impl Clone for Message {
    fn clone(&self) -> (copy: Self)
        ensures
            copy == *self,
    {
        match self {
            Message::GetOutputs => Message::GetOutputs,
            Message::RunCommand(text) => Message::RunCommand(text.clone()),
        }
    }
}

impl Message {
    /// Serializes the message: length, type tag, payload.
    pub fn to_bytes(&self) -> (bytes: Vec<u8>)
        ensures
            bytes@ == encoded(self@),
    {
        let mut bytes: Vec<u8> = Vec::new();
        push_le_bytes(&mut bytes, self.len());
        push_le_bytes(&mut bytes, self.what());
        let mut data = self.data();
        bytes.append(&mut data);
        assert(bytes@ =~= encoded(self@));
        bytes
    }

    /// The type tag of the message in the protocol.
    pub fn what(&self) -> (tag: u32)
        ensures
            tag == type_tag(self@),
    {
        match self {
            Message::GetOutputs => 3,
            Message::RunCommand(_) => 0,
        }
    }

    /// The payload's length as the length field holds it.
    pub fn len(&self) -> (length: u32)
        ensures
            length == length_field(self@),
    {
        match self {
            Message::GetOutputs => 0,
            Message::RunCommand(text) => {
                let length: usize = text.as_str().as_bytes().len();
                #[verifier::truncate]
                (length as u32)
            },
        }
    }

    /// The payload of the message.
    pub fn data(&self) -> (bytes: Vec<u8>)
        ensures
            bytes@ == payload(self@),
    {
        match self {
            Message::GetOutputs => Vec::new(),
            Message::RunCommand(text) => text.as_str().as_bytes_vec(),
        }
    }
}

/// What the compositor answers for one command.
#[derive(Clone, Copy, Debug, PartialEq, Eq, Structural)]
pub struct Response {
    pub success: bool,
}

/// Every record reports success.
pub open spec fn all_successful(responses: Seq<Response>) -> bool {
    forall|i: int| 0 <= i < responses.len() ==> (#[trigger] responses[i]).success
}

impl Response {
    /// Whether a reply reports success for every command. `None` stands for a
    /// reply that could not be read as a list of records, which counts as
    /// failure.
    pub fn bulk_scan(input: Option<Vec<Response>>) -> (ok: bool)
        ensures
            ok == match input {
                Some(responses) => all_successful(responses@),
                None => false,
            },
    {
        match input {
            Some(responses) => {
                let mut i: usize = 0;
                while i < responses.len()
                    invariant
                        i <= responses.len(),
                        input == Some(responses),
                        forall|k: int| 0 <= k < i ==> (#[trigger] responses[k]).success,
                    decreases responses.len() - i,
                {
                    if !responses[i].success {
                        assert(!responses@[i as int].success);
                        return false;
                    }
                    i += 1;
                }
                true
            },
            None => false,
        }
    }
}

} // verus!
