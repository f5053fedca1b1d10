//! # Chat protocol
//!
//! The direct chat protocol between two peers: a request carries the text
//! of a message, and the answer confirms it with a magic value.

use vstd::prelude::*;
use vstd::utf8::{decode_utf8, encode_utf8, valid_utf8};

verus! {

/// Protocol name of the chat request/response protocol.
pub const CHAT_PROTOCOL_NAME: &'static str = "/locha-p2p/chat/1.0.0";

/// Protocol name of the chat substream protocol.
pub const CHAT_SUBSTREAM_PROTOCOL: &'static str = "/locha/chat/0.1.0";

/// Size of the header of a chat message on a substream.
pub const CHAT_MSG_HDR_SIZE: usize = 1 + 2;

/// Largest request, in bytes, that is read.
pub const MAX_REQUEST_SIZE: usize = 1024;

/// Size of the confirmation that answers a request.
pub const CONFIRMATION_SIZE: usize = 8;

/// The magic value that confirms a chat message.
pub open spec fn confirmation_magic() -> Seq<u8> {
    seq![0xDEu8, 0xADu8, 0xBEu8, 0xEFu8, 0xCAu8, 0xFEu8, 0xCAu8, 0xFEu8]
}

/// Locha Mesh chat protocol behaviour.
pub struct Chat;

impl Chat {
    /// Create a new Chat.
    pub fn new() -> Chat {
        Chat
    }
}

/// Handler of chat substreams.
pub struct ChatHandler;

impl ChatHandler {
    /// Create a new handler.
    pub fn new() -> ChatHandler {
        ChatHandler
    }
}

/// Event of the chat behaviour.
pub struct ChatEvent;

/// A chat exchange succeeded.
pub struct ChatSuccess;

/// A chat exchange failed.
pub struct ChatFailure;

/// Outcome of a chat exchange.
pub type ChatResult = Result<ChatSuccess, ChatFailure>;

/// A chat message.
pub struct Message {
    pub content: String,
}

/// Confirmation that a chat message arrived.
pub struct MessageConfirmation;

/// Why a chat frame was refused.
pub enum ChatCodecError {
    /// The request is not valid UTF-8.
    InvalidUtf8,
    /// The answer is not the confirmation magic value.
    InvalidMagic,
}

/// The text of the bytes, when they are valid UTF-8.
///
/// Calls `String::from_utf8`, which, as std documents, succeeds exactly on
/// valid UTF-8 and then holds its text.
#[verifier::external_body]
fn string_from_utf8(bytes: Vec<u8>) -> (r: Option<String>)
    ensures
        r is Some <==> valid_utf8(bytes@),
        r matches Some(s) ==> s@ == decode_utf8(bytes@),
{
    String::from_utf8(bytes).ok()
}

/// The bytes written for a chat message: the UTF-8 encoding of its text.
pub fn write_request(message: &Message) -> (r: Vec<u8>)
    ensures
        r@ == encode_utf8(message.content@),
{
    vstd::slice::slice_to_vec(message.content.as_str().as_bytes())
}

/// The chat message that the bytes read carry; refused when they are not
/// valid UTF-8.
pub fn read_request(bytes: Vec<u8>) -> (r: Result<Message, ChatCodecError>)
    ensures
        r is Ok <==> valid_utf8(bytes@),
        r matches Ok(m) ==> m.content@ == decode_utf8(bytes@),
        r matches Err(e) ==> e is InvalidUtf8,
{
    match string_from_utf8(bytes) {
        Some(content) => Ok(Message { content }),
        None => Err(ChatCodecError::InvalidUtf8),
    }
}

/// The bytes written to confirm a chat message.
pub fn write_response(_confirmation: &MessageConfirmation) -> (r: Vec<u8>)
    ensures
        r@ == confirmation_magic(),
{
    vec![0xDEu8, 0xADu8, 0xBEu8, 0xEFu8, 0xCAu8, 0xFEu8, 0xCAu8, 0xFEu8]
}

/// The confirmation that the bytes read carry; refused unless they are the
/// magic value.
pub fn read_response(magic: &[u8]) -> (r: Result<MessageConfirmation, ChatCodecError>)
    ensures
        r is Ok <==> magic@ == confirmation_magic(),
        r matches Err(e) ==> e is InvalidMagic,
{
    let expected = write_response(&MessageConfirmation);
    if magic.len() != expected.len() {
        return Err(ChatCodecError::InvalidMagic);
    }
    let mut i: usize = 0;
    while i < magic.len()
        invariant
            expected@ == confirmation_magic(),
            magic@.len() == expected@.len(),
            0 <= i <= magic@.len(),
            forall|k: int| 0 <= k < i ==> magic@[k] == expected@[k],
        decreases magic@.len() - i,
    {
        if magic[i] != expected[i] {
            return Err(ChatCodecError::InvalidMagic);
        }
        i = i + 1;
    }
    proof {
        assert(magic@ =~= confirmation_magic());
    }
    Ok(MessageConfirmation)
}

/// A chat message written and read back is the same message.
pub proof fn lemma_request_round_trip(content: Seq<char>)
    ensures
        valid_utf8(encode_utf8(content)),
        decode_utf8(encode_utf8(content)) == content,
{
    vstd::utf8::encode_utf8_valid_utf8(content);
    vstd::utf8::encode_utf8_decode_utf8(content);
}

} // verus!
