//! The protocol between client and server.
//!
//! Protocol format:
//! - Header: 8-byte little-endian u64 containing body size
//! - Body: UTF-8 encoded SQL command (from the client) or `MessagePack` response (to the client)
use vstd::prelude::*;
use vstd::string::*;
use vstd::utf8::*;

use crate::text::{concat2, same_text};

verus! {

/// How many bytes the header has.
pub const HEADER_SIZE: usize = 8;

/// What can go wrong between client and server.
#[derive(Debug)]
pub enum ProtocolError {
    UnknownLength,
    InvalidDataModel(String),
    Syntax(String),
    DepthLimitExceeded,
    IOError(String),
    Conversion(String),
}

/// The message for a protocol error.
pub open spec fn protocol_text(e: ProtocolError) -> Seq<char> {
    match e {
        ProtocolError::UnknownLength => "SQL parsing error. Unknown length"@,
        ProtocolError::InvalidDataModel(s) => "SQL parsing error. Invalid data model: "@ + s@,
        ProtocolError::Syntax(s) => "SQL parsing error. Syntax error: "@ + s@,
        ProtocolError::DepthLimitExceeded => "SQL parsing error. Depth limit exceeded"@,
        ProtocolError::IOError(s) => "SQL parsing error. IO error: "@ + s@,
        ProtocolError::Conversion(s) => "Conversion error. "@ + s@,
    }
}

impl ProtocolError {
    /// The message for the error.
    pub fn to_text(&self) -> (r: String)
        ensures
            r@ == protocol_text(*self),
    {
        match self {
            ProtocolError::UnknownLength => "SQL parsing error. Unknown length".to_owned(),
            ProtocolError::InvalidDataModel(s) => concat2(
                "SQL parsing error. Invalid data model: ",
                s.as_str(),
            ),
            ProtocolError::Syntax(s) => concat2("SQL parsing error. Syntax error: ", s.as_str()),
            ProtocolError::DepthLimitExceeded => "SQL parsing error. Depth limit exceeded".to_owned(),
            ProtocolError::IOError(s) => concat2("SQL parsing error. IO error: ", s.as_str()),
            ProtocolError::Conversion(s) => concat2("Conversion error. ", s.as_str()),
        }
    }
}

/// What `String::from_utf8_lossy` makes of bytes.
pub uninterp spec fn utf8_lossy(bytes: Seq<u8>) -> Seq<char>;

/// Calls `String::from_utf8_lossy`: the text that the bytes encode, with the replacement character in
/// place of what is not UTF-8. Which bytes are replaced by how many characters is not said.
#[verifier::external_body]
fn decode_lossy(bytes: &[u8]) -> (r: String)
    ensures
        r@ == utf8_lossy(bytes@),
        valid_utf8(bytes@) ==> r@ == decode_utf8(bytes@),
{
    String::from_utf8_lossy(bytes).into_owned()
}

/// TCP protocol parser.
pub struct Parser;

/// The size of the body that a header announces.
pub open spec fn announced(buf: Seq<u8>) -> u64 {
    vstd::bytes::spec_u64_from_le_bytes(buf.take(8))
}

/// The message for a body: the size of the body in eight bytes, the least significant first, and the
/// body.
pub open spec fn message(body: Seq<u8>) -> Seq<u8> {
    vstd::bytes::spec_u64_to_le_bytes(body.len() as u64) + body
}

/// The body of the first message of a buffer and how many bytes the message takes, where all of it is
/// there; an error where the size cannot be one.
pub open spec fn first_body(buf: Seq<u8>) -> Result<Option<(Seq<u8>, int)>, Seq<char>> {
    if buf.len() < 8 {
        Ok(None)
    } else if announced(buf) > usize::MAX {
        Err("Header type too large"@)
    } else if buf.len() < 8 + announced(buf) {
        Ok(None)
    } else {
        Ok(Some((buf.subrange(8, 8 + announced(buf)), 8 + announced(buf))))
    }
}

impl Parser {
    /// The first command of a buffer and how many bytes its message takes, where all of it is there.
    ///
    /// Returns:
    ///   * Ok: the command, or nothing where bytes are missing.
    ///   * Error: `Conversion` where the size of the body is larger than the machine can address.
    pub fn decode(buf: &[u8]) -> (r: Result<Option<(String, usize)>, ProtocolError>)
        ensures
            match first_body(buf@) {
                Err(text) => r matches Err(ProtocolError::Conversion(s)) && s@ == text,
                Ok(None) => r matches Ok(None),
                Ok(Some((body, size))) => r matches Ok(Some((command, taken))) && command@ == utf8_lossy(body)
                    && taken == size && (valid_utf8(body) ==> command@ == decode_utf8(body)),
            },
    {
        if buf.len() < HEADER_SIZE {
            return Ok(None);
        }
        let header = vstd::slice::slice_subrange(buf, 0, HEADER_SIZE);
        assert(header@ =~= buf@.take(8));
        let size: u64 = vstd::bytes::u64_from_le_bytes(header);
        if size > usize::MAX as u64 {
            return Err(ProtocolError::Conversion("Header type too large".to_owned()));
        }
        let body_size: usize = size as usize;
        if buf.len() - HEADER_SIZE < body_size {
            return Ok(None);
        }
        let end: usize = HEADER_SIZE + body_size;
        let body = vstd::slice::slice_subrange(buf, HEADER_SIZE, end);
        Ok(Some((decode_lossy(body), end)))
    }

    /// The message for a body.
    pub fn encode(body: &[u8]) -> (r: Vec<u8>)
        ensures
            r@ == message(body@),
    {
        let size: usize = body.len();
        let mut buf = vstd::bytes::u64_to_le_bytes(size as u64);
        buf.extend_from_slice(body);
        assert(buf@ =~= message(body@));
        buf
    }
}

/// A message is read as it was written, whatever follows it: its body, and that it takes all its
/// bytes.
pub proof fn lemma_message_reads_back(body: Seq<u8>, rest: Seq<u8>)
    requires
        body.len() <= usize::MAX,
        body.len() <= u64::MAX,
    ensures
        first_body(message(body) + rest) == Ok::<Option<(Seq<u8>, int)>, Seq<char>>(
            Some((body, message(body).len() as int)),
        ),
{
    vstd::bytes::lemma_auto_spec_u64_to_from_le_bytes();
    let buf = message(body) + rest;
    assert(buf.take(8) =~= vstd::bytes::spec_u64_to_le_bytes(body.len() as u64));
    assert(buf.subrange(8, 8 + body.len() as int) =~= body);
}

/// As long as bytes of a message are missing, nothing is read.
pub proof fn lemma_part_of_message_is_not_read(body: Seq<u8>, n: int)
    requires
        body.len() <= usize::MAX,
        body.len() <= u64::MAX,
        0 <= n < message(body).len(),
    ensures
        first_body(message(body).take(n)) == Ok::<Option<(Seq<u8>, int)>, Seq<char>>(None),
{
    vstd::bytes::lemma_auto_spec_u64_to_from_le_bytes();
    let buf = message(body).take(n);
    if n >= 8 {
        assert(buf.take(8) =~= vstd::bytes::spec_u64_to_le_bytes(body.len() as u64));
    }
}

/// What to do with what a client sent.
pub enum ConnectionAction {
    /// Execute the command and send the answer.
    Execute(String),
    /// Send the message of the error.
    Refuse(String),
    /// Close the connection.
    Close,
}

/// What to do with what a client sent.
pub fn connection_action(command: Result<String, ProtocolError>) -> (r: ConnectionAction)
    ensures
        match command {
            Err(e) => r matches ConnectionAction::Refuse(text) && text@ == protocol_text(e),
            Ok(c) => if c@ == "exit"@ {
                r is Close
            } else {
                r matches ConnectionAction::Execute(d) && d == c
            },
        },
{
    match command {
        Err(e) => ConnectionAction::Refuse(e.to_text()),
        Ok(command) => if same_text(command.as_str(), "exit") {
            ConnectionAction::Close
        } else {
            ConnectionAction::Execute(command)
        },
    }
}

} // verus!
