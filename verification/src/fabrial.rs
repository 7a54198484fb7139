//! The fabrial terminal protocol: messages a client sends to the terminal
//! server running inside a virtual machine.
//!
//! Message structure: `| MsgType (u8) | Payload ... |`, where
//! - `0x01` carries terminal data (user input): `| len (u16, LE) | data |`
//! - `0x02` resizes the terminal: `| rows (u16, LE) | cols (u16, LE) |`

use vstd::prelude::*;

verus! {

/// Message type byte meaning "nothing was sent".
pub const MSG_TY_ZERO: u8 = 0x00;
/// Message type byte of a data message.
pub const MSG_TY_DATA: u8 = 0x01;
/// Message type byte of a resize message.
pub const MSG_TY_TTYRESIZE: u8 = 0x02;

/// What the server does after reading a message from the socket.
#[derive(Clone, Copy, Debug, PartialEq, Eq, Structural)]
pub enum SocketAction {
    /// Write the data that was read to the terminal.
    WriteToTTY,
    /// Nothing more to read for now.
    WouldBlock,
    /// Read the next message.
    Continue,
}

/// Messages that break the protocol.
#[derive(Clone, Copy, Debug, PartialEq, Eq, Structural)]
pub enum FramingError {
    /// A data message announced zero bytes of data.
    MissingDataLength,
    /// A resize message with zero rows or zero columns.
    InvalidResize,
}

/// A message read from the socket.
#[derive(Debug)]
pub enum ClientMessage {
    /// No message (a zero type byte, or no byte at all).
    Nothing,
    /// Terminal input.
    Data(Vec<u8>),
    /// New terminal size.
    Resize { rows: u16, cols: u16 },
    /// A message type the server does not know.
    Unknown(u8),
}

/// A message read from the socket, with the number of bytes it took.
#[derive(Debug)]
pub struct ReadMessage {
    pub message: ClientMessage,
    pub consumed: usize,
}

/// The byte at `i`, or zero where the input has ended (a short non-blocking
/// read leaves the rest of the receive buffer zeroed).
pub open spec fn byte_or_zero(input: Seq<u8>, i: int) -> u8 {
    if 0 <= i < input.len() {
        input[i]
    } else {
        0
    }
}

/// Little-endian 16-bit value at `i`, with missing bytes read as zero.
pub open spec fn le16_or_zero(input: Seq<u8>, i: int) -> u16 {
    (byte_or_zero(input, i) as int + 256 * byte_or_zero(input, i + 1) as int) as u16
}

/// The smaller of two integers.
pub open spec fn min(a: int, b: int) -> int {
    if a <= b {
        a
    } else {
        b
    }
}

/// What the action of the server is for a message.
pub open spec fn action_for(m: ClientMessage) -> SocketAction {
    match m {
        ClientMessage::Nothing => SocketAction::WouldBlock,
        ClientMessage::Data(_) => SocketAction::WriteToTTY,
        ClientMessage::Resize { .. } => SocketAction::Continue,
        ClientMessage::Unknown(_) => SocketAction::Continue,
    }
}

/// The action of the server for a message.
pub fn socket_action(m: &ClientMessage) -> (a: SocketAction)
    ensures
        a == action_for(*m),
        (a == SocketAction::WouldBlock) <==> (*m is Nothing),
        (a == SocketAction::WriteToTTY) <==> (*m is Data),
        *m is Unknown ==> a == SocketAction::Continue,
        *m is Resize ==> a == SocketAction::Continue,
{
    match m {
        ClientMessage::Nothing => SocketAction::WouldBlock,
        ClientMessage::Data(_) => SocketAction::WriteToTTY,
        ClientMessage::Resize { .. } => SocketAction::Continue,
        ClientMessage::Unknown(_) => SocketAction::Continue,
    }
}

fn get_or_zero(input: &[u8], i: usize) -> (b: u8)
    ensures
        b == byte_or_zero(input@, i as int),
{
    if i < input.len() {
        input[i]
    } else {
        0
    }
}

/// Reads one message from the bytes available on the socket.
pub fn read_message(input: &[u8]) -> (r: Result<ReadMessage, FramingError>)
    ensures
        input@.len() == 0 ==> (r matches Ok(m) && m.message is Nothing && m.consumed == 0),
        input@.len() > 0 && input@[0] == MSG_TY_ZERO ==> (r matches Ok(m) && m.message is Nothing
            && m.consumed == 1),
        input@.len() > 0 && input@[0] == MSG_TY_DATA ==> ({
            let len = le16_or_zero(input@, 1) as int;
            let start = min(3, input@.len() as int);
            let take = min(len, input@.len() - start);
            if len == 0 {
                r == Err::<ReadMessage, FramingError>(FramingError::MissingDataLength)
            } else {
                r matches Ok(m) && m.message matches ClientMessage::Data(d) && d@ == input@.subrange(
                    start,
                    start + take,
                ) && m.consumed == start + take
            }
        }),
        input@.len() > 0 && input@[0] == MSG_TY_TTYRESIZE ==> ({
            let rows = le16_or_zero(input@, 1);
            let cols = le16_or_zero(input@, 3);
            if rows == 0 || cols == 0 {
                r == Err::<ReadMessage, FramingError>(FramingError::InvalidResize)
            } else {
                r matches Ok(m) && m.message == (ClientMessage::Resize { rows, cols })
                    && m.consumed == min(5, input@.len() as int)
            }
        }),
        input@.len() > 0 && input@[0] != MSG_TY_ZERO && input@[0] != MSG_TY_DATA && input@[0]
            != MSG_TY_TTYRESIZE ==> (r matches Ok(m) && m.message == ClientMessage::Unknown(input@[0])
            && m.consumed == 1),
{
    let n = input.len();
    if n == 0 {
        return Ok(ReadMessage { message: ClientMessage::Nothing, consumed: 0 });
    }
    match input[0] {
        MSG_TY_ZERO => Ok(ReadMessage { message: ClientMessage::Nothing, consumed: 1 }),
        MSG_TY_DATA => {
            let len: usize = get_or_zero(input, 1) as usize + 256 * get_or_zero(input, 2) as usize;
            if len == 0 {
                return Err(FramingError::MissingDataLength);
            }
            let start: usize = if n < 3 {
                n
            } else {
                3
            };
            let take: usize = if len <= n - start {
                len
            } else {
                n - start
            };
            let mut data: Vec<u8> = Vec::new();
            data.extend_from_slice(&input[start..start + take]);
            Ok(ReadMessage { message: ClientMessage::Data(data), consumed: start + take })
        },
        MSG_TY_TTYRESIZE => {
            let rows: u16 = get_or_zero(input, 1) as u16 + 256 * get_or_zero(input, 2) as u16;
            let cols: u16 = get_or_zero(input, 3) as u16 + 256 * get_or_zero(input, 4) as u16;
            if rows == 0 || cols == 0 {
                return Err(FramingError::InvalidResize);
            }
            let consumed: usize = if n < 5 {
                n
            } else {
                5
            };
            Ok(ReadMessage { message: ClientMessage::Resize { rows, cols }, consumed })
        },
        t => Ok(ReadMessage { message: ClientMessage::Unknown(t), consumed: 1 }),
    }
}

/// The bytes of a data message carrying `data`: the type byte, the length
/// as a little-endian `u16` (the low 16 bits of the length), then the data.
pub open spec fn data_message_bytes(data: Seq<u8>) -> Seq<u8> {
    seq![MSG_TY_DATA, (data.len() % 256) as u8, ((data.len() / 256) % 256) as u8] + data
}

/// The bytes of a resize message: type byte, rows and columns as
/// little-endian `u16`.
pub open spec fn resize_message_bytes(rows: u16, cols: u16) -> Seq<u8> {
    seq![
        MSG_TY_TTYRESIZE,
        (rows % 256) as u8,
        (rows / 256) as u8,
        (cols % 256) as u8,
        (cols / 256) as u8,
    ]
}

/// Encodes a data message.
pub fn data_message(data: &[u8]) -> (v: Vec<u8>)
    ensures
        v@ == data_message_bytes(data@),
{
    let len = data.len();
    let mut v: Vec<u8> = Vec::new();
    v.push(MSG_TY_DATA);
    v.push((len % 256) as u8);
    v.push(((len / 256) % 256) as u8);
    v.extend_from_slice(data);
    v
}

/// Encodes a resize message.
pub fn resize_message(rows: u16, cols: u16) -> (m: [u8; 5])
    ensures
        m@ == resize_message_bytes(rows, cols),
{
    let m = [
        MSG_TY_TTYRESIZE,
        (rows % 256) as u8,
        (rows / 256) as u8,
        (cols % 256) as u8,
        (cols / 256) as u8,
    ];
    assert(m@ =~= resize_message_bytes(rows, cols));
    m
}

/// A data message of 1 to 65535 bytes is read back as exactly that data,
/// whatever follows it on the socket.
pub proof fn lemma_data_message_roundtrip(data: Seq<u8>, rest: Seq<u8>)
    requires
        1 <= data.len() <= 0xFFFF,
    ensures
        ({
            let input = data_message_bytes(data) + rest;
            &&& le16_or_zero(input, 1) == data.len()
            &&& input.subrange(3, 3 + data.len() as int) == data
            &&& min(le16_or_zero(input, 1) as int, input.len() - 3) == data.len()
        }),
{
    let input = data_message_bytes(data) + rest;
    assert(input.subrange(3, 3 + data.len() as int) =~= data);
}

/// A resize message is read back as the same size when both dimensions are
/// nonzero, and is rejected otherwise.
pub proof fn lemma_resize_message_roundtrip(rows: u16, cols: u16, rest: Seq<u8>)
    ensures
        ({
            let input = resize_message_bytes(rows, cols) + rest;
            &&& input[0] == MSG_TY_TTYRESIZE
            &&& le16_or_zero(input, 1) == rows
            &&& le16_or_zero(input, 3) == cols
        }),
{
}

/// Token of the client socket in a terminal session.
pub const TOKEN_SOCK: usize = 10;

/// Token of the terminal device in a terminal session.
pub const TOKEN_TTY: usize = 20;

/// `errno` value: the operation would block.
pub const EWOULDBLOCK: i32 = 11;

/// What a terminal session does when the source under a token is readable.
#[derive(Clone, Copy, Debug, PartialEq, Eq, Structural)]
pub enum SessionAction {
    /// Read the client's messages until none is left
    ReadSocket,
    /// Read the terminal's output and send it to the client
    ReadTty,
    /// Nothing is registered under this token
    Unknown(usize),
}

/// What to do about a readable `token` in a terminal session.
pub fn session_dispatch(token: usize) -> (a: SessionAction)
    ensures
        a == (if token == TOKEN_SOCK {
            SessionAction::ReadSocket
        } else if token == TOKEN_TTY {
            SessionAction::ReadTty
        } else {
            SessionAction::Unknown(token)
        }),
{
    if token == TOKEN_SOCK {
        SessionAction::ReadSocket
    } else if token == TOKEN_TTY {
        SessionAction::ReadTty
    } else {
        SessionAction::Unknown(token)
    }
}

/// What the console client does with the outcome of a non-blocking
/// receive on its socket.
#[derive(Clone, Copy, Debug, PartialEq, Eq, Structural)]
pub enum ConsoleStep {
    /// The machine closed the connection: shut the socket down and stop
    Closed,
    /// Print the bytes received
    Print(usize),
    /// Nothing more to read for now
    Drained,
}

/// The console client's step after receiving: `Ok(n)` bytes (zero when the
/// peer closed) or the error number of a failed receive, which is fatal
/// unless the receive would have blocked.
pub fn console_step(received: Result<usize, i32>) -> (r: Result<ConsoleStep, i32>)
    ensures
        r == match received {
            Ok(n) => if n == 0 {
                Ok::<ConsoleStep, i32>(ConsoleStep::Closed)
            } else {
                Ok::<ConsoleStep, i32>(ConsoleStep::Print(n))
            },
            Err(e) => if e == EWOULDBLOCK {
                Ok::<ConsoleStep, i32>(ConsoleStep::Drained)
            } else {
                Err::<ConsoleStep, i32>(e)
            },
        },
{
    match received {
        Ok(0) => Ok(ConsoleStep::Closed),
        Ok(n) => Ok(ConsoleStep::Print(n)),
        Err(e) => if e == EWOULDBLOCK {
            Ok(ConsoleStep::Drained)
        } else {
            Err(e)
        },
    }
}

/// The server keeps reading the socket until it runs dry: only the
/// absence of a message (an empty read or a zero type byte) ends the
/// reading (`WouldBlock`); data goes to the terminal, and a resize or a
/// message of a type the server does not know is passed over to read the
/// next message (`Continue`).
pub proof fn lemma_only_nothing_stops_reading(m: ClientMessage)
    ensures
        (action_for(m) == SocketAction::WouldBlock) <==> (m is Nothing),
        (action_for(m) == SocketAction::WriteToTTY) <==> (m is Data),
        (m is Unknown || m is Resize) <==> (action_for(m) == SocketAction::Continue),
{
}

/// Reading a message whose type byte the server does not know takes that
/// one byte and lets the server read on: for every input whose first byte
/// is neither zero, data nor resize, the message read is `Unknown` with
/// that byte, one byte is consumed, and the action for it is `Continue`, so
/// what follows on the socket is read next.
pub proof fn lemma_unknown_type_is_skipped(input: Seq<u8>, m: ReadMessage)
    requires
        input.len() > 0,
        input[0] != MSG_TY_ZERO && input[0] != MSG_TY_DATA && input[0] != MSG_TY_TTYRESIZE,
        m.message == ClientMessage::Unknown(input[0]),
        m.consumed == 1,
    ensures
        action_for(m.message) == SocketAction::Continue,
        action_for(m.message) != SocketAction::WouldBlock,
        m.consumed < input.len() ==> input.subrange(m.consumed as int, input.len() as int) == input.drop_first(),
{
}

} // verus!
