//! Wire codec: fixed 3-byte command frames going out, fixed 2-byte response
//! frames coming back, and a frame-level emulation of a conforming remote.

use vstd::prelude::*;

use crate::simulator::Command;
use crate::simulator::Error;
use crate::simulator::Simulator;
use crate::simulator::spec_memory_after;
use crate::simulator::spec_outcome;

verus! {

/// Why a response frame did not carry a success.
#[derive(Clone, Copy, Debug, PartialEq, Eq, Structural)]
pub enum ResponseError {
    /// The remote explicitly signaled failure (status byte 1).
    ProtocolError,
    /// The status byte was neither 0 nor 1: malformed response.
    DecodeError,
}

/// A decoded 2-byte response frame.
#[derive(Clone, Copy, Debug, PartialEq, Eq, Structural)]
pub enum Response {
    /// Execution was successful and returned the payload byte.
    Success(u8),
    /// Failed to execute the command.
    Failure(ResponseError),
}

/// The 3-byte frame `[opcode, operand1, operand2]` a command encodes to.
pub open spec fn spec_encode(command: Command) -> Seq<u8> {
    match command {
        Command::Read(i) => seq![1u8, i, 0u8],
        Command::Write(i, v) => seq![2u8, i, v],
        Command::Sum => seq![3u8, 0u8, 0u8],
        Command::Product => seq![4u8, 0u8, 0u8],
    }
}

/// The command a 3-byte frame stands for, `None` on an unknown opcode.
pub open spec fn spec_decode_command(frame: Seq<u8>) -> Option<Command> {
    if frame[0] == 1 {
        Some(Command::Read(frame[1]))
    } else if frame[0] == 2 {
        Some(Command::Write(frame[1], frame[2]))
    } else if frame[0] == 3 {
        Some(Command::Sum)
    } else if frame[0] == 4 {
        Some(Command::Product)
    } else {
        None
    }
}

/// The response a 2-byte frame `[status, payload]` stands for: status 0 is
/// success with the payload, status 1 an explicit failure, anything else a
/// malformed response.
pub open spec fn spec_decode_response(frame: Seq<u8>) -> Response {
    if frame[0] == 0 {
        Response::Success(frame[1])
    } else if frame[0] == 1 {
        Response::Failure(ResponseError::ProtocolError)
    } else {
        Response::Failure(ResponseError::DecodeError)
    }
}

impl Command {
    /// Encode the command as its fixed 3-byte wire frame.
    pub fn to_bytes(&self) -> (r: [u8; 3])
        ensures
            r@ == spec_encode(*self),
    {
        let bytes: [u8; 3] = match self {
            Command::Read(location) => [1, *location, 0],
            Command::Write(location, value) => [2, *location, *value],
            Command::Sum => [3, 0, 0],
            Command::Product => [4, 0, 0],
        };
        proof {
            assert(bytes@ =~= spec_encode(*self));
        }
        bytes
    }
}

/// Decode a 2-byte response frame.
pub fn decode_response(frame: [u8; 2]) -> (r: Response)
    ensures
        r == spec_decode_response(frame@),
{
    match frame[0] {
        0 => Response::Success(frame[1]),
        1 => Response::Failure(ResponseError::ProtocolError),
        _ => Response::Failure(ResponseError::DecodeError),
    }
}

/// Encoding then decoding a command frame gives the command back: the codec
/// loses nothing, and distinct commands have distinct frames.
pub proof fn lemma_command_frame_round_trip(command: Command)
    ensures
        spec_decode_command(spec_encode(command)) == Some(command),
{
}

/// A conforming remote, emulated at frame level: decode the command frame,
/// run it on the given memory, and answer `[0, value]` on success or `[1, 0]`
/// on any failure (an unknown opcode included).
pub fn remote_frame_emulating(simulator: &mut Simulator, frame: [u8; 3]) -> (r: [u8; 2])
    ensures
        (match spec_decode_command(frame@) {
            Some(c) => final(simulator)@ == spec_memory_after(old(simulator)@, c) && r@ == (
            match spec_outcome(old(simulator)@, c) {
                Ok(v) => seq![0u8, v],
                Err(_) => seq![1u8, 0u8],
            }),
            None => final(simulator)@ == old(simulator)@ && r@ == seq![1u8, 0u8],
        }),
{
    let command: Option<Command> = match frame[0] {
        1 => Some(Command::Read(frame[1])),
        2 => Some(Command::Write(frame[1], frame[2])),
        3 => Some(Command::Sum),
        4 => Some(Command::Product),
        _ => None,
    };
    let response: [u8; 2] = match command {
        Some(c) => match simulator.execute_command(&c) {
            Ok(v) => [0, v],
            Err(_) => [1, 0],
        },
        None => [1, 0],
    };
    proof {
        match spec_decode_command(frame@) {
            Some(c) => {
                match spec_outcome(old(simulator)@, c) {
                    Ok(v) => {
                        assert(response@ =~= seq![0u8, v]);
                    },
                    Err(_) => {
                        assert(response@ =~= seq![1u8, 0u8]);
                    },
                }
            },
            None => {
                assert(response@ =~= seq![1u8, 0u8]);
            },
        }
    }
    response
}

/// Round trip through the wire: for every command, a conforming remote's
/// response frame decodes back to the command's own outcome — `Success(v)`
/// exactly when the reference model returns `Ok(v)`, a `ProtocolError`
/// failure exactly when it returns an error. A status byte outside `{0, 1}`
/// always decodes to a `DecodeError` failure.
pub proof fn lemma_response_round_trip(mem: Seq<u8>, command: Command, other: u8, payload: u8)
    requires
        other != 0,
        other != 1,
    ensures
        (match spec_outcome(mem, command) {
            Ok(v) => spec_decode_response(seq![0u8, v]) == Response::Success(v),
            Err(_) => spec_decode_response(seq![1u8, 0u8]) == Response::Failure(
                ResponseError::ProtocolError,
            ),
        }),
        spec_decode_response(seq![other, payload]) == Response::Failure(ResponseError::DecodeError),
{
}

} // verus!
