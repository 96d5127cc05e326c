//! The ingestion pipeline's decisions: the per-connection lifecycle and
//! the framing of raw lines for the recording sink. The blocking reads,
//! the worker thread and the channel live in the surrounding application;
//! this module states what each step must do.

use vstd::prelude::*;

verus! {

/// ASCII `;`.
pub const SEMICOLON: u8 = 59;

/// ASCII line feed.
pub const NEWLINE: u8 = 10;

/// The inbound connection's lifecycle: disconnected, or streaming from
/// one server. Only one connection is ever active.
#[derive(Debug)]
pub enum ReceiverState {
    Disconnected,
    Streaming { server_address: Vec<u8> },
}

/// The mathematical shape of the lifecycle state.
pub enum ReceiverStateV {
    Disconnected,
    Streaming { server_address: Seq<u8> },
}

impl View for ReceiverState {
    type V = ReceiverStateV;

    open spec fn view(&self) -> ReceiverStateV {
        match self {
            ReceiverState::Disconnected => ReceiverStateV::Disconnected,
            ReceiverState::Streaming { server_address } => ReceiverStateV::Streaming {
                server_address: server_address@,
            },
        }
    }
}

/// Starting a connection: a receiver that still streams must be fully
/// stopped first (socket shut down, worker joined); the next state streams
/// from the given address.
pub fn start_transition(state: ReceiverState, server_address: Vec<u8>) -> (r: (
    ReceiverState,
    bool,
))
    ensures
        r.0@ == (ReceiverStateV::Streaming { server_address: server_address@ }),
        r.1 == (state@ is Streaming),
{
    let must_stop_first = match &state {
        ReceiverState::Streaming { .. } => true,
        ReceiverState::Disconnected => false,
    };
    (ReceiverState::Streaming { server_address }, must_stop_first)
}

/// Stopping: yields the address streamed from when the receiver ran, so
/// the caller can shut the socket down and join the worker; stopping an
/// already-stopped receiver is a no-op and yields nothing.
pub fn stop_transition(state: ReceiverState) -> (r: (ReceiverState, Option<Vec<u8>>))
    ensures
        r.0@ is Disconnected,
        (state@ matches ReceiverStateV::Streaming { server_address } ==> (r.1 matches Some(a)
            && a@ == server_address)),
        (state@ is Disconnected ==> r.1 is None),
{
    match state {
        ReceiverState::Streaming { server_address } => (
            ReceiverState::Disconnected,
            Some(server_address),
        ),
        ReceiverState::Disconnected => (ReceiverState::Disconnected, None),
    }
}

/// Appends all of `s` to `out`.
fn push_all(out: &mut Vec<u8>, s: &[u8])
    ensures
        final(out)@ == old(out)@ + s@,
{
    let ghost base = out@;
    let mut i: usize = 0;
    while i < s.len()
        invariant
            0 <= i <= s@.len(),
            out@ == base + s@.take(i as int),
        decreases s@.len() - i,
    {
        proof {
            assert((base + s@.take(i as int)).push(s@[i as int]) =~= base + s@.take(i + 1));
        }
        out.push(s[i]);
        i += 1;
    }
    proof {
        assert(s@.take(s@.len() as int) =~= s@);
    }
}

/// Frames one raw feed line for the recording sink: the caller's local
/// timestamp, a semicolon, the line as received, a newline.
pub fn record_line(timestamp: &[u8], line: &[u8]) -> (r: Vec<u8>)
    ensures
        r@ == timestamp@ + seq![SEMICOLON] + line@ + seq![NEWLINE],
{
    let mut r: Vec<u8> = Vec::new();
    proof {
        assert(r@ + timestamp@ =~= timestamp@);
    }
    push_all(&mut r, timestamp);
    r.push(SEMICOLON);
    proof {
        assert(timestamp@.push(SEMICOLON) =~= timestamp@ + seq![SEMICOLON]);
    }
    push_all(&mut r, line);
    r.push(NEWLINE);
    proof {
        assert(((timestamp@ + seq![SEMICOLON]) + line@).push(NEWLINE) =~= timestamp@ + seq![
            SEMICOLON,
        ] + line@ + seq![NEWLINE]);
    }
    r
}

} // verus!
