//! The order of the handshake and liveness exchange on one connection.
//!
//! The caller performs the sends and the reads; the session says which
//! step is allowed next and what a received packet means.
use vstd::prelude::*;

use crate::error::ClickHouseClientError;
use crate::server::{ExceptionPacket, ServerPacket, ServerPacketCode, ServerPacketModel};

verus! {

/// Where a connection stands in the exchange.
#[derive(Debug, Clone, Copy, PartialEq, Eq, Structural)]
pub enum SessionState {
    /// Nothing sent yet.
    Idle,
    /// The client's handshake is sent; the server's answer is due.
    AwaitingHelloResponse,
    /// The handshake is done and nothing is outstanding.
    Ready,
    /// A ping is sent; the pong is due.
    AwaitingPongResponse,
    /// The transport has been shut down.
    Closed,
}

/// The state after `p` arrives in state `s`: only the answer that is due
/// moves the session on.
pub open spec fn state_after(s: SessionState, p: ServerPacketModel) -> SessionState {
    match (s, p) {
        (SessionState::AwaitingHelloResponse, ServerPacketModel::Hello(_)) => SessionState::Ready,
        (SessionState::AwaitingPongResponse, ServerPacketModel::Pong) => SessionState::Ready,
        _ => s,
    }
}

/// The error that a server exception chain stands for: its outermost
/// record.
pub open spec fn exception_error(first: ExceptionPacket, e: ClickHouseClientError) -> bool {
    e matches ClickHouseClientError::ServerException { code, name, message, stack_trace } && code
        == first.code && name@ == first.name@ && message@ == first.message@ && stack_trace@
        == first.stack_trace@
}

/// One connection's place in the exchange.
pub struct Session {
    state: SessionState,
}

impl Session {
    /// A connection on which nothing has been sent.
    pub fn new() -> (r: Session)
        ensures
            r.spec_state() == SessionState::Idle,
    {
        Session { state: SessionState::Idle }
    }

    /// Where the connection stands.
    pub closed spec fn spec_state(&self) -> SessionState {
        self.state
    }

    /// Where the connection stands.
    pub fn state(&self) -> (r: SessionState)
        ensures
            r == self.spec_state(),
    {
        self.state
    }

    /// Records that the client's handshake was sent.
    pub fn hello_sent(&mut self)
        requires
            old(self).spec_state() == SessionState::Idle,
        ensures
            final(self).spec_state() == SessionState::AwaitingHelloResponse,
    {
        self.state = SessionState::AwaitingHelloResponse;
    }

    /// Records that a ping was sent.
    pub fn ping_sent(&mut self)
        requires
            old(self).spec_state() == SessionState::Ready,
        ensures
            final(self).spec_state() == SessionState::AwaitingPongResponse,
    {
        self.state = SessionState::AwaitingPongResponse;
    }

    /// Records that the transport was shut down.
    pub fn close(&mut self)
        ensures
            final(self).spec_state() == SessionState::Closed,
    {
        self.state = SessionState::Closed;
    }

    /// Takes the packet that answered the outstanding request. The due
    /// answer succeeds and makes the session ready; an exception chain
    /// fails with its outermost record; any other packet fails as
    /// unexpected. Only the due answer changes the state.
    pub fn on_packet(&mut self, p: &ServerPacket) -> (r: Result<(), ClickHouseClientError>)
        requires
            old(self).spec_state() == SessionState::AwaitingHelloResponse || old(self).spec_state()
                == SessionState::AwaitingPongResponse,
            p matches ServerPacket::Exception(list) ==> list@.len() > 0,
        ensures
            final(self).spec_state() == state_after(old(self).spec_state(), p@),
            r is Ok <==> final(self).spec_state() == SessionState::Ready,
            p matches ServerPacket::Exception(list) ==> (r matches Err(e) && exception_error(list@[0], e)),
            p matches ServerPacket::Hello(_) ==> (old(self).spec_state() == SessionState::AwaitingPongResponse ==> r == Err::<(), ClickHouseClientError>(ClickHouseClientError::UnexpectedPacket(ServerPacketCode::Hello.spec_code()))),
            p matches ServerPacket::Pong(_) ==> (old(self).spec_state() == SessionState::AwaitingHelloResponse ==> r == Err::<(), ClickHouseClientError>(ClickHouseClientError::UnexpectedPacket(ServerPacketCode::Pong.spec_code()))),
    {
        match p {
            ServerPacket::Hello(_) => {
                if self.state == SessionState::AwaitingHelloResponse {
                    self.state = SessionState::Ready;
                    Ok(())
                } else {
                    Err(ClickHouseClientError::UnexpectedPacket(ServerPacketCode::Hello.code()))
                }
            },
            ServerPacket::Pong(_) => {
                if self.state == SessionState::AwaitingPongResponse {
                    self.state = SessionState::Ready;
                    Ok(())
                } else {
                    Err(ClickHouseClientError::UnexpectedPacket(ServerPacketCode::Pong.code()))
                }
            },
            ServerPacket::Exception(list) => {
                let first = &list[0];
                Err(
                    ClickHouseClientError::ServerException {
                        code: first.code,
                        name: first.name.clone(),
                        message: first.message.clone(),
                        stack_trace: first.stack_trace.clone(),
                    },
                )
            },
        }
    }
}

} // verus!
