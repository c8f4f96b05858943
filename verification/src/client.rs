//! The device's side of a session: handshake once, report on every tick,
//! and handshake again from time to time to see that the server still knows
//! the device.

use vstd::prelude::*;
use vstd::slice::slice_to_vec;
use crate::metadata::{ack_token, is_ack};

verus! {

/// How many measurements a device sends between two handshakes unless it is
/// told otherwise.
pub const DEFAULT_PROBE_INTERVAL: u32 = 12;

/// Where a device stands with its server.
#[derive(Debug, PartialEq, Eq, Structural, Clone, Copy)]
pub enum ConnectionState {
    /// No handshake has been acknowledged yet.
    Unconfigured,
    /// The last handshake was acknowledged, and `ticks` measurements have
    /// been attempted since.
    Configured { ticks: u32 },
}

/// What the device has to do next on the network.
#[derive(Debug, PartialEq, Eq, Structural, Clone, Copy)]
pub enum ClientAction {
    /// Send the handshake frame on a fresh control connection and read the
    /// reply.
    Handshake,
    /// Send one measurement frame, then wait one period.
    SendMeasurement,
}

/// The handshake did not end in an acknowledgment. There is no way on from
/// here but to start the device anew.
#[derive(Debug, PartialEq)]
pub enum TransportFatalError {
    /// The server answered with something other than the acknowledgment
    /// token: these bytes.
    UnexpectedReply(Vec<u8>),
}

/// A device's session with its server.
pub struct Connection {
    config: Vec<u8>,
    probe_interval: u32,
    state: ConnectionState,
}

/// The mathematical content of a `Connection`.
pub struct ConnectionView {
    /// The handshake frame that the device sends.
    pub config: Seq<u8>,
    /// How many measurements are sent between two handshakes.
    pub probe_interval: u32,
    pub state: ConnectionState,
}

impl View for Connection {
    type V = ConnectionView;

    closed spec fn view(&self) -> ConnectionView {
        ConnectionView {
            config: self.config@,
            probe_interval: self.probe_interval,
            state: self.state,
        }
    }
}

impl ConnectionView {
    /// What a device in this state has to do next: the handshake while it is
    /// unconfigured and again once `probe_interval` measurements have been
    /// attempted, a measurement otherwise.
    pub open spec fn next_action(self) -> ClientAction {
        match self.state {
            ConnectionState::Unconfigured => ClientAction::Handshake,
            ConnectionState::Configured { ticks } => if ticks >= self.probe_interval {
                ClientAction::Handshake
            } else {
                ClientAction::SendMeasurement
            },
        }
    }

    /// The session after a handshake that the server acknowledged.
    pub open spec fn acknowledged(self) -> ConnectionView {
        ConnectionView { state: ConnectionState::Configured { ticks: 0 }, ..self }
    }

    /// The session after one more measurement was attempted. Whether the
    /// frame left the device does not matter. The count stops at
    /// `probe_interval`, where the handshake is due; an unconfigured device
    /// stays unconfigured.
    pub open spec fn ticked(self) -> ConnectionView {
        match self.state {
            ConnectionState::Unconfigured => self,
            ConnectionState::Configured { ticks } => if ticks < self.probe_interval {
                ConnectionView {
                    state: ConnectionState::Configured { ticks: (ticks + 1) as u32 },
                    ..self
                }
            } else {
                self
            },
        }
    }

    /// The session after `count` more measurements were attempted.
    pub open spec fn ticked_times(self, count: nat) -> ConnectionView
        decreases count,
    {
        if count == 0 {
            self
        } else {
            self.ticked().ticked_times((count - 1) as nat)
        }
    }
}

/// Counting goes one by one up to the interval: a configured session that
/// has room for `count` more measurements has counted just these after them.
proof fn lemma_ticks_add_up(session: ConnectionView, ticks: u32, count: nat)
    requires
        session.state == (ConnectionState::Configured { ticks }),
        ticks + count <= session.probe_interval,
    ensures
        session.ticked_times(count) == (ConnectionView {
            state: ConnectionState::Configured { ticks: (ticks + count) as u32 },
            ..session
        }),
    decreases count,
{
    if count > 0 {
        lemma_ticks_add_up(session.ticked(), (ticks + 1) as u32, (count - 1) as nat);
    }
}

/// The cadence of a session: after an acknowledged handshake the device
/// sends `probe_interval` measurements, and after the last of them, not
/// before, the handshake is due again.
pub proof fn lemma_probe_cadence(session: ConnectionView, count: nat)
    requires
        count <= session.probe_interval,
    ensures
        session.acknowledged().ticked_times(count).state == (ConnectionState::Configured {
            ticks: count as u32,
        }),
        session.acknowledged().ticked_times(count).next_action() == if count
            < session.probe_interval {
            ClientAction::SendMeasurement
        } else {
            ClientAction::Handshake
        },
{
    lemma_ticks_add_up(session.acknowledged(), 0, count);
}

impl Connection {
    /// A session that has not been configured yet. `config` is the encoded
    /// handshake frame of the device.
    pub fn from(config: Vec<u8>, probe_interval: u32) -> (connection: Self)
        ensures
            connection@ == (ConnectionView {
                config: config@,
                probe_interval,
                state: ConnectionState::Unconfigured,
            }),
    {
        Connection { config, probe_interval, state: ConnectionState::Unconfigured }
    }

    /// The handshake frame of the device.
    pub fn config(&self) -> (frame: &Vec<u8>)
        ensures
            frame@ == self@.config,
    {
        &self.config
    }

    /// Where the device stands.
    pub fn state(&self) -> (state: ConnectionState)
        ensures
            state == self@.state,
    {
        self.state
    }

    /// What the device has to do next.
    pub fn next_action(&self) -> (action: ClientAction)
        ensures
            action == self@.next_action(),
    {
        match self.state {
            ConnectionState::Unconfigured => ClientAction::Handshake,
            ConnectionState::Configured { ticks } => if ticks >= self.probe_interval {
                ClientAction::Handshake
            } else {
                ClientAction::SendMeasurement
            },
        }
    }

    /// Takes the server's `reply` to a handshake.
    ///
    /// The acknowledgment token configures the session and starts a new
    /// count of measurements. Any other reply is fatal.
    pub fn handshake_reply(self, reply: &[u8]) -> (outcome: Result<Connection, TransportFatalError>)
        ensures
            match outcome {
                Ok(connection) => reply@ == ack_token() && connection@ == self@.acknowledged(),
                Err(TransportFatalError::UnexpectedReply(bytes)) => reply@ != ack_token()
                    && bytes@ == reply@,
            },
    {
        if is_ack(reply) {
            Ok(
                Connection {
                    config: self.config,
                    probe_interval: self.probe_interval,
                    state: ConnectionState::Configured { ticks: 0 },
                },
            )
        } else {
            Err(TransportFatalError::UnexpectedReply(slice_to_vec(reply)))
        }
    }

    /// Counts one attempt to send a measurement.
    pub fn measurement_attempted(self) -> (connection: Connection)
        ensures
            connection@ == self@.ticked(),
    {
        match self.state {
            ConnectionState::Unconfigured => self,
            ConnectionState::Configured { ticks } => if ticks < self.probe_interval {
                Connection {
                    config: self.config,
                    probe_interval: self.probe_interval,
                    state: ConnectionState::Configured { ticks: ticks + 1 },
                }
            } else {
                self
            },
        }
    }
}

} // verus!
