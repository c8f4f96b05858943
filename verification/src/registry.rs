//! The server's memory of which address announced which metadata.

use vstd::prelude::*;
use std::collections::HashMap;
use crate::metadata::{InitializationPacket, InitializationPacketView};

verus! {

/// The network address of a device, without its port.
///
/// Sessions are keyed by address alone, so a device keeps its session when it
/// reconnects from another source port. A version 4 address is its four
/// bytes read as a big-endian number; a version 6 address its sixteen bytes.
#[derive(Debug, PartialEq, Eq, Structural, Clone, Copy, Hash)]
pub enum IpAddress {
    /// A version 4 address.
    V4(u32),
    /// A version 6 address.
    V6(u128),
}

/// The sessions of a server: for each address that completed a handshake, the
/// metadata of its latest one.
///
/// An entry is made by the first handshake of an address, replaced whole by
/// each later one, and never removed. The registry hands out copies only, so
/// a caller that guards it with a lock need hold the lock no longer than one
/// call.
pub struct Registry {
    v4: HashMap<u32, InitializationPacket>,
    v6: HashMap<u128, InitializationPacket>,
}

impl View for Registry {
    type V = Map<IpAddress, InitializationPacketView>;

    closed spec fn view(&self) -> Map<IpAddress, InitializationPacketView> {
        Map::new(
            |address: IpAddress|
                match address {
                    IpAddress::V4(bits) => self.v4@.contains_key(bits),
                    IpAddress::V6(bits) => self.v6@.contains_key(bits),
                },
            |address: IpAddress|
                match address {
                    IpAddress::V4(bits) => self.v4@[bits]@,
                    IpAddress::V6(bits) => self.v6@[bits]@,
                },
        )
    }
}

impl Registry {
    /// A registry without sessions.
    pub fn new() -> (registry: Self)
        ensures
            registry@ == Map::<IpAddress, InitializationPacketView>::empty(),
    {
        Registry { v4: HashMap::new(), v6: HashMap::new() }
    }

    /// Remembers `metadata` as the session of `address`, in place of whatever
    /// was remembered for it before. Other sessions are untouched.
    pub fn register(&mut self, address: IpAddress, metadata: InitializationPacket)
        ensures
            final(self)@ == old(self)@.insert(address, metadata@),
    {
        match address {
            IpAddress::V4(bits) => {
                self.v4.insert(bits, metadata);
            },
            IpAddress::V6(bits) => {
                self.v6.insert(bits, metadata);
            },
        }
    }

    /// A copy of the metadata remembered for `address`, if it has a session.
    pub fn lookup(&self, address: &IpAddress) -> (found: Option<InitializationPacket>)
        ensures
            match found {
                Some(metadata) => self@.contains_key(*address) && metadata@ == self@[*address],
                None => !self@.contains_key(*address),
            },
    {
        let entry = match address {
            IpAddress::V4(bits) => self.v4.get(bits),
            IpAddress::V6(bits) => self.v6.get(bits),
        };
        match entry {
            Some(metadata) => Some(metadata.clone()),
            None => None,
        }
    }
}

/// Of two handshakes from one address only the later one is remembered:
/// the sessions are the same as if the earlier one had never come, and a
/// lookup of the address finds the later metadata.
pub proof fn lemma_later_handshake_wins(
    sessions: Map<IpAddress, InitializationPacketView>,
    address: IpAddress,
    earlier: InitializationPacketView,
    later: InitializationPacketView,
)
    ensures
        sessions.insert(address, earlier).insert(address, later) == sessions.insert(address, later),
        sessions.insert(address, earlier).insert(address, later).contains_key(address),
        sessions.insert(address, earlier).insert(address, later)[address] == later,
{
}

/// A handshake from one address leaves the session of every other address
/// as it was.
pub proof fn lemma_other_sessions_untouched(
    sessions: Map<IpAddress, InitializationPacketView>,
    address: IpAddress,
    metadata: InitializationPacketView,
    other: IpAddress,
)
    requires
        other != address,
    ensures
        sessions.insert(address, metadata).contains_key(other) == sessions.contains_key(other),
        sessions.contains_key(other) ==> sessions.insert(address, metadata)[other]
            == sessions[other],
{
}

} // verus!
