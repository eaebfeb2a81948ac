//! The messages that the launcher and the server exchange about the transport.
use vstd::prelude::*;

verus! {

pub type Id = [u8; 16];

/// An internet address and port.
#[derive(Clone, Copy, Debug, PartialEq, Eq, Structural)]
pub struct Address {
    pub v6: bool,
    /// The address as a number, its first byte the most significant one.
    pub ip: u128,
    pub port: u16,
    pub flow: u32,
    pub scope: u32,
}

impl Address {
    /// The address stays on this machine: `127.0.0.0/8` or `::1`.
    pub open spec fn is_loopback(self) -> bool {
        if self.v6 {
            self.ip == 1
        } else {
            0x7f00_0000 <= self.ip <= 0x7fff_ffff
        }
    }

    pub fn loopback(&self) -> (r: bool)
        ensures
            r == self.is_loopback(),
    {
        if self.v6 {
            self.ip == 1
        } else {
            0x7f00_0000 <= self.ip && self.ip <= 0x7fff_ffff
        }
    }
}

pub enum ClientMessage {
    Register { proxy_port: u16, host_port: u16 },
    Ready { id: Id, proxy_port: u16 },
    UdpReady { challenge: Id },
    Ping,
}

pub enum ServerMessage {
    Welcome { id: Id, key: [u8; 32], resume: String, udp: Option<String> },
    Pair {
        id: Id,
        key: [u8; 32],
        host: bool,
        host_port: u16,
        allocation: String,
        candidate: Option<Address>,
    },
    Candidate { id: Id, address: Address },
    Close { id: Id },
    Pong,
}

} // verus!
