//! Reading the system's TCP listener table: which process listens on a port.
use vstd::prelude::*;

verus! {

/// `MIB_TCP_STATE_LISTEN`.
pub const TCP_STATE_LISTEN: u32 = 2;

/// One row of the IPv4 listener table: its state, its local port as stored
/// (network byte order in the low 16 bits, read on a little-endian machine),
/// and its owner.
#[derive(Debug, Clone, Copy, PartialEq, Eq, Structural)]
pub struct TcpRow {
    pub state: u32,
    pub local_port: u32,
    pub owner_pid: u32,
}

/// A port as the table stores it: its two bytes swapped.
pub open spec fn stored_port(port: u16) -> u32 {
    ((port as int % 256) * 256 + port as int / 256) as u32
}

pub fn stored_port_of(port: u16) -> (r: u32)
    ensures
        r == stored_port(port),
{
    ((port % 256) as u32) * 256 + (port / 256) as u32
}

/// Index of the first listening row on the stored port `p`, from `i`.
pub open spec fn first_listener(rows: Seq<TcpRow>, p: u32, i: int) -> Option<int>
    decreases rows.len() - i,
{
    if i < 0 || i >= rows.len() {
        None
    } else if rows[i].state == TCP_STATE_LISTEN && rows[i].local_port == p {
        Some(i)
    } else {
        first_listener(rows, p, i + 1)
    }
}

/// The process listening on `port`: the owner of the first listening row for it.
pub fn listening_owner(rows: &[TcpRow], port: u16) -> (r: Option<u32>)
    ensures
        match first_listener(rows@, stored_port(port), 0) {
            Some(i) => r == Some(rows@[i].owner_pid),
            None => r is None,
        },
{
    let p = stored_port_of(port);
    let mut i: usize = 0;
    while i < rows.len()
        invariant
            i <= rows.len(),
            p == stored_port(port),
            first_listener(rows@, p, 0) == first_listener(rows@, p, i as int),
        decreases rows.len() - i,
    {
        let row = rows[i];
        if row.state == TCP_STATE_LISTEN && row.local_port == p {
            return Some(row.owner_pid);
        }
        i = i + 1;
    }
    None
}

} // verus!
