//! Monitors without a server: how their port is set up and described.
use vstd::prelude::*;

use crate::config::PortConfig;
use crate::text::push_dec;

verus! {

/// The settings of a port that is opened with a baud rate alone.
pub fn standalone_config(baud: u32) -> (r: PortConfig)
    ensures
        r.baudrate == baud,
        (PortConfig { baudrate: 115_200, ..r }).is_default(),
{
    let mut c = PortConfig::default();
    c.baudrate = baud;
    c
}

/// What a window says about its port.
pub fn port_info(baud: u32) -> (r: String)
    ensures
        r@ == crate::text::dec(baud as nat) + " 8N1"@,
{
    let mut s = String::new();
    push_dec(&mut s, baud as u64);
    s.append(" 8N1");
    proof {
        assert(s@ =~= crate::text::dec(baud as nat) + " 8N1"@);
    }
    s
}

} // verus!
