//! An IPv4 socket address as plain numbers.

use vstd::prelude::*;
use vstd::string::*;
use crate::text::{decimal, decimal_string};

verus! {

/// An IPv4 address and a port.
#[derive(Clone, Copy, Debug, PartialEq, Eq, Structural)]
pub struct SocketAddress {
    pub a: u8,
    pub b: u8,
    pub c: u8,
    pub d: u8,
    pub port: u16,
}

/// Four numbers in dotted decimal.
pub open spec fn dotted(a: u8, b: u8, c: u8, d: u8) -> Seq<char> {
    decimal(a as nat) + "."@ + decimal(b as nat) + "."@ + decimal(c as nat) + "."@ + decimal(
        d as nat,
    )
}

impl SocketAddress {
    /// The address `a.b.c.d:port`.
    pub fn new(a: u8, b: u8, c: u8, d: u8, port: u16) -> (s: SocketAddress)
        ensures
            s == (SocketAddress { a, b, c, d, port }),
    {
        SocketAddress { a, b, c, d, port }
    }

    /// The host part in dotted decimal.
    pub fn ip_string(&self) -> (s: String)
        ensures
            s@ == dotted(self.a, self.b, self.c, self.d),
    {
        let mut s: String = decimal_string(self.a as usize);
        let b: String = decimal_string(self.b as usize);
        let c: String = decimal_string(self.c as usize);
        let d: String = decimal_string(self.d as usize);
        s.append(".");
        s.append(b.as_str());
        s.append(".");
        s.append(c.as_str());
        s.append(".");
        s.append(d.as_str());
        assert(s@ =~= dotted(self.a, self.b, self.c, self.d));
        s
    }
}

} // verus!
