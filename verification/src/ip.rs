//! Where to ask for the address under which this machine is seen.
use vstd::prelude::*;

verus! {

/// The kind of address to ask for.
#[derive(Debug, Clone, Copy, PartialEq, Eq, Structural)]
pub enum Ip {
    /// The address of version 4.
    V4,
    /// The address of version 6.
    V6,
}

/// The address of the service that answers with an address of the kind.
pub open spec fn service_url(ip: Ip) -> Seq<char> {
    match ip {
        Ip::V4 => "https://api.ipify.org/?format=text"@,
        Ip::V6 => "https://api64.ipify.org/?format=text"@,
    }
}

impl Ip {
    /// The address of the service to ask.
    pub fn url(&self) -> (url: &'static str)
        ensures
            url@ == service_url(*self),
    {
        match self {
            Ip::V4 => "https://api.ipify.org/?format=text",
            Ip::V6 => "https://api64.ipify.org/?format=text",
        }
    }
}

} // verus!
