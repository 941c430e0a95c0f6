//! Checking the address the REview server is to listen on.

use vstd::prelude::*;

verus! {

#[verifier::external_type_specification]
#[verifier::external_body]
pub struct ExSocketAddr(core::net::SocketAddr);

/// Whether `SocketAddr::from_str` (of `core::net`) accepts a text as an IP
/// address and port.
pub uninterp spec fn socket_addr_accepted(s: Seq<char>) -> bool;

/// Calls `SocketAddr::from_str` (of `core::net`); whether it accepts the
/// text is named `socket_addr_accepted` of the text. What address it reads
/// is left unsaid: the address is a value of the outside type.
#[verifier::external_body]
fn parse_socket_addr(s: &str) -> (r: Option<core::net::SocketAddr>)
    ensures
        r is Some <==> socket_addr_accepted(s@),
{
    s.parse::<core::net::SocketAddr>().ok()
}

/// The message for a listening address that is no IP address and port.
pub open spec fn invalid_address_message(addr: Seq<char>) -> Seq<char> {
    "invalid IP address/port for review: "@ + addr
}

/// The address the server listens on, read from its setting; a text that
/// is no IP address and port gives the message that says so.
pub fn review_address(addr: &str) -> (r: Result<core::net::SocketAddr, String>)
    ensures
        r is Ok <==> socket_addr_accepted(addr@),
        r matches Err(msg) ==> msg@ == invalid_address_message(addr@),
{
    match parse_socket_addr(addr) {
        Some(a) => Ok(a),
        None => {
            let mut msg = String::from_str("invalid IP address/port for review: ");
            msg.append(addr);
            Err(msg)
        },
    }
}

} // verus!
