//! The keep-alive server: where it listens, and what it says to every request.

use vstd::prelude::*;

use crate::bets::text_of;
use crate::text::{decimal, show_u64};

verus! {

/// The address to listen on: every interface, at the given port or at 8080.
pub open spec fn address_of(port: Option<Seq<char>>) -> Seq<char> {
    "0.0.0.0:"@ + match port {
        Some(p) => p,
        None => "8080"@,
    }
}

/// The address to listen on.
pub fn listen_address(port: Option<String>) -> (address: String)
    ensures
        address@ == address_of(text_of(port)),
{
    let mut address = "0.0.0.0:".to_owned();
    match port {
        Some(p) => address.append(p.as_str()),
        None => address.append("8080"),
    }
    address
}

/// A successful answer with a body of plain ASCII, whose length is stated.
pub open spec fn ok_response(body: Seq<char>) -> Seq<char> {
    "HTTP/1.1 200 OK\r\nContent-Length: "@ + decimal(body.len() as int)
        + "\r\nConnection: close\r\n\r\n"@ + body
}

/// The answer to every request.
pub fn keepalive_response() -> (response: String)
    ensures
        response@ == ok_response("OK"@),
{
    let mut response = "HTTP/1.1 200 OK\r\nContent-Length: ".to_owned();
    proof {
        reveal_strlit("OK");
    }
    let length = show_u64(2);
    response.append(length.as_str());
    response.append("\r\nConnection: close\r\n\r\n");
    response.append("OK");
    response
}

/// The server listens on every interface, at the port that was given or at 8080.
pub proof fn address_ends_with_the_port(port: Seq<char>)
    ensures
        ({
            let address = address_of(Some(port));
            &&& address.len() == 8 + port.len()
            &&& address.take(8) == "0.0.0.0:"@
            &&& address.skip(8) == port
            &&& address_of(None) == address_of(Some("8080"@))
        }),
{
    reveal_strlit("0.0.0.0:");
    assert(address_of(Some(port)).take(8) =~= "0.0.0.0:"@);
    assert(address_of(Some(port)).skip(8) =~= port);
}

} // verus!
