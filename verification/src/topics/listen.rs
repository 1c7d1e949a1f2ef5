//! Where the bot waits for Trello's requests.

use vstd::prelude::*;
use vstd::string::*;

use crate::text::{concat_four, decimal, decimal_of, opt_text};

verus! {

/// Host and port with a colon between; they are `127.0.0.1` and 3000 where the
/// config does not say.
pub open spec fn address(host: Option<Seq<char>>, port: Option<u16>) -> Seq<char> {
    let host = match host {
        Some(h) => h,
        None => "127.0.0.1"@,
    };
    let port: nat = match port {
        Some(p) => p as nat,
        None => 3000,
    };
    host + ":"@ + decimal(port)
}

/// What the config says of host and port is taken as it is, and each has its default
/// where the config does not say.
pub proof fn law_address(host: Seq<char>, port: u16)
    ensures
        address(Some(host), Some(port)) == host + ":"@ + decimal(port as nat),
        address(None, Some(port)) == "127.0.0.1:"@ + decimal(port as nat),
        address(Some(host), None) == host + ":3000"@,
        address(None, None) == "127.0.0.1:3000"@,
{
    reveal_strlit(":");
    reveal_strlit(":3000");
    reveal_strlit("127.0.0.1");
    reveal_strlit("127.0.0.1:");
    reveal_strlit("127.0.0.1:3000");
    reveal_with_fuel(decimal, 4);
    assert(decimal(3000) =~= seq!['3', '0', '0', '0']);
    assert("127.0.0.1:"@ =~= "127.0.0.1"@ + ":"@);
    assert(":3000"@ =~= ":"@ + decimal(3000));
    assert(address(Some(host), None) =~= host + ":3000"@);
    assert(address(None, None) =~= "127.0.0.1:3000"@);
}

/// The address to listen on.
pub fn listen_address(host: &Option<String>, port: Option<u16>) -> (r: String)
    ensures
        r@ == address(opt_text(*host), port),
{
    let port: u16 = match port {
        Some(p) => p,
        None => 3000,
    };
    let mut r = match host {
        Some(h) => h.clone(),
        None => "127.0.0.1".to_owned(),
    };
    r.append(":");
    r.append(decimal_of(port as u64).as_str());
    r
}

/// The error for an address that is none.
pub fn address_error(address: &str, cause: &str) -> (r: String)
    ensures
        r@ == "Invalid host/port '"@ + address@ + "': "@ + cause@,
{
    concat_four("Invalid host/port '", address, "': ", cause)
}

} // verus!
