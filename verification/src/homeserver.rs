//! Where the account of a bot lives.

use vstd::prelude::*;
use vstd::string::*;

use crate::outside::{after_colon, parsed_user_id, server_name, user_id};

verus! {

/// The base URL of a server.
pub open spec fn server_url(server: Seq<char>) -> Seq<char> {
    "https://"@ + server
}

/// The error for an identifier that is none; `what` names what it should be.
pub open spec fn account_error(what: Seq<char>, id: Seq<char>, cause: Seq<char>) -> Seq<char> {
    "Invalid "@ + what + " '"@ + id + "': "@ + cause
}

/// The homeserver of an account is reached over HTTPS, at what follows the first
/// colon of the account's identifier.
pub proof fn law_server_of_account(name: Seq<char>, server: Seq<char>)
    requires
        !name.contains(':'),
    ensures
        server_url(after_colon(name + seq![':'] + server)) == "https://"@ + server,
    decreases name.len(),
{
    let id = name + seq![':'] + server;
    if name.len() == 0 {
        assert(id.drop_first() =~= server);
    } else {
        assert(name.contains(name[0]));
        let rest = name.drop_first();
        assert forall|i: int| 0 <= i < rest.len() implies rest[i] != ':' by {
            assert(name.contains(name[i + 1]));
        }
        law_server_of_account(rest, server);
        assert(id.drop_first() =~= rest + seq![':'] + server);
    }
}

/// An identifier that is none is named in the error, with what it should be and why
/// it is not.
pub proof fn law_account_error(what: Seq<char>, id: Seq<char>, cause: Seq<char>)
    ensures
        account_error(what, id, cause) == "Invalid "@ + what + " '"@ + id + "': "@ + cause,
{
}

/// What the homeserver's URL is, or the error, given what `id` is as a user ID.
pub fn url_of_account(what: &str, id: &str, server: Result<String, String>) -> (r: Result<
    String,
    String,
>)
    ensures
        match server {
            Ok(name) => r matches Ok(url) && url@ == server_url(name@),
            Err(e) => r matches Err(text) && text@ == account_error(what@, id@, e@),
        },
{
    match server {
        Ok(name) => {
            let mut r = "https://".to_owned();
            r.append(name.as_str());
            Ok(r)
        },
        Err(e) => {
            let mut r = "Invalid ".to_owned();
            r.append(what);
            r.append(" '");
            r.append(id);
            r.append("': ");
            r.append(e.as_str());
            Err(r)
        },
    }
}

/// The base URL of the homeserver of the account `id`, which is the server that the
/// identifier names, or the error if `id` is no user ID.
pub fn homeserver_url(what: &str, id: &str) -> (r: Result<String, String>)
    ensures
        match parsed_user_id(id@) {
            Ok(_) => r matches Ok(url) && url@ == server_url(after_colon(id@)),
            Err(e) => r matches Err(text) && text@ == account_error(what@, id@, e),
        },
{
    match user_id(id) {
        Ok(_) => url_of_account(what, id, Ok(server_name(id))),
        Err(e) => url_of_account(what, id, Err(e)),
    }
}

} // verus!
