use vstd::prelude::*;
use vstd::string::StringExecFns;
use crate::error::Error;

verus! {

/// A user identifier accepted by the protocol grammar, split into its two
/// components.  The full textual form is `@` + localpart + `:` + server name,
/// and the split is at the first colon, so the localpart never contains one.
pub struct UserIdent {
    pub localpart: String,
    pub server_name: String,
}

/// Whether the protocol's user identifier grammar accepts `s`.
///
/// The grammar belongs to the external protocol library; only the outcome of
/// its validator is named here, never restated.
pub uninterp spec fn user_id_ok(s: Seq<char>) -> bool;

/// Relies on `ruma::UserId::parse` (ruma-identifiers-validation
/// `user_id::validate`): it succeeds exactly when the grammar accepts the
/// string, and then the string is `@` + localpart + `:` + server name with
/// the split at the first colon.
#[verifier::external_body]
fn parse_user_id_raw(s: &str) -> (r: Option<UserIdent>)
    ensures
        r is Some <==> user_id_ok(s@),
        r matches Some(u) ==> s@ == seq!['@'] + u.localpart@ + seq![':'] + u.server_name@,
        r matches Some(u) ==> forall|i: int|
            0 <= i < u.localpart@.len() ==> u.localpart@[i] != ':',
{
    match ruma::UserId::parse(s) {
        Ok(u) => Some(
            UserIdent {
                localpart: u.localpart().to_owned(),
                server_name: u.server_name().as_str().to_owned(),
            },
        ),
        Err(_) => None,
    }
}

impl UserIdent {
    /// Parse a user identifier under the protocol grammar.  Rejection is an
    /// `IdentityError`, as every caller of the grammar reports it.
    pub fn parse(s: &str) -> (r: Result<UserIdent, Error>)
        ensures
            r is Ok <==> user_id_ok(s@),
            r matches Ok(u) ==> s@ == seq!['@'] + u.localpart@ + seq![':'] + u.server_name@,
            r matches Ok(u) ==> forall|i: int|
                0 <= i < u.localpart@.len() ==> u.localpart@[i] != ':',
            r matches Err(e) ==> e is IdentityError,
    {
        match parse_user_id_raw(s) {
            Some(u) => Ok(u),
            None => Err(
                Error::IdentityError(
                    String::from_str("identifier rejected by the user id grammar"),
                ),
            ),
        }
    }
}

} // verus!
