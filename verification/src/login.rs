use vstd::prelude::*;
use vstd::string::StringExecFns;
use crate::bundle::LoginInfo;
use crate::error::Error;
use crate::identity::{user_id_ok, UserIdent};
use crate::strutil::{chars_to_string, str_eq, str_to_chars};

verus! {

/// The two login strategies a server can demand.
pub enum LoginRoute {
    Sso,
    Password,
}

/// The compiled-in allow-list of servers that accept only single sign-on,
/// never a password login.
pub open spec fn is_sso_host(s: Seq<char>) -> bool {
    s == "mozilla.org"@
}

/// Which login strategy to use against `server_name`: single sign-on
/// exactly for the servers on the allow-list, a password prompt for every
/// other server.  Membership is decided by name alone, never by probing.
pub fn route_for_server(server_name: &str) -> (r: LoginRoute)
    ensures
        r is Sso <==> is_sso_host(server_name@),
{
    if str_eq(server_name, "mozilla.org") {
        LoginRoute::Sso
    } else {
        LoginRoute::Password
    }
}

/// A session as it is injected into a restored client: the stored
/// identifiers and access token, and never a refresh token.
pub struct RestoredSession {
    pub user_id: String,
    pub device_id: String,
    pub access_token: String,
    pub refresh_token: Option<String>,
}

/// The session to inject for a stored credential bundle, without any
/// network round trip.
///
/// Succeeds exactly when the stored user identifier still parses under the
/// protocol grammar; the rejection is an `IdentityError`.  The session
/// carries the bundle's fields verbatim and no refresh token, whose absence
/// is an invariant of the bundle format.
pub fn restore_session(b: &LoginInfo) -> (r: Result<RestoredSession, Error>)
    ensures
        r is Ok <==> user_id_ok(b.user_id@),
        r matches Ok(s) ==> s.user_id@ == b.user_id@ && s.device_id@ == b.device_id@
            && s.access_token@ == b.access_token@ && s.refresh_token is None,
        r matches Err(e) ==> e is IdentityError,
{
    match UserIdent::parse(b.user_id.as_str()) {
        Ok(_) => Ok(
            RestoredSession {
                user_id: b.user_id.clone(),
                device_id: b.device_id.clone(),
                access_token: b.access_token.clone(),
                refresh_token: None,
            },
        ),
        Err(e) => Err(e),
    }
}

/// The fixed local redirect target presented during single sign-on.
pub fn sso_redirect_url() -> (r: &'static str)
    ensures
        r@ == "http://localhost:8088/login"@,
{
    "http://localhost:8088/login"
}

/// The display name a fresh login registers for its device.
pub fn initial_device_display_name() -> (r: &'static str)
    ensures
        r@ == "mscript"@,
{
    "mscript"
}

/// The line shown to the user with the single sign-on URL to visit.
pub fn sso_visit_message(url: &str) -> (r: String)
    ensures
        r@ == "Visit "@ + url@ + " to login."@,
{
    let mut s = String::from_str("Visit ");
    s.append(url);
    s.append(" to login.");
    s
}

/// The title of the secure passphrase prompt.
pub fn password_prompt_title() -> (r: &'static str)
    ensures
        r@ == "Input Password"@,
{
    "Input Password"
}

/// The description of the secure passphrase prompt for an account.
pub fn password_prompt_description(account: &str) -> (r: String)
    ensures
        r@ == "Enter password for account: "@ + account@,
{
    let mut s = String::from_str("Enter password for account: ");
    s.append(account);
    s
}

/// The message shown when the secure prompt is given an empty passphrase.
pub fn password_required_message() -> (r: &'static str)
    ensures
        r@ == "password can't be empty"@,
{
    "password can't be empty"
}

/// The Unicode White_Space set: the characters `str::trim_end` strips.
/// The property is a short, closed enumeration, written out here so the
/// trim below is verified against it rather than taken on trust.
pub open spec fn is_line_ws(c: char) -> bool {
    let n = c as u32;
    ||| (0x09 <= n && n <= 0x0d)  // tab, line feed, vertical tab, form feed, carriage return
    ||| n == 0x20  // space
    ||| n == 0x85  // next line
    ||| n == 0xa0  // no-break space
    ||| n == 0x1680  // ogham space mark
    ||| (0x2000 <= n && n <= 0x200a)  // en quad .. hair space
    ||| n == 0x2028  // line separator
    ||| n == 0x2029  // paragraph separator
    ||| n == 0x202f  // narrow no-break space
    ||| n == 0x205f  // medium mathematical space
    ||| n == 0x3000  // ideographic space
}

/// `s` with every trailing whitespace character removed.
pub open spec fn spec_trim_end(s: Seq<char>) -> Seq<char>
    decreases s.len(),
{
    if s.len() > 0 && is_line_ws(s[s.len() - 1]) {
        spec_trim_end(s.drop_last())
    } else {
        s
    }
}

fn line_ws(c: char) -> (r: bool)
    ensures
        r == is_line_ws(c),
{
    let n = c as u32;
    (0x09 <= n && n <= 0x0d) || n == 0x20 || n == 0x85 || n == 0xa0 || n == 0x1680 || (0x2000 <= n
        && n <= 0x200a) || n == 0x2028 || n == 0x2029 || n == 0x202f || n == 0x205f || n == 0x3000
}

/// The login token as pasted on one console line: trailing whitespace
/// stripped as `str::trim_end` strips it, nothing else.
pub fn trim_token(line: &str) -> (r: String)
    ensures
        r@ == spec_trim_end(line@),
{
    let v = str_to_chars(line);
    let mut e: usize = v.len();
    proof {
        assert(v@.subrange(0, e as int) =~= line@);
    }
    while e > 0 && line_ws(v[e - 1])
        invariant
            e <= v@.len(),
            v@ == line@,
            spec_trim_end(line@) == spec_trim_end(v@.subrange(0, e as int)),
        decreases e,
    {
        proof {
            assert(v@.subrange(0, e as int).drop_last() =~= v@.subrange(0, e as int - 1));
        }
        e = e - 1;
    }
    let mut out: Vec<char> = Vec::new();
    let mut i: usize = 0;
    while i < e
        invariant
            i <= e <= v@.len(),
            v@ == line@,
            out@ == v@.subrange(0, i as int),
        decreases e - i,
    {
        out.push(v[i]);
        i = i + 1;
        proof {
            assert(out@ =~= v@.subrange(0, i as int));
        }
    }
    proof {
        assert(out@ =~= v@.subrange(0, e as int));
    }
    chars_to_string(&out)
}

/// One console event while asking for the user identifier: a line was
/// read, or the input stream failed fatally.
pub enum UserEntryEvent {
    Line(String),
    StreamFailed(String),
}

/// What the identifier-entry loop does with one event.
pub enum UserEntryOutcome {
    /// A valid identifier: the loop ends with it.
    Accept(UserIdent),
    /// The line does not parse: report the error and prompt again.
    RetryInvalid(Error),
    /// The stream failed: the loop ends with an `IoError`.
    Abort(Error),
}

/// The identifier-entry loop, one event at a time: a line that parses
/// under the protocol grammar is accepted and ends the loop; one that does
/// not is reported and re-prompted, indefinitely; a fatal input-stream
/// failure ends the loop with an `IoError` carrying the stream's message.
pub fn user_entry_step(event: UserEntryEvent) -> (r: UserEntryOutcome)
    ensures
        (match event {
            UserEntryEvent::Line(l) => {
                &&& (r matches UserEntryOutcome::Accept(u) ==> user_id_ok(l@) && l@ == seq!['@']
                    + u.localpart@ + seq![':'] + u.server_name@)
                &&& (user_id_ok(l@) ==> r is Accept)
                &&& (r matches UserEntryOutcome::RetryInvalid(e) ==> !user_id_ok(l@)
                    && e is IdentityError)
                &&& !(r is Abort)
            },
            UserEntryEvent::StreamFailed(m) => r matches UserEntryOutcome::Abort(e)
                && e is IoError && e.spec_message() == m@,
        }),
{
    match event {
        UserEntryEvent::Line(l) => match UserIdent::parse(l.as_str()) {
            Ok(u) => UserEntryOutcome::Accept(u),
            Err(e) => UserEntryOutcome::RetryInvalid(e),
        },
        UserEntryEvent::StreamFailed(m) => UserEntryOutcome::Abort(Error::IoError(m)),
    }
}

/// The backends a secret can be asked from, in fallback order.
pub enum SecretBackend {
    Secure,
    Plain,
}

/// Capability with fallback: the secure passphrase backend whenever it is
/// available at all, the echoing line editor only when it is categorically
/// absent.  A secure backend that is present but then fails or is cancelled
/// does not fall back: the failure is reported outright.
pub fn choose_secret_backend(secure_available: bool) -> (r: SecretBackend)
    ensures
        r is Secure <==> secure_available,
{
    if secure_available {
        SecretBackend::Secure
    } else {
        SecretBackend::Plain
    }
}

/// The outcome of the prompt chain: the secret the chosen backend returned,
/// or a `CredentialError` when it produced none.
pub fn secret_outcome(obtained: Option<String>) -> (r: Result<String, Error>)
    ensures
        (match obtained {
            Some(s) => r matches Ok(x) && x@ == s@,
            None => r matches Err(e) && e is CredentialError,
        }),
{
    match obtained {
        Some(s) => Ok(s),
        None => Err(
            Error::CredentialError(String::from_str("no secret obtained from any prompt backend")),
        ),
    }
}

} // verus!
