//! The decisions of logging in and out of a server.
//!
//! Device login asks the server for a device code, then polls until the
//! user has authorized it in the browser. The requests, the sleeping and the
//! account registry stay with the caller; [`device_start`] reads the first
//! reply and [`poll_step`] decides, from each poll reply, whether login
//! succeeded, failed, or goes on (and after how long).

use vstd::prelude::*;

use crate::error::{Error, Result};
use crate::text::{chars_of, push_str, same_text, string_of};

verus! {

/// The server's answer to a device-code request, as far as login reads it.
#[derive(Debug, Clone)]
pub struct DeviceReply {
    pub verification_uri: Option<String>,
    pub user_code: Option<String>,
    pub device_code: Option<String>,
    pub interval: Option<u64>,
    pub expires_in: Option<u64>,
}

/// What device login starts from: where the user authorizes, the code they
/// enter, the code polled with, and the polling interval and time limit in
/// seconds.
#[derive(Debug, Clone)]
pub struct DeviceStart {
    pub verification_uri: String,
    pub user_code: String,
    pub device_code: String,
    pub interval: u64,
    pub expires_in: u64,
}

/// The polling interval used when the server names none.
pub const DEFAULT_POLL_INTERVAL: u64 = 5;

/// The time limit used when the server names none: five minutes.
pub const DEFAULT_EXPIRES_IN: u64 = 300;

/// The seconds added to the polling interval when the server asks to slow
/// down.
pub const SLOW_DOWN_STEP: u64 = 5;

/// An error of the login flow with a fixed message.
pub open spec fn operation_error_is(r: Result<DeviceStart>, msg: Seq<char>) -> bool {
    r matches Err(Error::Operation(m)) && m@ == msg
}

/// Read the device-code reply: each of the verification URI, the user code
/// and the device code is required (checked in that order); the interval
/// and the time limit default to 5 and 300 seconds.
pub fn device_start(reply: &DeviceReply) -> (r: Result<DeviceStart>)
    ensures
        reply.verification_uri is None ==> operation_error_is(r, "Missing verification_uri"@),
        reply.verification_uri is Some && reply.user_code is None ==> operation_error_is(
            r,
            "Missing user_code"@,
        ),
        reply.verification_uri is Some && reply.user_code is Some && reply.device_code is None
            ==> operation_error_is(r, "Missing device_code"@),
        reply.verification_uri is Some && reply.user_code is Some && reply.device_code is Some ==> (
        r matches Ok(s) && {
            &&& s.verification_uri@ == reply.verification_uri.unwrap()@
            &&& s.user_code@ == reply.user_code.unwrap()@
            &&& s.device_code@ == reply.device_code.unwrap()@
            &&& s.interval == match reply.interval {
                Some(i) => i,
                None => DEFAULT_POLL_INTERVAL,
            }
            &&& s.expires_in == match reply.expires_in {
                Some(e) => e,
                None => DEFAULT_EXPIRES_IN,
            }
        }),
{
    let uri = match &reply.verification_uri {
        Some(u) => u.clone(),
        None => {
            return Err(Error::Operation(string_of(&chars_of("Missing verification_uri"))));
        },
    };
    let code = match &reply.user_code {
        Some(c) => c.clone(),
        None => {
            return Err(Error::Operation(string_of(&chars_of("Missing user_code"))));
        },
    };
    let device_code = match &reply.device_code {
        Some(d) => d.clone(),
        None => {
            return Err(Error::Operation(string_of(&chars_of("Missing device_code"))));
        },
    };
    let interval = match reply.interval {
        Some(i) => i,
        None => DEFAULT_POLL_INTERVAL,
    };
    let expires_in = match reply.expires_in {
        Some(e) => e,
        None => DEFAULT_EXPIRES_IN,
    };
    Ok(DeviceStart { verification_uri: uri, user_code: code, device_code, interval, expires_in })
}

/// The server's answer to one poll, as far as login reads it.
#[derive(Debug, Clone)]
pub struct PollReply {
    pub token: Option<String>,
    pub username: Option<String>,
    pub email: Option<String>,
    pub error: Option<String>,
}

/// What to do after a poll reply.
#[derive(Debug, Clone)]
pub enum PollOutcome {
    /// The user authorized the device: store this account.
    LoggedIn { token: String, username: String, email: Option<String> },
    /// Not yet: poll again after this many seconds.
    Wait { interval: u64 },
    /// Login failed.
    Failed(Error),
}

/// The username of a new login: the one the user gave, else the one the
/// server reports, else `default`.
pub open spec fn login_username_spec(override_name: Option<Seq<char>>, reported: Option<Seq<char>>) -> Seq<
    char,
> {
    match override_name {
        Some(u) => u,
        None => match reported {
            Some(u) => u,
            None => "default"@,
        },
    }
}

/// The view of an optional text.
pub open spec fn text_opt(o: Option<String>) -> Option<Seq<char>> {
    match o {
        Some(s) => Some(s@),
        None => None,
    }
}

/// The view of an optional borrowed text.
pub open spec fn str_opt(o: Option<&str>) -> Option<Seq<char>> {
    match o {
        Some(s) => Some(s@),
        None => None,
    }
}

/// Decide on one poll reply while polling every `interval` seconds. A token
/// logs in (under the given username, else the reported one, else
/// `default`). Otherwise an error code decides: `authorization_pending`
/// polls again as before, `slow_down` polls again five seconds later
/// (saturating), `expired_token` fails with "Device code expired", and any
/// other code fails naming it. A reply with neither polls again as before.
pub fn poll_step(interval: u64, reply: &PollReply, username_override: Option<&str>) -> (r:
    PollOutcome)
    ensures
        reply.token matches Some(t) ==> (r matches PollOutcome::LoggedIn { token, username, email }
            && token@ == t@ && username@ == login_username_spec(
            str_opt(username_override),
            text_opt(reply.username),
        ) && text_opt(email) == text_opt(reply.email)),
        reply.token is None ==> match reply.error {
            None => r == (PollOutcome::Wait { interval }),
            Some(e) => if e@ == "authorization_pending"@ {
                r == (PollOutcome::Wait { interval })
            } else if e@ == "slow_down"@ {
                r == (PollOutcome::Wait {
                    interval: if interval + SLOW_DOWN_STEP <= u64::MAX {
                        (interval + SLOW_DOWN_STEP) as u64
                    } else {
                        u64::MAX
                    },
                })
            } else if e@ == "expired_token"@ {
                r matches PollOutcome::Failed(Error::Operation(m)) && m@ == "Device code expired"@
            } else {
                r matches PollOutcome::Failed(Error::Operation(m)) && m@ == "Auth error: "@ + e@
            },
        },
{
    match &reply.token {
        Some(t) => {
            let username = match username_override {
                Some(u) => string_of(&chars_of(u)),
                None => match &reply.username {
                    Some(u) => u.clone(),
                    None => string_of(&chars_of("default")),
                },
            };
            let email = match &reply.email {
                Some(e) => Some(e.clone()),
                None => None,
            };
            return PollOutcome::LoggedIn { token: t.clone(), username, email };
        },
        None => {},
    }
    match &reply.error {
        None => PollOutcome::Wait { interval },
        Some(e) => {
            if same_text(e.as_str(), "authorization_pending") {
                PollOutcome::Wait { interval }
            } else if same_text(e.as_str(), "slow_down") {
                PollOutcome::Wait { interval: interval.saturating_add(SLOW_DOWN_STEP) }
            } else if same_text(e.as_str(), "expired_token") {
                PollOutcome::Failed(Error::Operation(string_of(&chars_of("Device code expired"))))
            } else {
                let mut m: Vec<char> = Vec::new();
                push_str(&mut m, "Auth error: ");
                push_str(&mut m, e.as_str());
                PollOutcome::Failed(Error::Operation(string_of(&m)))
            }
        },
    }
}

/// The message of a successful login.
pub open spec fn login_message_spec(server: Seq<char>, username: Seq<char>) -> Seq<char> {
    "Logged in to "@ + server + " as "@ + username
}

/// "Logged in to SERVER as USERNAME".
pub fn login_message(server: &str, username: &str) -> (r: String)
    ensures
        r@ == login_message_spec(server@, username@),
{
    let mut m: Vec<char> = Vec::new();
    push_str(&mut m, "Logged in to ");
    push_str(&mut m, server);
    push_str(&mut m, " as ");
    push_str(&mut m, username);
    string_of(&m)
}

/// Whether some account of `usernames` is `user`.
pub open spec fn has_user(usernames: Seq<String>, user: Seq<char>) -> bool {
    exists|i: int| 0 <= i < usernames.len() && (#[trigger] usernames[i])@ == user
}

/// The outcome of logging out of `server`, whose accounts have `usernames`,
/// optionally only as `user`.
pub open spec fn logout_spec(server: Seq<char>, usernames: Seq<String>, user: Option<Seq<char>>) -> core::result::Result<
    Seq<char>,
    Seq<char>,
> {
    if usernames.len() == 0 {
        Err("Not logged in to "@ + server)
    } else {
        match user {
            Some(u) => if has_user(usernames, u) {
                Ok("Logged out "@ + u + " from "@ + server)
            } else {
                Err("Not logged in to "@ + server + " as "@ + u)
            },
            None => Ok("Logged out from "@ + server),
        }
    }
}

/// Decide a logout from `server`, whose registered accounts have
/// `usernames`: there must be an account, and when `user` is given, one of
/// that name. Gives the message to report; the caller then deletes the
/// account(s).
pub fn logout_message(server: &str, usernames: &[String], user: Option<&str>) -> (r: Result<String>)
    ensures
        match logout_spec(server@, usernames@, str_opt(user)) {
            Ok(m) => r matches Ok(s) && s@ == m,
            Err(m) => r matches Err(Error::Operation(e)) && e@ == m,
        },
{
    let mut m: Vec<char> = Vec::new();
    if usernames.len() == 0 {
        push_str(&mut m, "Not logged in to ");
        push_str(&mut m, server);
        return Err(Error::Operation(string_of(&m)));
    }
    match user {
        Some(u) => {
            let mut i: usize = 0;
            let mut found = false;
            while i < usernames.len()
                invariant
                    i <= usernames@.len(),
                    found == exists|k: int| 0 <= k < i && (#[trigger] usernames@[k])@ == u@,
                decreases usernames.len() - i,
            {
                if same_text(usernames[i].as_str(), u) {
                    found = true;
                }
                i = i + 1;
            }
            if found {
                push_str(&mut m, "Logged out ");
                push_str(&mut m, u);
                push_str(&mut m, " from ");
                push_str(&mut m, server);
                Ok(string_of(&m))
            } else {
                push_str(&mut m, "Not logged in to ");
                push_str(&mut m, server);
                push_str(&mut m, " as ");
                push_str(&mut m, u);
                Err(Error::Operation(string_of(&m)))
            }
        },
        None => {
            push_str(&mut m, "Logged out from ");
            push_str(&mut m, server);
            Ok(string_of(&m))
        },
    }
}

} // verus!
