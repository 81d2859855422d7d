//! Two-tier error taxonomy: a message for the invoking user, a message for
//! the operator log, or both at once.

use vstd::prelude::*;
use vstd::string::StringExecFns;

verus! {

/// Result alias used by every session and queue operation.
pub type SunnyResult<T> = Result<T, SunnyError>;

/// An error of the bot's command layer.
///
/// `User` carries text shown directly to the invoking user (invalid input,
/// expected-absent state).  `Log` carries text for the operator log only
/// (internal failures).  `UserAndLog` carries both a user-safe summary and a
/// detailed internal cause.
#[derive(Debug)]
pub enum SunnyError {
    User(String),
    Log(String),
    UserAndLog { user: String, log: String },
}

impl SunnyError {
    /// The text shown to the user, if this error carries any.
    pub open spec fn spec_user_msg(&self) -> Option<Seq<char>> {
        match self {
            SunnyError::User(s) => Some(s@),
            SunnyError::Log(_) => None,
            SunnyError::UserAndLog { user, log } => Some(user@),
        }
    }

    /// The text sent to the operator log, if this error carries any.
    pub open spec fn spec_log_msg(&self) -> Option<Seq<char>> {
        match self {
            SunnyError::User(_) => None,
            SunnyError::Log(s) => Some(s@),
            SunnyError::UserAndLog { user, log } => Some(log@),
        }
    }

    /// True of errors that reach the invoking user.
    pub open spec fn is_user_facing(&self) -> bool {
        !(self is Log)
    }

    pub fn user(s: &str) -> (e: Self)
        ensures
            e is User,
            e.spec_user_msg() == Some(s@),
            e.spec_log_msg() is None,
    {
        SunnyError::User(s.to_owned())
    }

    pub fn log(s: &str) -> (e: Self)
        ensures
            e is Log,
            e.spec_log_msg() == Some(s@),
            e.spec_user_msg() is None,
    {
        SunnyError::Log(s.to_owned())
    }

    pub fn user_and_log(user: &str, log: &str) -> (e: Self)
        ensures
            e is UserAndLog,
            e.spec_user_msg() == Some(user@),
            e.spec_log_msg() == Some(log@),
    {
        SunnyError::UserAndLog { user: user.to_owned(), log: log.to_owned() }
    }

    /// The user-facing text, for the command layer to render as a reply.
    pub fn user_text(&self) -> (r: Option<&String>)
        ensures
            match r {
                Some(s) => self.spec_user_msg() == Some(s@),
                None => self.spec_user_msg() is None,
            },
    {
        match self {
            SunnyError::User(s) => Some(s),
            SunnyError::Log(_) => None,
            SunnyError::UserAndLog { user, log: _ } => Some(user),
        }
    }

    /// The whole error as one line, user part first, the shape the
    /// operator log prints.
    pub fn describe(&self) -> (r: String)
        ensures
            r@ == match self {
                SunnyError::User(s) => "user: "@ + s@,
                SunnyError::Log(s) => "log: "@ + s@,
                SunnyError::UserAndLog { user, log } => "user: "@ + user@ + ", log: "@ + log@,
            },
    {
        match self {
            SunnyError::User(s) => String::from_str("user: ").concat(s.as_str()),
            SunnyError::Log(s) => String::from_str("log: ").concat(s.as_str()),
            SunnyError::UserAndLog { user, log } => {
                let mut out = String::from_str("user: ").concat(user.as_str());
                out = out.concat(", log: ");
                let r = out.concat(log.as_str());
                proof {
                    assert(r@ =~= "user: "@ + user@ + ", log: "@ + log@);
                }
                r
            },
        }
    }

    /// The log-facing text, for the operator sink.
    pub fn log_text(&self) -> (r: Option<&String>)
        ensures
            match r {
                Some(s) => self.spec_log_msg() == Some(s@),
                None => self.spec_log_msg() is None,
            },
    {
        match self {
            SunnyError::User(_) => None,
            SunnyError::Log(s) => Some(s),
            SunnyError::UserAndLog { user: _, log } => Some(log),
        }
    }
}

} // verus!
