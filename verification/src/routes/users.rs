use vstd::prelude::*;

use crate::db::models::{Message, User};
use crate::routes::score::{running_sum_fits, score_sum, score_total};

verus! {

/// What `GET /users/<user_name>` reports.
pub enum UserReport {
    /// No user of that login is known.
    Unknown { user_name: String },
    /// The user is known: their messages, how many there are, their summed
    /// score and their consent flag.
    Known {
        user_name: String,
        message_count: usize,
        score: i32,
        opted_out: bool,
        messages: Vec<Message>,
    },
}

/// Builds the user page from the lookup of `user_name` and, where the user
/// exists, the messages they sent (newest first, as the store lists them).
/// The messages are not read for an unknown user.
pub fn user(user_name: String, found: Option<User>, messages: Vec<Message>) -> (r: UserReport)
    requires
        found is Some ==> running_sum_fits(messages@),
    ensures
        match found {
            None => r == UserReport::Unknown { user_name },
            Some(u) => r matches UserReport::Known {
                user_name: n, message_count, score, opted_out, messages: ms,
            } && n == user_name && message_count == messages@.len() && score == score_sum(
                messages@,
            ) && opted_out == u.opted_out && ms == messages,
        },
{
    match found {
        None => UserReport::Unknown { user_name },
        Some(u) => {
            let message_count = messages.len();
            let score = score_total(&messages).unwrap();
            UserReport::Known { user_name, message_count, score, opted_out: u.opted_out, messages }
        },
    }
}

/// The `opt_out` property of the body of `PATCH /users/<user_name>`.
pub enum OptOutField {
    /// The body has no `opt_out` property.
    Missing,
    /// The property holds a boolean.
    Flag(bool),
    /// The property holds something other than a boolean.
    NotBoolean,
}

/// What `PATCH /users/<user_name>` does.
pub enum PatchUserPlan {
    /// Answer with status 400 and change nothing.
    Reject,
    /// Set the user's consent flag to this value, then report the user.
    SetOptOut(bool),
    /// Change nothing and report the user.
    Keep,
}

impl PatchUserPlan {
    /// The status code that the answer carries.
    pub fn status(&self) -> (r: u16)
        ensures
            r == (if self is Reject { 400u16 } else { 200u16 }),
    {
        match self {
            PatchUserPlan::Reject => 400,
            _ => 200,
        }
    }
}

/// Decides what a `PATCH /users/<user_name>` does with its `opt_out`
/// property: a boolean sets the user's flag to it, a missing property changes
/// nothing, and any other value is refused.
pub fn patch_user(field: OptOutField) -> (r: PatchUserPlan)
    ensures
        match field {
            OptOutField::Missing => r is Keep,
            OptOutField::Flag(b) => r == PatchUserPlan::SetOptOut(b),
            OptOutField::NotBoolean => r is Reject,
        },
{
    match field {
        OptOutField::Missing => PatchUserPlan::Keep,
        OptOutField::Flag(b) => PatchUserPlan::SetOptOut(b),
        OptOutField::NotBoolean => PatchUserPlan::Reject,
    }
}

/// The error text of a refused `PATCH /users/<user_name>`.
pub fn opt_out_type_error() -> (r: String)
    ensures
        r@ == "Value for property opt_out should be of boolean"@,
{
    "Value for property opt_out should be of boolean".to_owned()
}

} // verus!
