use vstd::prelude::*;

verus! {

/// A stored chat message, as the `messages` table holds it.
#[derive(Debug, Clone)]
pub struct Message {
    pub id: i32,
    pub content: String,
    pub channel: String,
    pub sender_login: String,
    pub post_timestamp: i32,
    pub score: i32,
}

/// A chat message to be stored; the database assigns its `id`.
pub struct NewMessage {
    pub content: String,
    pub channel: String,
    pub sender_login: String,
    pub post_timestamp: i32,
    pub score: i32,
}

/// A channel known to the logger.
#[derive(Debug, Clone)]
pub struct Channel {
    pub channel_name: String,
    pub actively_logged: bool,
}

/// A channel to be stored.
pub struct NewChannel {
    pub channel_name: String,
    pub actively_logged: bool,
}

/// A chat user known to the logger, with their consent flag.
#[derive(Debug, Clone)]
pub struct User {
    pub user_login: String,
    pub opted_out: bool,
}

/// A user to be stored.
pub struct NewUser {
    pub user_login: String,
    pub opted_out: bool,
}

/// A user together with the total score of their messages.
#[derive(Debug, Clone)]
pub struct UserWithScore {
    pub user_login: String,
    pub score: i64,
}

} // verus!
