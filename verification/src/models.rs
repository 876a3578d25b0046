use vstd::prelude::*;

verus! {

/// A stored chat message of the first schema, which had no score column.
pub struct Message {
    pub id: i32,
    pub content: String,
    pub channel: String,
    pub sender_login: String,
    pub post_timestamp: i32,
}

/// A chat message of the first schema, to be stored.
pub struct NewMessage {
    pub content: String,
    pub channel: String,
    pub sender_login: String,
    pub post_timestamp: i32,
}

} // verus!
