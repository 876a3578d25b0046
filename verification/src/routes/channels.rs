use vstd::prelude::*;

use crate::db::models::{Channel, Message};
use crate::routes::score::{running_sum_fits, score_sum, score_total};

verus! {

/// What `GET /channels/<channel_name>` reports.
pub struct ChannelReport {
    pub channel_name: String,
    pub exists: bool,
    pub message_count: usize,
    pub score: i32,
    pub messages: Vec<Message>,
}

/// Builds the channel page from the lookup of `channel_name` and, where the
/// channel exists, the messages logged in it (newest first). An unknown
/// channel is reported with no messages and a score of 0; the messages are
/// not read for it.
pub fn channel(channel_name: String, found: Option<Channel>, messages: Vec<Message>) -> (r:
    ChannelReport)
    requires
        found is Some ==> running_sum_fits(messages@),
    ensures
        r.channel_name == channel_name,
        r.exists == found is Some,
        found is None ==> r.message_count == 0 && r.score == 0 && r.messages@.len() == 0,
        found is Some ==> r.message_count == messages@.len() && r.score == score_sum(messages@)
            && r.messages == messages,
{
    match found {
        None => ChannelReport {
            channel_name,
            exists: false,
            message_count: 0,
            score: 0,
            messages: Vec::new(),
        },
        Some(_) => {
            let message_count = messages.len();
            let score = score_total(&messages).unwrap();
            ChannelReport { channel_name, exists: true, message_count, score, messages }
        },
    }
}

} // verus!
