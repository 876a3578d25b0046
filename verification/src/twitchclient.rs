use vstd::prelude::*;

use crate::controllers::wed::{EmoteMap, ReqBody, WEDResponse};
use crate::db::models::{Channel, NewMessage, NewUser, User};

verus! {

/// An emote as a chat message carries it: its code and its id.
pub struct Emote {
    pub code: String,
    pub id: String,
}

/// A chat message read from a channel.
pub struct ChatMessage {
    pub channel_login: String,
    pub sender_name: String,
    pub message_text: String,
    pub emotes: Vec<Emote>,
}

/// The code-to-id table that inserting `emotes` one by one, first to last,
/// builds: a code that occurs twice maps to the id of its last occurrence.
pub open spec fn emote_table(emotes: Seq<Emote>) -> Map<Seq<char>, Seq<char>>
    decreases emotes.len(),
{
    if emotes.len() == 0 {
        Map::empty()
    } else {
        emote_table(emotes.drop_last()).insert(emotes.last().code@, emotes.last().id@)
    }
}

/// Collects the emotes of a message into the table sent to the classifier.
pub fn emote_map(emotes: &Vec<Emote>) -> (r: EmoteMap)
    ensures
        r@ == emote_table(emotes@),
{
    let mut map = EmoteMap::new();
    let mut i: usize = 0;
    while i < emotes.len()
        invariant
            i <= emotes@.len(),
            map@ == emote_table(emotes@.take(i as int)),
        decreases emotes@.len() - i,
    {
        assert(emotes@.take(i as int + 1).drop_last() =~= emotes@.take(i as int));
        let _ = map.insert(emotes[i].code.clone(), emotes[i].id.clone());
        i = i + 1;
    }
    assert(emotes@.take(emotes@.len() as int) =~= emotes@);
    map
}

/// The emote table holds exactly the codes of the emotes, and each code maps
/// to the id of the last emote that has it.
pub proof fn law_emote_table_last_wins(emotes: Seq<Emote>)
    ensures
        forall|k: Seq<char>|
            emote_table(emotes).contains_key(k) <==> exists|i: int|
                0 <= i < emotes.len() && #[trigger] emotes[i].code@ == k,
        forall|i: int|
            0 <= i < emotes.len() && (forall|j: int|
                i < j < emotes.len() ==> emotes[j].code@ != emotes[i].code@) ==> emote_table(
                emotes,
            )[#[trigger] emotes[i].code@] == emotes[i].id@,
    decreases emotes.len(),
{
    if emotes.len() > 0 {
        let prefix = emotes.drop_last();
        law_emote_table_last_wins(prefix);
        assert forall|k: Seq<char>|
            emote_table(emotes).contains_key(k) <==> exists|i: int|
                0 <= i < emotes.len() && #[trigger] emotes[i].code@ == k by {
            if emote_table(prefix).contains_key(k) {
                let i = choose|i: int| 0 <= i < prefix.len() && #[trigger] prefix[i].code@ == k;
                assert(emotes[i].code@ == k);
            }
            if exists|i: int| 0 <= i < emotes.len() && #[trigger] emotes[i].code@ == k {
                let i = choose|i: int| 0 <= i < emotes.len() && #[trigger] emotes[i].code@ == k;
                if i < emotes.len() - 1 {
                    assert(prefix[i].code@ == k);
                }
            }
        }
        assert forall|i: int|
            0 <= i < emotes.len() && (forall|j: int|
                i < j < emotes.len() ==> emotes[j].code@ != emotes[i].code@) implies emote_table(
            emotes,
        )[#[trigger] emotes[i].code@] == emotes[i].id@ by {
            if i < emotes.len() - 1 {
                assert(prefix[i] == emotes[i]);
                assert(emotes[emotes.len() - 1].code@ != emotes[i].code@);
                assert forall|j: int| i < j < prefix.len() implies prefix[j].code@
                    != prefix[i].code@ by {
                    assert(prefix[j] == emotes[j]);
                }
                assert(emote_table(prefix)[prefix[i].code@] == prefix[i].id@);
            }
        }
    }
}

/// The logins of the channels to join when the client starts: every known
/// channel, in listing order, whether or not it is actively logged.
pub fn channel_logins(channels: &Vec<Channel>) -> (r: Vec<String>)
    ensures
        r@.len() == channels@.len(),
        forall|i: int| 0 <= i < r@.len() ==> r@[i] == channels@[i].channel_name,
{
    let mut r: Vec<String> = Vec::new();
    let mut i: usize = 0;
    while i < channels.len()
        invariant
            i <= channels@.len(),
            r@.len() == i,
            forall|j: int| 0 <= j < i ==> r@[j] == channels@[j].channel_name,
        decreases channels@.len() - i,
    {
        r.push(channels[i].channel_name.clone());
        i = i + 1;
    }
    r
}

/// Where the handling of one chat message stands: which reply it waits for,
/// and what it has learnt so far.
pub enum IngestState {
    /// Waits for the lookup of the sender among the known users.
    AwaitSender { msg: ChatMessage },
    /// Waits for the classifier's verdict; `new_user` is the user row to
    /// create if the message is kept.
    AwaitVerdict {
        channel_login: String,
        sender_name: String,
        message_text: String,
        new_user: Option<NewUser>,
    },
    /// Waits for the lookup of the channel among the known channels.
    AwaitChannel {
        channel_login: String,
        sender_name: String,
        message_text: String,
        new_user: Option<NewUser>,
        score: i32,
    },
    /// Waits for the current time, in seconds since the epoch.
    AwaitClock {
        channel_login: String,
        sender_name: String,
        message_text: String,
        new_user: Option<NewUser>,
        score: i32,
    },
    /// Done with the message.
    Finished,
}

/// A reply to the action that the handling asked for last.
pub enum IngestEvent {
    /// The sender as the store knows them, if it does.
    SenderLookedUp(Option<User>),
    /// The classifier's verdict, or `None` where the request failed.
    Classified(Option<WEDResponse>),
    /// The channel as the store knows it, if it does.
    ChannelLookedUp(Option<Channel>),
    /// The current time, in whole seconds since the epoch.
    ClockRead(i32),
}

/// What the handling of a chat message asks the caller to do next.
pub enum IngestAction {
    /// Look the sender up among the known users.
    LookUpSender(String),
    /// Send this request to the classifier.
    Classify(ReqBody),
    /// Look this channel up among the known channels.
    CheckChannel(String),
    /// Read the clock.
    ReadClock,
    /// Store the user row (if any), then the message.
    Store { new_user: Option<NewUser>, message: NewMessage },
    /// Report that the classifier could not be reached for this channel; the
    /// message is dropped.
    ReportClassifyFailure(String),
    /// Drop the message.
    Ignore,
}

/// Whether a sender, as the lookup found them, lets their messages be kept:
/// an unknown sender does, a known one unless they opted out.
pub open spec fn consents(found: Option<User>) -> bool {
    match found {
        None => true,
        Some(u) => !u.opted_out,
    }
}

/// Whether a channel, as the lookup found it, is one whose messages are
/// kept: only a known channel that is actively logged is.
pub open spec fn logged(found: Option<Channel>) -> bool {
    match found {
        None => false,
        Some(c) => c.actively_logged,
    }
}

/// The user row to create for a sender that the lookup did not find.
pub open spec fn user_to_create(sender_name: String, found: Option<User>) -> Option<NewUser> {
    match found {
        None => Some(NewUser { user_login: sender_name, opted_out: false }),
        Some(_) => None,
    }
}

impl IngestState {
    /// Whether this state waits for a reply of the kind of `event`.
    pub open spec fn accepts(self, event: IngestEvent) -> bool {
        match (self, event) {
            (IngestState::AwaitSender { .. }, IngestEvent::SenderLookedUp(_)) => true,
            (IngestState::AwaitVerdict { .. }, IngestEvent::Classified(_)) => true,
            (IngestState::AwaitChannel { .. }, IngestEvent::ChannelLookedUp(_)) => true,
            (IngestState::AwaitClock { .. }, IngestEvent::ClockRead(_)) => true,
            _ => false,
        }
    }

    /// The state that the handling moves to from this state on `event`.
    pub open spec fn next_state(self, event: IngestEvent) -> IngestState {
        match (self, event) {
            (IngestState::AwaitSender { msg }, IngestEvent::SenderLookedUp(found)) => {
                if consents(found) {
                    IngestState::AwaitVerdict {
                        channel_login: msg.channel_login,
                        sender_name: msg.sender_name,
                        message_text: msg.message_text,
                        new_user: user_to_create(msg.sender_name, found),
                    }
                } else {
                    IngestState::Finished
                }
            },
            (
                IngestState::AwaitVerdict { channel_login, sender_name, message_text, new_user },
                IngestEvent::Classified(verdict),
            ) => match verdict {
                Some(w) if w.is_weeb => IngestState::AwaitChannel {
                    channel_login,
                    sender_name,
                    message_text,
                    new_user,
                    score: w.number_of_weeb_terms,
                },
                _ => IngestState::Finished,
            },
            (
                IngestState::AwaitChannel {
                    channel_login,
                    sender_name,
                    message_text,
                    new_user,
                    score,
                },
                IngestEvent::ChannelLookedUp(found),
            ) => if logged(found) {
                IngestState::AwaitClock { channel_login, sender_name, message_text, new_user, score }
            } else {
                IngestState::Finished
            },
            _ => IngestState::Finished,
        }
    }

    /// Whether `action` is what the handling asks for from this state on
    /// `event`.
    pub open spec fn asks(self, event: IngestEvent, action: IngestAction) -> bool {
        match (self, event) {
            (IngestState::AwaitSender { msg }, IngestEvent::SenderLookedUp(found)) => {
                if consents(found) {
                    &&& action matches IngestAction::Classify(body)
                    &&& body.channel == msg.channel_login
                    &&& body.message == msg.message_text
                    &&& body.emotes@ == emote_table(msg.emotes@)
                } else {
                    action == IngestAction::Ignore
                }
            },
            (IngestState::AwaitVerdict { channel_login, .. }, IngestEvent::Classified(verdict)) => {
                match verdict {
                    None => action == IngestAction::ReportClassifyFailure(channel_login),
                    Some(w) => if w.is_weeb {
                        action == IngestAction::CheckChannel(channel_login)
                    } else {
                        action == IngestAction::Ignore
                    },
                }
            },
            (IngestState::AwaitChannel { .. }, IngestEvent::ChannelLookedUp(found)) => if logged(
                found,
            ) {
                action == IngestAction::ReadClock
            } else {
                action == IngestAction::Ignore
            },
            (
                IngestState::AwaitClock { channel_login, sender_name, message_text, new_user, score },
                IngestEvent::ClockRead(now),
            ) => action == IngestAction::Store {
                new_user,
                message: NewMessage {
                    content: message_text,
                    channel: channel_login,
                    sender_login: sender_name,
                    post_timestamp: now,
                    score,
                },
            },
            _ => false,
        }
    }

    /// Starts the handling of a chat message: the sender is looked up first.
    pub fn start(msg: ChatMessage) -> (r: (IngestState, IngestAction))
        ensures
            r.0 == (IngestState::AwaitSender { msg }),
            r.1 == IngestAction::LookUpSender(msg.sender_name),
    {
        let sender = msg.sender_name.clone();
        (IngestState::AwaitSender { msg }, IngestAction::LookUpSender(sender))
    }

    /// Whether this state waits for a reply of the kind of `event`.
    pub fn accepts_event(&self, event: &IngestEvent) -> (r: bool)
        ensures
            r == self.accepts(*event),
    {
        match (self, event) {
            (IngestState::AwaitSender { .. }, IngestEvent::SenderLookedUp(_)) => true,
            (IngestState::AwaitVerdict { .. }, IngestEvent::Classified(_)) => true,
            (IngestState::AwaitChannel { .. }, IngestEvent::ChannelLookedUp(_)) => true,
            (IngestState::AwaitClock { .. }, IngestEvent::ClockRead(_)) => true,
            _ => false,
        }
    }

    /// Whether the handling is done.
    pub fn is_finished(&self) -> (r: bool)
        ensures
            r == (self is Finished),
    {
        match self {
            IngestState::Finished => true,
            _ => false,
        }
    }

    /// Takes the reply to the last action and decides what comes next.
    pub fn step(self, event: IngestEvent) -> (r: (IngestState, IngestAction))
        requires
            self.accepts(event),
        ensures
            r.0 == self.next_state(event),
            self.asks(event, r.1),
    {
        match (self, event) {
            (IngestState::AwaitSender { msg }, IngestEvent::SenderLookedUp(found)) => {
                let new_user = match &found {
                    Some(u) => {
                        if u.opted_out {
                            return (IngestState::Finished, IngestAction::Ignore);
                        }
                        None
                    },
                    None => Some(NewUser { user_login: msg.sender_name.clone(), opted_out: false }),
                };
                let body = ReqBody {
                    channel: msg.channel_login.clone(),
                    message: msg.message_text.clone(),
                    emotes: emote_map(&msg.emotes),
                };
                (
                    IngestState::AwaitVerdict {
                        channel_login: msg.channel_login,
                        sender_name: msg.sender_name,
                        message_text: msg.message_text,
                        new_user,
                    },
                    IngestAction::Classify(body),
                )
            },
            (
                IngestState::AwaitVerdict { channel_login, sender_name, message_text, new_user },
                IngestEvent::Classified(verdict),
            ) => match verdict {
                None => (IngestState::Finished, IngestAction::ReportClassifyFailure(channel_login)),
                Some(w) => {
                    if w.is_weeb {
                        let check = IngestAction::CheckChannel(channel_login.clone());
                        (
                            IngestState::AwaitChannel {
                                channel_login,
                                sender_name,
                                message_text,
                                new_user,
                                score: w.number_of_weeb_terms,
                            },
                            check,
                        )
                    } else {
                        (IngestState::Finished, IngestAction::Ignore)
                    }
                },
            },
            (
                IngestState::AwaitChannel {
                    channel_login,
                    sender_name,
                    message_text,
                    new_user,
                    score,
                },
                IngestEvent::ChannelLookedUp(found),
            ) => {
                let is_logged = match &found {
                    Some(c) => c.actively_logged,
                    None => false,
                };
                if is_logged {
                    (
                        IngestState::AwaitClock {
                            channel_login,
                            sender_name,
                            message_text,
                            new_user,
                            score,
                        },
                        IngestAction::ReadClock,
                    )
                } else {
                    (IngestState::Finished, IngestAction::Ignore)
                }
            },
            (
                IngestState::AwaitClock { channel_login, sender_name, message_text, new_user, score },
                IngestEvent::ClockRead(now),
            ) => (
                IngestState::Finished,
                IngestAction::Store {
                    new_user,
                    message: NewMessage {
                        content: message_text,
                        channel: channel_login,
                        sender_login: sender_name,
                        post_timestamp: now,
                        score,
                    },
                },
            ),
            (s, _) => (s, IngestAction::Ignore),
        }
    }
}

/// The state that the handling of `msg` is in after taking the replies
/// `events`, one by one.
pub open spec fn run_state(msg: ChatMessage, events: Seq<IngestEvent>) -> IngestState
    decreases events.len(),
{
    if events.len() == 0 {
        IngestState::AwaitSender { msg }
    } else {
        run_state(msg, events.drop_last()).next_state(events.last())
    }
}

/// Whether `actions` are what the handling of `msg` asks for when it takes
/// the replies `events`: the first action, then one after each reply, each
/// reply being of the kind that the handling waits for.
pub open spec fn is_run(msg: ChatMessage, events: Seq<IngestEvent>, actions: Seq<IngestAction>) -> bool {
    &&& actions.len() == events.len() + 1
    &&& actions[0] == IngestAction::LookUpSender(msg.sender_name)
    &&& forall|i: int|
        #![trigger events[i]]
        0 <= i < events.len() ==> run_state(msg, events.take(i)).accepts(events[i]) && run_state(
            msg,
            events.take(i),
        ).asks(events[i], actions[i + 1])
}

/// What the handling of `msg` stores when it gets the replies `events`, if
/// anything: the user row to create (for a sender not known yet) and the
/// message, scored by the number of weeb terms and stamped with the clock.
/// It stores something exactly when the sender consents, the classifier
/// calls the message weeb, and the channel is actively logged.
pub open spec fn kept(msg: ChatMessage, events: Seq<IngestEvent>) -> Option<
    (Option<NewUser>, NewMessage),
> {
    if events.len() == 4 {
        match (events[0], events[1], events[2], events[3]) {
            (
                IngestEvent::SenderLookedUp(found),
                IngestEvent::Classified(Some(w)),
                IngestEvent::ChannelLookedUp(channel),
                IngestEvent::ClockRead(now),
            ) => if consents(found) && w.is_weeb && logged(channel) {
                Some(
                    (
                        user_to_create(msg.sender_name, found),
                        NewMessage {
                            content: msg.message_text,
                            channel: msg.channel_login,
                            sender_login: msg.sender_name,
                            post_timestamp: now,
                            score: w.number_of_weeb_terms,
                        },
                    ),
                )
            } else {
                None
            },
            _ => None,
        }
    } else {
        None
    }
}

/// How far the handling has come: the number of replies a state has taken.
pub open spec fn stage(s: IngestState) -> int {
    match s {
        IngestState::AwaitSender { .. } => 0,
        IngestState::AwaitVerdict { .. } => 1,
        IngestState::AwaitChannel { .. } => 2,
        IngestState::AwaitClock { .. } => 3,
        IngestState::Finished => 4,
    }
}

proof fn lemma_run_state_step(msg: ChatMessage, events: Seq<IngestEvent>, i: int)
    requires
        0 <= i < events.len(),
    ensures
        run_state(msg, events.take(i + 1)) == run_state(msg, events.take(i)).next_state(events[i]),
{
    assert(events.take(i + 1).drop_last() =~= events.take(i));
    assert(events.take(i + 1).last() == events[i]);
}

proof fn lemma_run_stage(msg: ChatMessage, events: Seq<IngestEvent>, actions: Seq<IngestAction>, i: int)
    requires
        is_run(msg, events, actions),
        0 <= i < events.len(),
    ensures
        stage(run_state(msg, events.take(i))) == i,
    decreases i,
{
    if i == 0 {
        assert(events.take(0) =~= Seq::<IngestEvent>::empty());
    } else {
        lemma_run_stage(msg, events, actions, i - 1);
        lemma_run_state_step(msg, events, i - 1);
        assert(run_state(msg, events.take(i - 1)).accepts(events[i - 1]));
        assert(run_state(msg, events.take(i)).accepts(events[i]));
    }
}

proof fn lemma_first_states(msg: ChatMessage, events: Seq<IngestEvent>)
    requires
        events.len() >= 3,
    ensures
        run_state(msg, events.take(0)) == (IngestState::AwaitSender { msg }),
        run_state(msg, events.take(1)) == (IngestState::AwaitSender { msg }).next_state(events[0]),
        run_state(msg, events.take(2)) == run_state(msg, events.take(1)).next_state(events[1]),
        run_state(msg, events.take(3)) == run_state(msg, events.take(2)).next_state(events[2]),
{
    assert(events.take(0) =~= Seq::<IngestEvent>::empty());
    lemma_run_state_step(msg, events, 0);
    lemma_run_state_step(msg, events, 1);
    lemma_run_state_step(msg, events, 2);
}

/// The handling of a chat message takes at most four replies: the sender
/// lookup, the classifier's verdict, the channel check and the clock.
pub proof fn law_run_is_short(msg: ChatMessage, events: Seq<IngestEvent>, actions: Seq<IngestAction>)
    requires
        is_run(msg, events, actions),
    ensures
        events.len() <= 4,
{
    if events.len() > 4 {
        lemma_run_stage(msg, events, actions, 4);
        assert(run_state(msg, events.take(4)).accepts(events[4]));
    }
}

/// A message is stored only after every check has passed, and what is stored
/// is what `kept` says: the message as it was sent, scored by the
/// classifier's count of weeb terms and stamped with the clock, together with
/// a new user row (not opted out) exactly when the sender was unknown.
pub proof fn law_store_only_after_checks(
    msg: ChatMessage,
    events: Seq<IngestEvent>,
    actions: Seq<IngestAction>,
    k: int,
)
    requires
        is_run(msg, events, actions),
        0 <= k < actions.len(),
        actions[k] is Store,
    ensures
        k == 4,
        kept(msg, events) matches Some(row) && actions[k] == (IngestAction::Store {
            new_user: row.0,
            message: row.1,
        }),
{
    law_run_is_short(msg, events, actions);
    assert(k >= 1);
    let j = k - 1;
    assert(run_state(msg, events.take(j)).asks(events[j], actions[j + 1]));
    lemma_run_stage(msg, events, actions, j);
    assert(j == 3);
    lemma_first_states(msg, events);
    assert(run_state(msg, events.take(0)).accepts(events[0]));
    assert(run_state(msg, events.take(1)).accepts(events[1]));
    assert(run_state(msg, events.take(2)).accepts(events[2]));
    assert(run_state(msg, events.take(3)).accepts(events[3]));
}

/// When the sender consents, the classifier calls the message weeb and the
/// channel is actively logged, the handling takes each of these replies in
/// turn and its last action stores what `kept` says.
pub proof fn law_store_when_checks_pass(
    msg: ChatMessage,
    events: Seq<IngestEvent>,
    actions: Seq<IngestAction>,
)
    requires
        kept(msg, events) is Some,
    ensures
        forall|i: int| 0 <= i < 4 ==> #[trigger] run_state(msg, events.take(i)).accepts(events[i]),
        is_run(msg, events, actions) ==> (kept(msg, events) matches Some(row) && actions[4] == (
        IngestAction::Store { new_user: row.0, message: row.1 })),
{
    lemma_first_states(msg, events);
    lemma_run_state_step(msg, events, 3);
    if is_run(msg, events, actions) {
        assert(run_state(msg, events.take(3)).asks(events[3], actions[3int + 1]));
    }
}

/// A message of a sender who opted out is dropped at once: the classifier
/// never sees it, and nothing is stored.
pub proof fn law_opted_out_sender_is_ignored(
    msg: ChatMessage,
    events: Seq<IngestEvent>,
    actions: Seq<IngestAction>,
)
    requires
        is_run(msg, events, actions),
        events.len() >= 1,
        events[0] matches IngestEvent::SenderLookedUp(found) && !consents(found),
    ensures
        events.len() == 1,
        actions[1] == IngestAction::Ignore,
{
    assert(events.take(0) =~= Seq::<IngestEvent>::empty());
    assert(run_state(msg, events.take(0)).asks(events[0], actions[0int + 1]));
    if events.len() > 1 {
        lemma_run_state_step(msg, events, 0);
        assert(run_state(msg, events.take(1)).accepts(events[1]));
    }
}

/// A message goes to the classifier only once the sender is known to
/// consent, and only as the second action; the request carries the channel,
/// the text and the emote table of the message.
pub proof fn law_classify_needs_consent(
    msg: ChatMessage,
    events: Seq<IngestEvent>,
    actions: Seq<IngestAction>,
    k: int,
)
    requires
        is_run(msg, events, actions),
        0 <= k < actions.len(),
        actions[k] is Classify,
    ensures
        k == 1,
        events[0] matches IngestEvent::SenderLookedUp(found) && consents(found),
        actions[k] matches IngestAction::Classify(body) && body.channel == msg.channel_login
            && body.message == msg.message_text && body.emotes@ == emote_table(msg.emotes@),
{
    law_run_is_short(msg, events, actions);
    let j = k - 1;
    assert(run_state(msg, events.take(j)).asks(events[j], actions[j + 1]));
    lemma_run_stage(msg, events, actions, j);
    assert(events.take(0) =~= Seq::<IngestEvent>::empty());
}

/// Each waiting state takes exactly the reply to what it asked for, and a
/// finished handling takes no reply at all.
pub proof fn law_each_state_takes_its_reply(
    msg: ChatMessage,
    channel_login: String,
    sender_name: String,
    message_text: String,
    new_user: Option<NewUser>,
    score: i32,
    event: IngestEvent,
)
    ensures
        (IngestState::AwaitSender { msg }).accepts(event) <==> event is SenderLookedUp,
        (IngestState::AwaitVerdict { channel_login, sender_name, message_text, new_user }).accepts(
            event,
        ) <==> event is Classified,
        (IngestState::AwaitChannel {
            channel_login,
            sender_name,
            message_text,
            new_user,
            score,
        }).accepts(event) <==> event is ChannelLookedUp,
        (IngestState::AwaitClock {
            channel_login,
            sender_name,
            message_text,
            new_user,
            score,
        }).accepts(event) <==> event is ClockRead,
        !IngestState::Finished.accepts(event),
{
}

/// When the lookup finds no user of the sender's name, or a user who has not
/// opted out, the message goes to the classifier next: the request carries
/// the message's channel, its text and its emote table, and the handling
/// then waits for the verdict, holding a new user row (not opted out, with
/// the sender's name) exactly when the sender was unknown.
pub proof fn law_consenting_sender_goes_to_classifier(
    msg: ChatMessage,
    found: Option<User>,
    next: IngestState,
    action: IngestAction,
)
    requires
        found matches Some(u) ==> !u.opted_out,
        next == (IngestState::AwaitSender { msg }).next_state(IngestEvent::SenderLookedUp(found)),
        (IngestState::AwaitSender { msg }).asks(IngestEvent::SenderLookedUp(found), action),
    ensures
        action matches IngestAction::Classify(body) && body.channel == msg.channel_login
            && body.message == msg.message_text && body.emotes@ == emote_table(msg.emotes@),
        found is None ==> next == (IngestState::AwaitVerdict {
            channel_login: msg.channel_login,
            sender_name: msg.sender_name,
            message_text: msg.message_text,
            new_user: Some(NewUser { user_login: msg.sender_name, opted_out: false }),
        }),
        found is Some ==> next == (IngestState::AwaitVerdict {
            channel_login: msg.channel_login,
            sender_name: msg.sender_name,
            message_text: msg.message_text,
            new_user: None,
        }),
{
}

/// When the lookup finds a user who opted out, the handling ends at once and
/// the message is dropped.
pub proof fn law_opted_out_sender_is_dropped(
    msg: ChatMessage,
    u: User,
    next: IngestState,
    action: IngestAction,
)
    requires
        u.opted_out,
        next == (IngestState::AwaitSender { msg }).next_state(
            IngestEvent::SenderLookedUp(Some(u)),
        ),
        (IngestState::AwaitSender { msg }).asks(IngestEvent::SenderLookedUp(Some(u)), action),
    ensures
        next is Finished,
        action is Ignore,
{
}

/// A verdict of weeb, whatever its number of weeb terms, leads to the lookup
/// of the message's channel, and the message's score becomes that number; a
/// verdict of not weeb drops the message; a failed request is reported for
/// the channel and drops the message.
pub proof fn law_verdict_decides(
    channel_login: String,
    sender_name: String,
    message_text: String,
    new_user: Option<NewUser>,
    verdict: Option<WEDResponse>,
    next: IngestState,
    action: IngestAction,
)
    requires
        next == (IngestState::AwaitVerdict {
            channel_login,
            sender_name,
            message_text,
            new_user,
        }).next_state(IngestEvent::Classified(verdict)),
        (IngestState::AwaitVerdict { channel_login, sender_name, message_text, new_user }).asks(
            IngestEvent::Classified(verdict),
            action,
        ),
    ensures
        verdict matches Some(w) ==> (w.is_weeb ==> action == IngestAction::CheckChannel(
            channel_login,
        ) && next == (IngestState::AwaitChannel {
            channel_login,
            sender_name,
            message_text,
            new_user,
            score: w.number_of_weeb_terms,
        })),
        verdict matches Some(w) ==> (!w.is_weeb ==> action is Ignore && next is Finished),
        verdict is None ==> action == IngestAction::ReportClassifyFailure(channel_login)
            && next is Finished,
{
}

/// A channel that is known and actively logged leads to reading the clock;
/// an unknown channel, or one not actively logged, drops the message.
pub proof fn law_channel_decides(
    channel_login: String,
    sender_name: String,
    message_text: String,
    new_user: Option<NewUser>,
    score: i32,
    found: Option<Channel>,
    next: IngestState,
    action: IngestAction,
)
    requires
        next == (IngestState::AwaitChannel {
            channel_login,
            sender_name,
            message_text,
            new_user,
            score,
        }).next_state(IngestEvent::ChannelLookedUp(found)),
        (IngestState::AwaitChannel {
            channel_login,
            sender_name,
            message_text,
            new_user,
            score,
        }).asks(IngestEvent::ChannelLookedUp(found), action),
    ensures
        found matches Some(c) ==> (c.actively_logged ==> action is ReadClock && next == (
        IngestState::AwaitClock { channel_login, sender_name, message_text, new_user, score })),
        found matches Some(c) ==> (!c.actively_logged ==> action is Ignore && next is Finished),
        found is None ==> action is Ignore && next is Finished,
{
}

/// The clock's reading ends the handling with the store of the user row it
/// holds (if any) and of the message: its text, channel and sender, stamped
/// with the clock and carrying its score.
pub proof fn law_clock_stores(
    channel_login: String,
    sender_name: String,
    message_text: String,
    new_user: Option<NewUser>,
    score: i32,
    now: i32,
    next: IngestState,
    action: IngestAction,
)
    requires
        next == (IngestState::AwaitClock {
            channel_login,
            sender_name,
            message_text,
            new_user,
            score,
        }).next_state(IngestEvent::ClockRead(now)),
        (IngestState::AwaitClock { channel_login, sender_name, message_text, new_user, score }).asks(
            IngestEvent::ClockRead(now),
            action,
        ),
    ensures
        next is Finished,
        action == (IngestAction::Store {
            new_user,
            message: NewMessage {
                content: message_text,
                channel: channel_login,
                sender_login: sender_name,
                post_timestamp: now,
                score,
            },
        }),
{
}

/// A full run in which the sender is unknown or has not opted out, the
/// classifier calls the message weeb, and the channel is known and actively
/// logged: the handling asks for the classification of the message, the
/// channel lookup, the clock, and then stores the message (and a user row for
/// an unknown sender) with the verdict's number of weeb terms as its score and
/// the clock's reading as its timestamp.
pub proof fn law_full_run(
    msg: ChatMessage,
    found: Option<User>,
    w: WEDResponse,
    c: Channel,
    now: i32,
    actions: Seq<IngestAction>,
)
    requires
        found matches Some(u) ==> !u.opted_out,
        w.is_weeb,
        c.actively_logged,
        is_run(
            msg,
            seq![
                IngestEvent::SenderLookedUp(found),
                IngestEvent::Classified(Some(w)),
                IngestEvent::ChannelLookedUp(Some(c)),
                IngestEvent::ClockRead(now),
            ],
            actions,
        ),
    ensures
        actions[0] == IngestAction::LookUpSender(msg.sender_name),
        actions[1] matches IngestAction::Classify(body) && body.channel == msg.channel_login
            && body.message == msg.message_text && body.emotes@ == emote_table(msg.emotes@),
        actions[2] == IngestAction::CheckChannel(msg.channel_login),
        actions[3] == IngestAction::ReadClock,
        actions[4] == (IngestAction::Store {
            new_user: match found {
                None => Some(NewUser { user_login: msg.sender_name, opted_out: false }),
                Some(_) => None,
            },
            message: NewMessage {
                content: msg.message_text,
                channel: msg.channel_login,
                sender_login: msg.sender_name,
                post_timestamp: now,
                score: w.number_of_weeb_terms,
            },
        }),
{
    let events = seq![
        IngestEvent::SenderLookedUp(found),
        IngestEvent::Classified(Some(w)),
        IngestEvent::ChannelLookedUp(Some(c)),
        IngestEvent::ClockRead(now),
    ];
    lemma_first_states(msg, events);
    assert(run_state(msg, events.take(0)).asks(events[0], actions[0int + 1]));
    assert(run_state(msg, events.take(1)).asks(events[1], actions[1int + 1]));
    assert(run_state(msg, events.take(2)).asks(events[2], actions[2int + 1]));
    assert(run_state(msg, events.take(3)).asks(events[3], actions[3int + 1]));
    law_consenting_sender_goes_to_classifier(
        msg,
        found,
        run_state(msg, events.take(1)),
        actions[1],
    );
}

} // verus!
