use weeb_logger::controllers::wed::WEDResponse;
use weeb_logger::db::models::{Channel, User};
use weeb_logger::twitchclient::{
    channel_logins, emote_map, ChatMessage, Emote, IngestAction, IngestEvent, IngestState,
};

fn chat() -> ChatMessage {
    ChatMessage {
        channel_login: "animechan".to_string(),
        sender_name: "viewer1".to_string(),
        message_text: "nani?! omae wa mou".to_string(),
        emotes: vec![
            Emote { code: "Kappa".to_string(), id: "25".to_string() },
            Emote { code: "LUL".to_string(), id: "425618".to_string() },
            Emote { code: "Kappa".to_string(), id: "26".to_string() },
        ],
    }
}

fn weeb(terms: i32) -> IngestEvent {
    IngestEvent::Classified(Some(WEDResponse { response_code: 200, is_weeb: true, number_of_weeb_terms: terms }))
}

fn logged_channel(on: bool) -> IngestEvent {
    IngestEvent::ChannelLookedUp(Some(Channel { channel_name: "animechan".to_string(), actively_logged: on }))
}

/// Drives the handling of `msg` with `replies`, returning every action.
fn drive(msg: ChatMessage, replies: Vec<IngestEvent>) -> (IngestState, Vec<IngestAction>) {
    let (mut state, first) = IngestState::start(msg);
    let mut actions = vec![first];
    for e in replies {
        assert!(state.accepts_event(&e));
        let (next, action) = state.step(e);
        state = next;
        actions.push(action);
    }
    (state, actions)
}

#[test]
fn start_looks_up_sender() {
    let (state, action) = IngestState::start(chat());
    assert!(!state.is_finished());
    match action {
        IngestAction::LookUpSender(name) => assert_eq!(name, "viewer1"),
        _ => panic!("expected a sender lookup"),
    }
    assert!(state.accepts_event(&IngestEvent::SenderLookedUp(None)));
    assert!(!state.accepts_event(&IngestEvent::ClockRead(0)));
}

#[test]
fn weeb_message_from_new_sender_is_stored() {
    let (state, actions) = drive(
        chat(),
        vec![IngestEvent::SenderLookedUp(None), weeb(3), logged_channel(true), IngestEvent::ClockRead(1_700_000_000)],
    );
    assert!(state.is_finished());
    assert_eq!(actions.len(), 5);
    match &actions[1] {
        IngestAction::Classify(body) => {
            assert_eq!(body.channel, "animechan");
            assert_eq!(body.message, "nani?! omae wa mou");
            assert_eq!(body.emotes.get(&"Kappa".to_string()), Some(&"26".to_string()));
            assert_eq!(body.emotes.get(&"LUL".to_string()), Some(&"425618".to_string()));
            assert_eq!(body.emotes.pairs().len(), 2);
        }
        _ => panic!("expected a classification request"),
    }
    match &actions[2] {
        IngestAction::CheckChannel(c) => assert_eq!(c, "animechan"),
        _ => panic!("expected a channel check"),
    }
    assert!(matches!(actions[3], IngestAction::ReadClock));
    match &actions[4] {
        IngestAction::Store { new_user, message } => {
            let u = new_user.as_ref().expect("a new user row");
            assert_eq!(u.user_login, "viewer1");
            assert!(!u.opted_out);
            assert_eq!(message.channel, "animechan");
            assert_eq!(message.sender_login, "viewer1");
            assert_eq!(message.content, "nani?! omae wa mou");
            assert_eq!(message.post_timestamp, 1_700_000_000);
            assert_eq!(message.score, 3);
        }
        _ => panic!("expected a store"),
    }
}

#[test]
fn weeb_message_from_known_sender_creates_no_user() {
    let known = User { user_login: "viewer1".to_string(), opted_out: false };
    let (_, actions) = drive(
        chat(),
        vec![IngestEvent::SenderLookedUp(Some(known)), weeb(1), logged_channel(true), IngestEvent::ClockRead(5)],
    );
    match &actions[4] {
        IngestAction::Store { new_user, message } => {
            assert!(new_user.is_none());
            assert_eq!(message.score, 1);
            assert_eq!(message.post_timestamp, 5);
        }
        _ => panic!("expected a store"),
    }
}

#[test]
fn opted_out_sender_is_ignored() {
    let shy = User { user_login: "viewer1".to_string(), opted_out: true };
    let (state, actions) = drive(chat(), vec![IngestEvent::SenderLookedUp(Some(shy))]);
    assert!(state.is_finished());
    assert!(matches!(actions[1], IngestAction::Ignore));
}

#[test]
fn failed_classification_is_reported() {
    let (state, actions) = drive(chat(), vec![IngestEvent::SenderLookedUp(None), IngestEvent::Classified(None)]);
    assert!(state.is_finished());
    match &actions[2] {
        IngestAction::ReportClassifyFailure(c) => assert_eq!(c, "animechan"),
        _ => panic!("expected a failure report"),
    }
}

#[test]
fn non_weeb_message_is_ignored() {
    let verdict = IngestEvent::Classified(Some(WEDResponse { response_code: 200, is_weeb: false, number_of_weeb_terms: 0 }));
    let (state, actions) = drive(chat(), vec![IngestEvent::SenderLookedUp(None), verdict]);
    assert!(state.is_finished());
    assert!(matches!(actions[2], IngestAction::Ignore));
}

#[test]
fn message_in_unlogged_channel_is_ignored() {
    let (state, actions) = drive(chat(), vec![IngestEvent::SenderLookedUp(None), weeb(2), logged_channel(false)]);
    assert!(state.is_finished());
    assert!(matches!(actions[3], IngestAction::Ignore));
}

#[test]
fn emote_table_last_code_wins() {
    let m = emote_map(&chat().emotes);
    assert_eq!(m.get(&"Kappa".to_string()), Some(&"26".to_string()));
    assert_eq!(m.pairs().len(), 2);
}

#[test]
fn emote_table_of_no_emotes_is_empty() {
    let m = emote_map(&Vec::new());
    assert!(m.pairs().is_empty());
}

#[test]
fn all_channels_are_joined() {
    let cs = vec![
        Channel { channel_name: "b".to_string(), actively_logged: true },
        Channel { channel_name: "a".to_string(), actively_logged: false },
    ];
    assert_eq!(channel_logins(&cs), vec!["b".to_string(), "a".to_string()]);
}

#[test]
fn message_in_unknown_channel_is_ignored() {
    let (state, actions) = drive(chat(), vec![IngestEvent::SenderLookedUp(None), weeb(2), IngestEvent::ChannelLookedUp(None)]);
    assert!(state.is_finished());
    assert!(matches!(actions[3], IngestAction::Ignore));
}
