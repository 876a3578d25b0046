use weeb_logger::db::models::{Channel, Message, User};
use weeb_logger::routes::channels::channel;
use weeb_logger::routes::replies::insert_reply;
use weeb_logger::routes::score::score_total;
use weeb_logger::routes::users::{opt_out_type_error, patch_user, user, OptOutField, PatchUserPlan, UserReport};

fn msg(id: i32, sender: &str, chan: &str, score: i32) -> Message {
    Message {
        id,
        content: format!("message {}", id),
        channel: chan.to_string(),
        sender_login: sender.to_string(),
        post_timestamp: 1_600_000_000 + id,
        score,
    }
}

#[test]
fn score_total_adds_scores() {
    let ms = vec![msg(3, "a", "c", 5), msg(2, "a", "c", -2), msg(1, "a", "c", 10)];
    assert_eq!(score_total(&ms), Some(13));
}

#[test]
fn score_total_of_nothing_is_zero() {
    assert_eq!(score_total(&Vec::new()), Some(0));
}

#[test]
fn score_total_reports_overflow() {
    let ms = vec![msg(2, "a", "c", i32::MAX), msg(1, "a", "c", 1)];
    assert_eq!(score_total(&ms), None);
}

#[test]
fn score_total_overflow_in_a_partial_sum_counts() {
    // The final sum fits, but adding in order overflows on the way.
    let ms = vec![msg(3, "a", "c", i32::MAX), msg(2, "a", "c", 1), msg(1, "a", "c", -5)];
    assert_eq!(score_total(&ms), None);
}

#[test]
fn score_total_reaches_the_bounds() {
    let ms = vec![msg(2, "a", "c", i32::MIN), msg(1, "a", "c", 0)];
    assert_eq!(score_total(&ms), Some(i32::MIN));
}

#[test]
fn unknown_user_page() {
    let r = user("ghost".to_string(), None, Vec::new());
    match r {
        UserReport::Unknown { user_name } => assert_eq!(user_name, "ghost"),
        _ => panic!("expected an unknown user"),
    }
}

#[test]
fn known_user_page() {
    let u = User { user_login: "kappa".to_string(), opted_out: false };
    let ms = vec![msg(7, "kappa", "chan", 4), msg(5, "kappa", "other", 6)];
    match user("kappa".to_string(), Some(u), ms) {
        UserReport::Known { user_name, message_count, score, opted_out, messages } => {
            assert_eq!(user_name, "kappa");
            assert_eq!(message_count, 2);
            assert_eq!(score, 10);
            assert!(!opted_out);
            assert_eq!(messages.len(), 2);
            assert_eq!(messages[0].id, 7);
            assert_eq!(messages[1].id, 5);
        }
        _ => panic!("expected a known user"),
    }
}

#[test]
fn opted_out_user_page_shows_flag() {
    let u = User { user_login: "shy".to_string(), opted_out: true };
    match user("shy".to_string(), Some(u), Vec::new()) {
        UserReport::Known { message_count, score, opted_out, .. } => {
            assert_eq!(message_count, 0);
            assert_eq!(score, 0);
            assert!(opted_out);
        }
        _ => panic!("expected a known user"),
    }
}

#[test]
fn unknown_channel_page() {
    let r = channel("nowhere".to_string(), None, Vec::new());
    assert_eq!(r.channel_name, "nowhere");
    assert!(!r.exists);
    assert_eq!(r.message_count, 0);
    assert_eq!(r.score, 0);
    assert!(r.messages.is_empty());
}

#[test]
fn unknown_channel_page_ignores_messages() {
    let r = channel("nowhere".to_string(), None, vec![msg(1, "a", "nowhere", 3)]);
    assert!(!r.exists);
    assert_eq!(r.message_count, 0);
    assert!(r.messages.is_empty());
}

#[test]
fn known_channel_page() {
    let c = Channel { channel_name: "anime".to_string(), actively_logged: true };
    let ms = vec![msg(9, "x", "anime", 1), msg(8, "y", "anime", 2), msg(4, "x", "anime", 3)];
    let r = channel("anime".to_string(), Some(c), ms);
    assert_eq!(r.channel_name, "anime");
    assert!(r.exists);
    assert_eq!(r.message_count, 3);
    assert_eq!(r.score, 6);
    assert_eq!(r.messages.iter().map(|m| m.id).collect::<Vec<_>>(), vec![9, 8, 4]);
}

#[test]
fn insert_reply_takes_first_row() {
    let r = insert_reply(true, vec![3, 2, 1]);
    assert!(r.status);
    assert_eq!(r.result, Some(3));
}

#[test]
fn insert_reply_of_empty_table() {
    let r = insert_reply::<i32>(false, Vec::new());
    assert!(!r.status);
    assert_eq!(r.result, None);
}

#[test]
fn patch_user_sets_flag() {
    assert!(matches!(patch_user(OptOutField::Flag(true)), PatchUserPlan::SetOptOut(true)));
    assert!(matches!(patch_user(OptOutField::Flag(false)), PatchUserPlan::SetOptOut(false)));
    assert_eq!(patch_user(OptOutField::Flag(true)).status(), 200);
}

#[test]
fn patch_user_without_property_keeps_user() {
    let p = patch_user(OptOutField::Missing);
    assert!(matches!(p, PatchUserPlan::Keep));
    assert_eq!(p.status(), 200);
}

#[test]
fn patch_user_rejects_non_boolean() {
    let p = patch_user(OptOutField::NotBoolean);
    assert!(matches!(p, PatchUserPlan::Reject));
    assert_eq!(p.status(), 400);
    assert_eq!(opt_out_type_error(), "Value for property opt_out should be of boolean");
}
