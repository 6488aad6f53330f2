use session_scheduler::text::{
    account_age_text, announcement_text, create_failure_text, decimal_string, delete_failure_text,
    eight_hour_reminder_text, event_url, one_hour_reminder_text,
};

#[test]
fn decimal_of_zero() {
    assert_eq!(decimal_string(0), "0");
}

#[test]
fn decimal_of_single_digit() {
    assert_eq!(decimal_string(7), "7");
}

#[test]
fn decimal_of_round_number() {
    assert_eq!(decimal_string(1230), "1230");
}

#[test]
fn decimal_of_large_identifier() {
    assert_eq!(decimal_string(1422398523160264907), "1422398523160264907");
}

#[test]
fn decimal_of_largest_value() {
    assert_eq!(decimal_string(u64::MAX), "18446744073709551615");
}

#[test]
fn url_names_guild_and_event() {
    assert_eq!(event_url(900, 42), "https://discord.com/events/900/42");
}

#[test]
fn announcement_carries_the_event_identifier() {
    let text = announcement_text(1422398523160264907, 9876543210);
    assert_eq!(
        text,
        "Hey @everyone, a new session has been scheduled. If you can join great, just click interested. \nhttps://discord.com/events/1422398523160264907/9876543210"
    );
    assert!(text.contains("9876543210"));
}

#[test]
fn reminder_texts_name_their_offsets() {
    assert_eq!(
        eight_hour_reminder_text(),
        "Hey @everyone, the scheduled session today starts in 8 hours"
    );
    assert_eq!(
        one_hour_reminder_text(),
        "Hey @everyone, the scheduled session today starts in 1 hour"
    );
}

#[test]
fn delete_failure_text_carries_the_detail() {
    assert_eq!(
        delete_failure_text("http status 403"),
        "There was a problem deleting the old event on the server. Please delete it manually: http status 403"
    );
}

#[test]
fn create_failure_text_is_fixed() {
    assert_eq!(
        create_failure_text(),
        "The weekly session event could not be created. The scheduler is stopping; please fix it"
    );
}

#[test]
fn account_age_text_names_user_and_date() {
    assert_eq!(
        account_age_text("sam", "2020-01-01 00:00:00 UTC"),
        "sam's account was created at 2020-01-01 00:00:00 UTC"
    );
}
