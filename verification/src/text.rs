//! The texts the scheduler sends: reminder and announcement messages for the
//! announcement channel, failure notices for the admin channel, and the
//! account-age reply of the utility command. Every builder pins its result
//! down to an exact character sequence.

use vstd::prelude::*;
use vstd::string::StringExecFns;

verus! {

/// The character for a single decimal digit.
pub open spec fn digit_char(d: nat) -> char
    recommends
        d < 10,
{
    if d == 0 {
        '0'
    } else if d == 1 {
        '1'
    } else if d == 2 {
        '2'
    } else if d == 3 {
        '3'
    } else if d == 4 {
        '4'
    } else if d == 5 {
        '5'
    } else if d == 6 {
        '6'
    } else if d == 7 {
        '7'
    } else if d == 8 {
        '8'
    } else {
        '9'
    }
}

/// The decimal digits of `n`, most significant first, with no leading zeros
/// (a single `'0'` for zero).
pub open spec fn spec_decimal(n: nat) -> Seq<char>
    decreases n,
{
    if n < 10 {
        seq![digit_char(n)]
    } else {
        spec_decimal(n / 10).push(digit_char(n % 10))
    }
}

/// The one-character string for a single decimal digit.
fn digit_str(d: u64) -> (r: &'static str)
    requires
        d < 10,
    ensures
        r@ =~= seq![digit_char(d as nat)],
{
    proof {
        reveal_strlit("0");
        reveal_strlit("1");
        reveal_strlit("2");
        reveal_strlit("3");
        reveal_strlit("4");
        reveal_strlit("5");
        reveal_strlit("6");
        reveal_strlit("7");
        reveal_strlit("8");
        reveal_strlit("9");
    }
    if d == 0 {
        "0"
    } else if d == 1 {
        "1"
    } else if d == 2 {
        "2"
    } else if d == 3 {
        "3"
    } else if d == 4 {
        "4"
    } else if d == 5 {
        "5"
    } else if d == 6 {
        "6"
    } else if d == 7 {
        "7"
    } else if d == 8 {
        "8"
    } else {
        "9"
    }
}

/// `n` written in decimal.
pub fn decimal_string(n: u64) -> (r: String)
    ensures
        r@ == spec_decimal(n as nat),
    decreases n,
{
    let last = digit_str(n % 10);
    if n < 10 {
        let r = last.to_owned();
        proof {
            assert(r@ =~= spec_decimal(n as nat));
        }
        r
    } else {
        let prefix = decimal_string(n / 10);
        let r = prefix.concat(last);
        proof {
            assert(r@ =~= spec_decimal(n as nat));
        }
        r
    }
}

/// The deep link to a scheduled event, as the platform publishes it.
pub open spec fn spec_event_url(guild_id: nat, event_id: nat) -> Seq<char> {
    "https://discord.com/events/"@ + spec_decimal(guild_id) + "/"@ + spec_decimal(event_id)
}

/// The deep link to the scheduled event `event_id` of guild `guild_id`.
pub fn event_url(guild_id: u64, event_id: u64) -> (r: String)
    ensures
        r@ == spec_event_url(guild_id as nat, event_id as nat),
{
    let mut s = "https://discord.com/events/".to_owned();
    let guild = decimal_string(guild_id);
    s.append(guild.as_str());
    s.append("/");
    let event = decimal_string(event_id);
    s.append(event.as_str());
    proof {
        assert(s@ =~= spec_event_url(guild_id as nat, event_id as nat));
    }
    s
}

/// The announcement posted after a new event is created; it carries the deep
/// link that identifies the event.
pub open spec fn spec_announcement(guild_id: nat, event_id: nat) -> Seq<char> {
    "Hey @everyone, a new session has been scheduled. If you can join great, just click interested. \n"@
        + spec_event_url(guild_id, event_id)
}

/// The announcement for the newly created event `event_id` of `guild_id`.
pub fn announcement_text(guild_id: u64, event_id: u64) -> (r: String)
    ensures
        r@ == spec_announcement(guild_id as nat, event_id as nat),
{
    let mut s =
        "Hey @everyone, a new session has been scheduled. If you can join great, just click interested. \n".to_owned();
    let url = event_url(guild_id, event_id);
    s.append(url.as_str());
    s
}

/// The reminder sent eight hours before the session starts.
pub fn eight_hour_reminder_text() -> (r: String)
    ensures
        r@ == "Hey @everyone, the scheduled session today starts in 8 hours"@,
{
    "Hey @everyone, the scheduled session today starts in 8 hours".to_owned()
}

/// The reminder sent one hour before the session starts.
pub fn one_hour_reminder_text() -> (r: String)
    ensures
        r@ == "Hey @everyone, the scheduled session today starts in 1 hour"@,
{
    "Hey @everyone, the scheduled session today starts in 1 hour".to_owned()
}

/// The admin notice sent when deleting a stale event failed; `detail` is the
/// remote store's error rendered as text.
pub fn delete_failure_text(detail: &str) -> (r: String)
    ensures
        r@ == "There was a problem deleting the old event on the server. Please delete it manually: "@
            + detail@,
{
    let mut s =
        "There was a problem deleting the old event on the server. Please delete it manually: ".to_owned();
    s.append(detail);
    s
}

/// The admin notice sent when creating the weekly event failed, just before
/// the process gives up.
pub fn create_failure_text() -> (r: String)
    ensures
        r@ == "The weekly session event could not be created. The scheduler is stopping; please fix it"@,
{
    "The weekly session event could not be created. The scheduler is stopping; please fix it".to_owned()
}

/// The reply of the account-age command: when the user's account was created.
pub fn account_age_text(user_name: &str, created_at: &str) -> (r: String)
    ensures
        r@ == user_name@ + "'s account was created at "@ + created_at@,
{
    let mut s = user_name.to_owned();
    s.append("'s account was created at ");
    s.append(created_at);
    s
}

} // verus!
