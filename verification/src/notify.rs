//! The notification that is sent when an alert's rule fires.

use vstd::prelude::*;
use vstd::string::StringExecFns;
use crate::matcher::UserAlert;

verus! {

/// The accent colour of the notification.
pub const ACCENT_COLOR: u32 = 0xBD983A;

/// What is posted to an alert's endpoint.
#[derive(Debug)]
pub struct Notification {
    pub endpoint: String,
    pub url: String,
    pub title: String,
    pub description: String,
    pub color: u32,
    pub footer_text: String,
    pub footer_icon_url: String,
    pub author_name: String,
    pub author_icon_url: String,
}

/// The character of a digit.
pub open spec fn digit_char(d: nat) -> char {
    if d == 0 {
        '0'
    } else if d == 1 {
        '1'
    } else if d == 2 {
        '2'
    } else if d == 3 {
        '3'
    } else if d == 4 {
        '4'
    } else if d == 5 {
        '5'
    } else if d == 6 {
        '6'
    } else if d == 7 {
        '7'
    } else if d == 8 {
        '8'
    } else {
        '9'
    }
}

/// The decimal digits of a natural number, without leading zeros.
pub open spec fn digits(n: nat) -> Seq<char>
    decreases n,
{
    if n < 10 {
        seq![digit_char(n)]
    } else {
        digits(n / 10).push(digit_char(n % 10))
    }
}

/// The decimal text of an integer, with a minus sign where it is negative.
pub open spec fn decimal(n: int) -> Seq<char> {
    if n < 0 {
        seq!['-'] + digits((-n) as nat)
    } else {
        digits(n as nat)
    }
}

/// The address of the market page of an item on a world.
pub open spec fn market_url_text(item_id: i32, world_name: Seq<char>) -> Seq<char> {
    "https://universalis.app/market/"@ + decimal(item_id as int) + "?server="@ + world_name
}

/// The headline of a notification.
pub open spec fn title_text(item_name: Seq<char>, world_name: Seq<char>) -> Seq<char> {
    "Alert triggered for "@ + item_name + " on "@ + world_name
}

/// The footer of a notification.
pub open spec fn footer_text(alert_name: Seq<char>) -> Seq<char> {
    "universalis.app | "@ + alert_name + " | All prices include GST"@
}

/// The body of a notification: the rule as it is stored, the price that it
/// reported, and a link to the market page.
pub open spec fn description_text(trigger: Seq<char>, value: i32, url: Seq<char>) -> Seq<char> {
    "One of your alerts has been triggered for the following reason(s):\n```c\n"@ + trigger
        + "\n\nValue: "@ + decimal(value as int)
        + "```\nYou can view the item page on Universalis by clicking [this link]("@ + url + ")."@
}

/// The notification for an alert with an endpoint whose rule reported
/// `value` on an event of the given item and world.
pub open spec fn notification_for(
    alert: UserAlert,
    item_id: i32,
    item_name: Seq<char>,
    world_name: Seq<char>,
    value: i32,
    n: Notification,
) -> bool {
    &&& alert.discord_webhook == Some(n.endpoint)
    &&& n.url@ == market_url_text(item_id, world_name)
    &&& n.title@ == title_text(item_name, world_name)
    &&& n.description@ == description_text(alert.trigger@, value, n.url@)
    &&& n.color == ACCENT_COLOR
    &&& n.footer_text@ == footer_text(alert.name@)
    &&& n.footer_icon_url@ == "https://universalis.app/favicon.png"@
    &&& n.author_name@ == "Universalis Alert!"@
    &&& n.author_icon_url@ == "https://cdn.discordapp.com/emojis/474543539771015168.png"@
}

fn digit_text(d: u32) -> (s: &'static str)
    requires
        d < 10,
    ensures
        s@ == seq![digit_char(d as nat)],
{
    proof {
        reveal_strlit("0");
        reveal_strlit("1");
        reveal_strlit("2");
        reveal_strlit("3");
        reveal_strlit("4");
        reveal_strlit("5");
        reveal_strlit("6");
        reveal_strlit("7");
        reveal_strlit("8");
        reveal_strlit("9");
    }
    let s = if d == 0 {
        "0"
    } else if d == 1 {
        "1"
    } else if d == 2 {
        "2"
    } else if d == 3 {
        "3"
    } else if d == 4 {
        "4"
    } else if d == 5 {
        "5"
    } else if d == 6 {
        "6"
    } else if d == 7 {
        "7"
    } else if d == 8 {
        "8"
    } else {
        "9"
    };
    assert(s@ =~= seq![digit_char(d as nat)]);
    s
}

fn append_digits(n: u32, out: &mut String)
    ensures
        final(out)@ == old(out)@ + digits(n as nat),
    decreases n,
{
    if n >= 10 {
        append_digits(n / 10, out);
    }
    out.append(digit_text(n % 10));
    proof {
        assert(out@ =~= old(out)@ + digits(n as nat));
    }
}

/// Appends the decimal text of an integer.
pub fn append_decimal(n: i32, out: &mut String)
    ensures
        final(out)@ == old(out)@ + decimal(n as int),
{
    if n < 0 {
        proof {
            reveal_strlit("-");
        }
        out.append("-");
        let magnitude: u32 = (-(n as i64)) as u32;
        append_digits(magnitude, out);
        proof {
            assert(out@ =~= old(out)@ + decimal(n as int));
        }
    } else {
        append_digits(n as u32, out);
    }
}

/// The address of the market page of an item on a world.
pub fn get_universalis_url(item_id: i32, world_name: &str) -> (url: String)
    ensures
        url@ == market_url_text(item_id, world_name@),
{
    let mut url = String::from_str("https://universalis.app/market/");
    append_decimal(item_id, &mut url);
    url.append("?server=");
    url.append(world_name);
    url
}

/// The notification for an alert whose rule reported `value` on an event of
/// the given item and world, or `None` for an alert without an endpoint: such
/// an alert is never notified.
pub fn compose_notification(
    alert: &UserAlert,
    item_id: i32,
    item_name: &str,
    world_name: &str,
    value: i32,
) -> (r: Option<Notification>)
    ensures
        r is Some <==> alert.discord_webhook is Some,
        r matches Some(n) ==> notification_for(*alert, item_id, item_name@, world_name@, value, n),
{
    let endpoint = match &alert.discord_webhook {
        Some(endpoint) => endpoint.clone(),
        None => {
            return None;
        },
    };
    let url = get_universalis_url(item_id, world_name);

    let mut title = String::from_str("Alert triggered for ");
    title.append(item_name);
    title.append(" on ");
    title.append(world_name);

    let mut footer = String::from_str("universalis.app | ");
    footer.append(alert.name.as_str());
    footer.append(" | All prices include GST");

    let mut description = String::from_str(
        "One of your alerts has been triggered for the following reason(s):\n```c\n",
    );
    description.append(alert.trigger.as_str());
    description.append("\n\nValue: ");
    append_decimal(value, &mut description);
    description.append("```\nYou can view the item page on Universalis by clicking [this link](");
    description.append(url.as_str());
    description.append(").");

    Some(
        Notification {
            endpoint,
            url,
            title,
            description,
            color: ACCENT_COLOR,
            footer_text: footer,
            footer_icon_url: String::from_str("https://universalis.app/favicon.png"),
            author_name: String::from_str("Universalis Alert!"),
            author_icon_url: String::from_str("https://cdn.discordapp.com/emojis/474543539771015168.png"),
        },
    )
}

} // verus!
