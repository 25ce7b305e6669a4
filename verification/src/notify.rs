//! How an alarm is pushed to a phone: its title, its tags, its priority, and
//! the endpoint it is posted to.
use vstd::prelude::*;
use vstd::string::StringExecFns;

use crate::enums::Metric;
use crate::text::push_char;

verus! {

/// What one alarm looks like to a phone. `urgent` says whether the alarm's
/// severity reached the urgent level, and is `None` for an alarm without a
/// severity (a silent node).
#[derive(Debug, Clone)]
pub struct Notice {
    pub alarm_id: i64,
    pub node_id: i64,
    pub node_name: String,
    pub metric: Option<Metric>,
    pub urgent: Option<bool>,
    pub summary: String,
}

/// The title of a pushed alarm.
pub open spec fn title_of(metric: Option<Metric>, node_name: Seq<char>) -> Seq<char> {
    match metric {
        None => node_name + " is silent"@,
        Some(m) => m.label_of() + " on "@ + node_name,
    }
}

/// The title: what is wrong, and where.
pub fn title(notice: &Notice) -> (text: String)
    ensures
        text@ == title_of(notice.metric, notice.node_name@),
{
    match notice.metric {
        None => {
            let mut text = notice.node_name.clone();
            text.append(" is silent");
            text
        },
        Some(metric) => {
            let mut text = String::from_str(metric.label());
            text.append(" on ");
            text.append(notice.node_name.as_str());
            text
        },
    }
}

/// The tags of a pushed alarm: a no-entry sign for a silent node, a warning
/// sign for a metric, and a siren on top when it is urgent.
pub open spec fn tags_of(metric: Option<Metric>, urgent: Option<bool>) -> Seq<Seq<char>> {
    let first = if metric is None { "no_entry"@ } else { "warning"@ };
    if urgent == Some(true) {
        seq![first, "rotating_light"@]
    } else {
        seq![first]
    }
}

/// The emoji tags ntfy shows.
pub fn tags(notice: &Notice) -> (tags: Vec<&'static str>)
    ensures
        tags@.len() == tags_of(notice.metric, notice.urgent).len(),
        forall|i: int| 0 <= i < tags@.len() ==> (#[trigger] tags@[i])@ == tags_of(notice.metric, notice.urgent)[i],
{
    let mut tags: Vec<&'static str> = Vec::new();
    let first = match notice.metric {
        None => "no_entry",
        Some(_) => "warning",
    };
    tags.push(first);
    if notice.urgent == Some(true) {
        tags.push("rotating_light");
    }
    tags
}

/// The ntfy priority: high for a silent node, top for an urgent deviation,
/// default for a marginal one.
pub fn priority(notice: &Notice) -> (level: u8)
    ensures
        level == match notice.urgent {
            None => 4u8,
            Some(true) => 5u8,
            Some(false) => 3u8,
        },
{
    match notice.urgent {
        None => 4,
        Some(true) => 5,
        Some(false) => 3,
    }
}

/// `text` without the slashes it ends in.
pub open spec fn without_trailing_slashes(text: Seq<char>) -> Seq<char>
    decreases text.len(),
{
    if text.len() > 0 && text.last() == '/' {
        without_trailing_slashes(text.drop_last())
    } else {
        text
    }
}

/// Where alarms are posted: the base address with exactly one slash at the end.
pub fn endpoint(base_url: &str) -> (url: String)
    ensures
        url@ == without_trailing_slashes(base_url@).push('/'),
{
    let mut end = base_url.unicode_len();
    assert(base_url@.take(end as int) =~= base_url@);
    while end > 0 && base_url.get_char(end - 1) == '/'
        invariant
            end <= base_url@.len(),
            without_trailing_slashes(base_url@.take(end as int)) == without_trailing_slashes(
                base_url@,
            ),
        decreases end,
    {
        proof {
            assert(base_url@.take(end as int).drop_last() =~= base_url@.take(end - 1));
        }
        end = end - 1;
    }
    let mut url = base_url.substring_char(0, end).to_string();
    push_char(&mut url, '/');
    proof {
        assert(base_url@.subrange(0, end as int) =~= base_url@.take(end as int));
    }
    url
}

} // verus!
