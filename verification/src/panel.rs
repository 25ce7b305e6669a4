//! The node panel: which span it charts, the links its span buttons carry,
//! what state a node is shown in, and which channels and metrics get a chart.
use std::collections::BTreeSet;

use vstd::std_specs::btree::increasing_seq;
use vstd::std_specs::cmp::OrdSpec;

use vstd::prelude::*;
use vstd::string::StringExecFns;

use crate::clock::{nanos_between, whole_seconds, Moment, MAX_INSTANT_S, MIN_INSTANT_S};
use crate::enums::Metric;
use crate::templates::SpanChoice;
use crate::text::{push_signed_decimal, same_text, signed_decimal};

verus! {

/// A node that has not reported for longer than this is shown as silent.
pub const SILENCE_AFTER_SECONDS: i64 = 300;

/// The span keys a panel offers, in the order of its buttons; the first is the default.
pub open spec fn span_keys() -> Seq<Seq<char>> {
    seq!["6h"@, "24h"@, "7d"@, "90d"@]
}

/// The label on each span button.
pub open spec fn span_labels() -> Seq<Seq<char>> {
    seq!["6t"@, "24t"@, "7d"@, "90d"@]
}

/// The hours each span covers.
pub open spec fn span_hours() -> Seq<i64> {
    seq![6i64, 24, 168, 2160]
}

/// The span a requested key selects: itself when it is one of the offered
/// keys, else the default.
pub open spec fn chosen_key(asked: Option<Seq<char>>) -> Seq<char> {
    match asked {
        Some(key) => if span_keys().contains(key) {
            key
        } else {
            span_keys()[0]
        },
        None => span_keys()[0],
    }
}

/// The hours of an offered span key.
pub open spec fn hours_of(key: Seq<char>) -> i64 {
    if key == span_keys()[1] {
        span_hours()[1]
    } else if key == span_keys()[2] {
        span_hours()[2]
    } else if key == span_keys()[3] {
        span_hours()[3]
    } else {
        span_hours()[0]
    }
}

/// The metrics a panel charts unless asked to show everything.
pub open spec fn is_charted(metric: Metric) -> bool {
    metric == Metric::SignalStrength || metric == Metric::SignalToNoise || metric
        == Metric::DemodErrorRate
}

fn offered_key(asked: &str) -> (key: Option<&'static str>)
    ensures
        match key {
            Some(k) => span_keys().contains(asked@) && k@ == asked@,
            None => !span_keys().contains(asked@),
        },
{
    proof {
        reveal_strlit("6h");
        reveal_strlit("24h");
        reveal_strlit("7d");
        reveal_strlit("90d");
        assert(span_keys()[0] == "6h"@);
        assert(span_keys()[1] == "24h"@);
        assert(span_keys()[2] == "7d"@);
        assert(span_keys()[3] == "90d"@);
    }
    if same_text(asked, "6h") {
        Some("6h")
    } else if same_text(asked, "24h") {
        Some("24h")
    } else if same_text(asked, "7d") {
        Some("7d")
    } else if same_text(asked, "90d") {
        Some("90d")
    } else {
        proof {
            assert forall|i: int| 0 <= i < span_keys().len() implies span_keys()[i] != asked@ by {}
        }
        None
    }
}

/// What the panel is asked to show.
#[derive(Debug, Clone, Default)]
pub struct SpanQuery {
    /// One of the offered span keys. Anything else falls back to the default.
    pub span: Option<String>,
    /// `all` to chart every metric the node reported rather than the main three.
    pub metrics: Option<String>,
}

impl SpanQuery {
    pub open spec fn asked(&self) -> Option<Seq<char>> {
        match self.span {
            Some(s) => Some(s@),
            None => None,
        }
    }

    /// The span key in force.
    pub fn key(&self) -> (key: &'static str)
        ensures
            key@ == chosen_key(self.asked()),
    {
        proof {
            reveal_strlit("6h");
        }
        match &self.span {
            Some(asked) => match offered_key(asked.as_str()) {
                Some(key) => key,
                None => "6h",
            },
            None => "6h",
        }
    }

    /// The hours of history the span in force covers.
    pub fn hours(&self) -> (hours: i64)
        ensures
            hours == hours_of(chosen_key(self.asked())),
    {
        let key = self.key();
        proof {
            reveal_strlit("24h");
            reveal_strlit("7d");
            reveal_strlit("90d");
        }
        if same_text(key, "24h") {
            24
        } else if same_text(key, "7d") {
            168
        } else if same_text(key, "90d") {
            2160
        } else {
            6
        }
    }

    /// Whether every reported metric is charted.
    pub fn show_all(&self) -> (all: bool)
        ensures
            all == (self.metrics matches Some(m) && m@ == "all"@),
    {
        match &self.metrics {
            Some(metrics) => same_text(metrics.as_str(), "all"),
            None => false,
        }
    }
}

/// The query string a panel link carries: the span unless it is the default,
/// then `metrics=all` when every metric is shown.
pub open spec fn link_query(span: Seq<char>, show_all: bool) -> Seq<char> {
    let with_span = span != span_keys()[0];
    if with_span && show_all {
        "?span="@ + span + "&metrics=all"@
    } else if with_span {
        "?span="@ + span
    } else if show_all {
        "?metrics=all"@
    } else {
        Seq::empty()
    }
}

/// The page link and the fragment link for a node's panel at a span.
pub fn panel_link(node_id: i64, span: &str, show_all: bool) -> (links: (String, String))
    ensures
        links.0@ == "/nodes/"@ + signed_decimal(node_id as int) + link_query(span@, show_all),
        links.1@ == "/fragments/nodes/"@ + signed_decimal(node_id as int) + link_query(
            span@,
            show_all,
        ),
{
    proof {
        reveal_strlit("6h");
        reveal_strlit("?span=");
        reveal_strlit("&metrics=all");
        reveal_strlit("?metrics=all");
        assert(span_keys()[0] == "6h"@);
    }
    let with_span = !same_text(span, "6h");
    let mut query = String::new();
    if with_span {
        query.append("?span=");
        query.append(span);
        if show_all {
            query.append("&metrics=all");
        }
    } else if show_all {
        query.append("?metrics=all");
    }
    assert(query@ =~= link_query(span@, show_all));
    let mut page = String::from_str("/nodes/");
    push_signed_decimal(&mut page, node_id);
    page.append(query.as_str());
    let mut fragment = String::from_str("/fragments/nodes/");
    push_signed_decimal(&mut fragment, node_id);
    fragment.append(query.as_str());
    (page, fragment)
}

/// The page a panel link opens.
pub open spec fn page_url(node_id: i64, span: Seq<char>, show_all: bool) -> Seq<char> {
    "/nodes/"@ + signed_decimal(node_id as int) + link_query(span, show_all)
}

/// The fragment a panel link swaps in.
pub open spec fn fragment_url(node_id: i64, span: Seq<char>, show_all: bool) -> Seq<char> {
    "/fragments/nodes/"@ + signed_decimal(node_id as int) + link_query(span, show_all)
}

fn span_choice(node_id: i64, key: &'static str, label: &'static str, current: &str, show_all: bool) -> (choice: SpanChoice)
    ensures
        choice.label == label,
        choice.url@ == page_url(node_id, key@, show_all),
        choice.fragment@ == fragment_url(node_id, key@, show_all),
        choice.current == (key@ == current@),
{
    let (url, fragment) = panel_link(node_id, key, show_all);
    SpanChoice { label, url, fragment, current: same_text(key, current) }
}

/// The panel's span buttons, one per offered span in order, the one in force
/// marked current.
pub fn span_choices(node_id: i64, key: &str, show_all: bool) -> (choices: Vec<SpanChoice>)
    ensures
        choices@.len() == span_keys().len(),
        forall|i: int|
            #![trigger choices@[i]]
            0 <= i < choices@.len() ==> {
                &&& choices@[i].label@ == span_labels()[i]
                &&& choices@[i].url@ == page_url(node_id, span_keys()[i], show_all)
                &&& choices@[i].fragment@ == fragment_url(node_id, span_keys()[i], show_all)
                &&& choices@[i].current == (span_keys()[i] == key@)
            },
{
    proof {
        reveal_strlit("6h");
        reveal_strlit("24h");
        reveal_strlit("7d");
        reveal_strlit("90d");
        reveal_strlit("6t");
        reveal_strlit("24t");
    }
    let mut choices: Vec<SpanChoice> = Vec::new();
    choices.push(span_choice(node_id, "6h", "6t", key, show_all));
    choices.push(span_choice(node_id, "24h", "24t", key, show_all));
    choices.push(span_choice(node_id, "7d", "7d", key, show_all));
    choices.push(span_choice(node_id, "90d", "90d", key, show_all));
    choices
}

/// The button that switches between the main metrics and all of them.
pub fn metrics_toggle(node_id: i64, key: &str, show_all: bool) -> (toggle: SpanChoice)
    ensures
        toggle.label@ == (if show_all { "Vis kun hovedmålinger"@ } else { "Vis alle målinger"@ }),
        toggle.url@ == page_url(node_id, key@, !show_all),
        toggle.fragment@ == fragment_url(node_id, key@, !show_all),
        toggle.current == show_all,
{
    let (url, fragment) = panel_link(node_id, key, !show_all);
    let label = if show_all {
        "Vis kun hovedmålinger"
    } else {
        "Vis alle målinger"
    };
    SpanChoice { label, url, fragment, current: show_all }
}

/// How a node is shown: suspended, never seen, silent when more than
/// [`SILENCE_AFTER_SECONDS`] whole seconds have passed since it was last
/// heard from, or reporting.
pub open spec fn node_state(suspended: bool, last_seen_at: Option<Moment>, now: Moment) -> Seq<char> {
    if suspended {
        "suspended"@
    } else {
        match last_seen_at {
            None => "never seen"@,
            Some(at) => if whole_seconds(now.since_epoch() - at.since_epoch()) > SILENCE_AFTER_SECONDS {
                "silent"@
            } else {
                "reporting"@
            },
        }
    }
}

/// The state a node is drawn in, from its suspension flag and when it was
/// last heard from.
pub fn state_of(suspended: bool, last_seen_at: Option<Moment>, now: Moment) -> (state: &'static str)
    ensures
        state@ == node_state(suspended, last_seen_at, now),
{
    if suspended {
        return "suspended";
    }
    match last_seen_at {
        None => "never seen",
        Some(at) => {
            let elapsed = nanos_between(at, now);
            let limit: i128 = (SILENCE_AFTER_SECONDS as i128 + 1) * 1_000_000_000;
            proof {
                let d = elapsed as int;
                let s = SILENCE_AFTER_SECONDS as int;
                assert(whole_seconds(d) > s <==> d >= (s + 1) * 1_000_000_000) by (nonlinear_arith)
                    requires
                        whole_seconds(d) == if d >= 0 {
                            d / 1_000_000_000
                        } else {
                            -((-d) / 1_000_000_000)
                        },
                        s >= 0,
                ;
            }
            if elapsed >= limit {
                "silent"
            } else {
                "reporting"
            }
        },
    }
}

/// Position of a metric in the order the panel lists metrics in.
pub open spec fn metric_rank(metric: Metric) -> int {
    match metric {
        Metric::SignalStrength => 0,
        Metric::SignalToNoise => 1,
        Metric::CarrierOffset => 2,
        Metric::DemodErrorRate => 3,
        Metric::SpectrumOccupancy => 4,
    }
}

fn rank(metric: Metric) -> (r: u8)
    ensures
        r == metric_rank(metric),
{
    match metric {
        Metric::SignalStrength => 0,
        Metric::SignalToNoise => 1,
        Metric::CarrierOffset => 2,
        Metric::DemodErrorRate => 3,
        Metric::SpectrumOccupancy => 4,
    }
}

fn metric_at(r: u8) -> (metric: Metric)
    requires
        r < 5,
    ensures
        metric_rank(metric) == r,
        metric == metric_at_spec(r as int),
{
    if r == 0 {
        Metric::SignalStrength
    } else if r == 1 {
        Metric::SignalToNoise
    } else if r == 2 {
        Metric::CarrierOffset
    } else if r == 3 {
        Metric::DemodErrorRate
    } else {
        Metric::SpectrumOccupancy
    }
}

pub proof fn lemma_metric_rank_injective(a: Metric, b: Metric)
    ensures
        metric_rank(a) == metric_rank(b) ==> a == b,
{
}

/// Whether `channel_id` was measured with `metric` in the span.
pub open spec fn was_measured(measured: Seq<(i64, Metric)>, channel_id: i64, metric: Metric) -> bool {
    measured.contains((channel_id, metric))
}

/// Whether any metric was measured on `channel_id` in the span.
pub open spec fn has_measurements(measured: Seq<(i64, Metric)>, channel_id: i64) -> bool {
    exists|i: int| 0 <= i < measured.len() && #[trigger] measured[i].0 == channel_id
}

/// Ids a set hands out in increasing order are strictly increasing.
proof fn lemma_increasing_ids(order: Seq<&i64>)
    requires
        increasing_seq(order),
    ensures
        forall|i: int, j: int| 0 <= i < j < order.len() ==> order.unref()[i] < order.unref()[j],
{
    broadcast use vstd::std_specs::btree::group_btree_axioms;
    broadcast use vstd::laws_cmp::group_laws_cmp;

    assert(vstd::laws_cmp::obeys_cmp::<i64>());
    assert(vstd::laws_cmp::obeys_cmp::<&i64>());
    assert forall|i: int, j: int| 0 <= i < j < order.len() implies order.unref()[i] < order.unref()[j] by {
        assert(OrdSpec::cmp_spec(&order[i], &order[j]) is Less);
    }
}

/// The channels a panel lists: those assigned to the node and those measured
/// in the span, each once, in increasing id order.
pub fn wanted_channels(assigned: &Vec<i64>, measured: &Vec<(i64, Metric)>) -> (wanted: Vec<i64>)
    ensures
        forall|i: int, j: int| 0 <= i < j < wanted@.len() ==> wanted@[i] < wanted@[j],
        forall|id: i64|
            #[trigger] wanted@.contains(id) <==> (assigned@.contains(id) || has_measurements(
                measured@,
                id,
            )),
{
    broadcast use vstd::std_specs::btree::group_btree_axioms;

    let mut ids: BTreeSet<i64> = BTreeSet::new();
    let mut k: usize = 0;
    while k < assigned.len()
        invariant
            k <= assigned@.len(),
            ids@ == assigned@.take(k as int).to_set(),
        decreases assigned@.len() - k,
    {
        ids.insert(assigned[k]);
        proof {
            assert(assigned@.take(k + 1) == assigned@.take(k as int).push(assigned@[k as int]));
            assigned@.take(k as int).lemma_push_to_set_commute(assigned@[k as int]);
        }
        k = k + 1;
    }
    assert(assigned@.take(k as int) == assigned@);
    proof {
        assert forall|id: i64| ids@.contains(id) <==> assigned@.contains(id) by {
            assert(assigned@.to_set().contains(id) == assigned@.contains(id));
        }
    }
    let mut n: usize = 0;
    while n < measured.len()
        invariant
            n <= measured@.len(),
            forall|id: i64|
                #[trigger] ids@.contains(id) <==> (assigned@.contains(id) || measured_among(
                    measured@,
                    n as int,
                    id,
                )),
        decreases measured@.len() - n,
    {
        let ghost before = ids@;
        ids.insert(measured[n].0);
        proof {
            assert forall|id: i64|
                #[trigger] ids@.contains(id) <==> (assigned@.contains(id) || measured_among(
                    measured@,
                    n + 1,
                    id,
                )) by {
                if id == measured@[n as int].0 {
                    assert(measured@[n as int].0 == id);
                }
                if measured_among(measured@, n + 1, id) {
                    let i = choose|i: int| 0 <= i < n + 1 && #[trigger] measured@[i].0 == id;
                    if i < n {
                        assert(measured_among(measured@, n as int, id));
                    }
                }
            }
        }
        n = n + 1;
    }
    let mut wanted: Vec<i64> = Vec::new();
    for id in it: ids.iter()
        invariant
            it.seq().unref().to_set() == ids@,
            it.seq().unref().no_duplicates(),
            increasing_seq(it.seq()),
            wanted@ == it.seq().unref().take(it.index() as int),
            forall|i: int, j: int| 0 <= i < j < wanted@.len() ==> wanted@[i] < wanted@[j],
            it.index() == it.seq().len() ==> wanted@.to_set() == ids@,
    {
        proof {
            lemma_increasing_ids(it.seq());
        }
        wanted.push(*id);
        assert(wanted@ =~= it.seq().unref().take(it.index() + 1));
        assert(it.index() + 1 == it.seq().len() ==> wanted@ =~= it.seq().unref());
    }
    proof {
        assert forall|id: i64|
            #[trigger] wanted@.contains(id) <==> (assigned@.contains(id) || has_measurements(
                measured@,
                id,
            )) by {
            assert(wanted@.to_set().contains(id) == wanted@.contains(id));
            if has_measurements(measured@, id) {
                let i = choose|i: int| 0 <= i < measured@.len() && #[trigger] measured@[i].0 == id;
                assert(measured_among(measured@, n as int, id));
            }
        }
    }
    wanted
}

/// Whether one of the first `n` measurements was on channel `id`.
pub open spec fn measured_among(measured: Seq<(i64, Metric)>, n: int, id: i64) -> bool {
    exists|i: int| 0 <= i < n && #[trigger] measured[i].0 == id
}

/// Whether a channel's chart list holds `metric`: the main three when nothing
/// was measured on it, else what was measured, narrowed to the main three
/// unless every metric is shown.
pub open spec fn charts(measured: Seq<(i64, Metric)>, channel_id: i64, show_all: bool, metric: Metric) -> bool {
    if has_measurements(measured, channel_id) {
        was_measured(measured, channel_id, metric) && (show_all || is_charted(metric))
    } else {
        is_charted(metric)
    }
}

/// The metrics one channel gets a chart for, each once, in the panel's metric order.
pub fn charted_metrics(measured: &Vec<(i64, Metric)>, channel_id: i64, show_all: bool) -> (metrics: Vec<Metric>)
    ensures
        forall|m: Metric| #[trigger] metrics@.contains(m) <==> charts(measured@, channel_id, show_all, m),
        forall|i: int, j: int|
            0 <= i < j < metrics@.len() ==> metric_rank(#[trigger] metrics@[i]) < metric_rank(#[trigger] metrics@[j]),
{
    let mut any = false;
    let mut seen: [bool; 5] = [false, false, false, false, false];
    let mut k: usize = 0;
    while k < measured.len()
        invariant
            k <= measured@.len(),
            any <==> exists|i: int| 0 <= i < k && #[trigger] measured@[i].0 == channel_id,
            forall|r: int|
                0 <= r < 5 ==> (seen@[r] <==> exists|i: int|
                    0 <= i < k && #[trigger] measured@[i] == (channel_id, metric_at_spec(r))),
        decreases measured@.len() - k,
    {
        let (id, metric) = measured[k];
        if id == channel_id {
            any = true;
            let r = rank(metric);
            seen.set(r as usize, true);
            proof {
                assert(metric_at_spec(r as int) == metric);
            }
        }
        proof {
            assert forall|r: int|
                0 <= r < 5 implies (seen@[r] <==> exists|i: int|
                    0 <= i < k + 1 && #[trigger] measured@[i] == (channel_id, metric_at_spec(r))) by {
                if seen@[r] && !(exists|i: int|
                    0 <= i < k && #[trigger] measured@[i] == (channel_id, metric_at_spec(r))) {
                    assert(measured@[k as int] == (channel_id, metric_at_spec(r)));
                }
            }
        }
        k = k + 1;
    }
    let mut metrics: Vec<Metric> = Vec::new();
    let mut r: u8 = 0;
    while r < 5
        invariant
            k == measured@.len(),
            any <==> has_measurements(measured@, channel_id),
            forall|q: int|
                0 <= q < 5 ==> (seen@[q] <==> was_measured(measured@, channel_id, metric_at_spec(q))),
            r <= 5,
            forall|m: Metric|
                #[trigger] metrics@.contains(m) <==> (metric_rank(m) < r && charts(
                    measured@,
                    channel_id,
                    show_all,
                    m,
                )),
            forall|i: int, j: int|
                0 <= i < j < metrics@.len() ==> metric_rank(#[trigger] metrics@[i]) < metric_rank(
                    #[trigger] metrics@[j],
                ),
            forall|i: int| 0 <= i < metrics@.len() ==> metric_rank(#[trigger] metrics@[i]) < r,
        decreases 5 - r,
    {
        let metric = metric_at(r);
        proof {
            assert(metric_at_spec(r as int) == metric);
        }
        let main = is_main(metric);
        let wanted = if any {
            seen[r as usize] && (show_all || main)
        } else {
            main
        };
        let ghost before = metrics@;
        if wanted {
            metrics.push(metric);
        }
        proof {
            assert(wanted == charts(measured@, channel_id, show_all, metric));
            assert forall|m: Metric|
                #[trigger] metrics@.contains(m) <==> (metric_rank(m) < r + 1 && charts(
                    measured@,
                    channel_id,
                    show_all,
                    m,
                )) by {
                if metric_rank(m) == r {
                    lemma_metric_rank_injective(m, metric);
                    if before.contains(m) {
                        let i = before.index_of(m);
                        assert(metric_rank(before[i]) < r);
                    }
                    if wanted {
                        assert(metrics@[metrics@.len() - 1] == m);
                    }
                } else {
                    if wanted {
                        assert(metrics@ == before.push(metric));
                        if metrics@.contains(m) {
                            let i = metrics@.index_of(m);
                            if i == before.len() {
                                lemma_metric_rank_injective(m, metric);
                            } else {
                                assert(before[i] == m);
                            }
                        }
                        if before.contains(m) {
                            let i = before.index_of(m);
                            assert(metrics@[i] == m);
                        }
                    }
                }
            }
        }
        r = r + 1;
    }
    metrics
}

/// The metric at a position of the panel's metric order.
pub open spec fn metric_at_spec(r: int) -> Metric {
    if r == 0 {
        Metric::SignalStrength
    } else if r == 1 {
        Metric::SignalToNoise
    } else if r == 2 {
        Metric::CarrierOffset
    } else if r == 3 {
        Metric::DemodErrorRate
    } else {
        Metric::SpectrumOccupancy
    }
}

fn is_main(metric: Metric) -> (main: bool)
    ensures
        main == is_charted(metric),
{
    match metric {
        Metric::SignalStrength | Metric::SignalToNoise | Metric::DemodErrorRate => true,
        _ => false,
    }
}

} // verus!
