//! Which table a chart of a given span reads from, and how long a span a
//! chart request asks for.
use vstd::prelude::*;

use crate::enums::{Metric, RollupResolution};

verus! {

/// Longest span a request may ask for, in days.
pub const MAX_SPAN_DAYS: i64 = 730;

/// Span of a request that names none, in hours.
pub const DEFAULT_SPAN_HOURS: i64 = 24;

/// Most points one series returns.
pub const MAX_POINTS: i64 = 20_000;

/// How far back a chart reaches.
#[derive(Debug, Clone, Copy, PartialEq, Eq, Structural)]
pub struct SpanQuery {
    /// Hours of history. Defaults to a day, capped at two years.
    pub hours: Option<i64>,
}

impl SpanQuery {
    /// The span in hours: the request's, or a day, clamped to at least one
    /// hour and at most [`MAX_SPAN_DAYS`] days.
    pub open spec fn span_hours(&self) -> int {
        let asked = match self.hours {
            Some(hours) => hours as int,
            None => DEFAULT_SPAN_HOURS as int,
        };
        let at_least_one = if asked < 1 { 1 } else { asked };
        if at_least_one > MAX_SPAN_DAYS * 24 { MAX_SPAN_DAYS * 24 } else { at_least_one }
    }

    /// Clamping only moves a span that lies outside one hour to two years
    /// (17520 hours): a span inside that range is served as asked, a shorter
    /// one as an hour, a longer one as two years, and none as a day.
    pub proof fn lemma_span_within_range_is_kept(h: i64)
        ensures
            1 <= h <= 17_520 ==> (SpanQuery { hours: Some(h) }).span_hours() == h,
            h < 1 ==> (SpanQuery { hours: Some(h) }).span_hours() == 1,
            h > 17_520 ==> (SpanQuery { hours: Some(h) }).span_hours() == 17_520,
            (SpanQuery { hours: None }).span_hours() == 24,
    {
    }

    /// The span as a number of hours, clamped to something serveable.
    pub fn duration(&self) -> (hours: i64)
        ensures
            hours == self.span_hours(),
            1 <= hours <= MAX_SPAN_DAYS * 24,
    {
        let asked = match self.hours {
            Some(hours) => hours,
            None => DEFAULT_SPAN_HOURS,
        };
        let at_least_one = if asked < 1 { 1 } else { asked };
        if at_least_one > MAX_SPAN_DAYS * 24 {
            MAX_SPAN_DAYS * 24
        } else {
            at_least_one
        }
    }
}

/// Where a span's points come from.
#[derive(Debug, Clone, Copy, PartialEq, Eq, Structural)]
pub enum Source {
    /// The raw aggregation windows a node reported.
    Raw,
    /// Hourly rollup buckets.
    Hourly,
    /// Daily rollup buckets.
    Daily,
    /// Weekly rollup buckets.
    Weekly,
}

impl Source {
    /// The source that serves a span of `hours` without reading pruned rows:
    /// raw windows up to six hours, hourly buckets up to a week, daily
    /// buckets up to ninety days, weekly buckets beyond.
    pub open spec fn serving(hours: int) -> Source {
        if hours <= 6 {
            Source::Raw
        } else if hours <= 24 * 7 {
            Source::Hourly
        } else if hours <= 24 * 90 {
            Source::Daily
        } else {
            Source::Weekly
        }
    }

    /// The source that can serve a span of whole `hours` without reading pruned rows.
    pub fn for_span(hours: i64) -> (source: Source)
        ensures
            source == Source::serving(hours as int),
    {
        if hours <= 6 {
            Source::Raw
        } else if hours <= 24 * 7 {
            Source::Hourly
        } else if hours <= 24 * 90 {
            Source::Daily
        } else {
            Source::Weekly
        }
    }

    /// The rollup resolution this source reads, or `None` for raw windows.
    pub fn resolution(self) -> (resolution: Option<RollupResolution>)
        ensures
            resolution == match self {
                Source::Raw => None,
                Source::Hourly => Some(RollupResolution::Hourly),
                Source::Daily => Some(RollupResolution::Daily),
                Source::Weekly => Some(RollupResolution::Weekly),
            },
    {
        match self {
            Source::Raw => None,
            Source::Hourly => Some(RollupResolution::Hourly),
            Source::Daily => Some(RollupResolution::Daily),
            Source::Weekly => Some(RollupResolution::Weekly),
        }
    }
}

/// What a source is called, in Danish, for a chart's caption.
pub fn source_label(source: Source) -> (label: &'static str)
    ensures
        label@ == match source {
            Source::Raw => "rå målinger"@,
            Source::Hourly => "timeopsummering"@,
            Source::Daily => "dagsopsummering"@,
            Source::Weekly => "ugeopsummering"@,
        },
{
    match source {
        Source::Raw => "rå målinger",
        Source::Hourly => "timeopsummering",
        Source::Daily => "dagsopsummering",
        Source::Weekly => "ugeopsummering",
    }
}

/// A metric label that names no metric.
#[derive(Debug, Clone, PartialEq, Eq)]
pub struct UnknownMetric {
    /// The label as the request gave it.
    pub label: String,
}

/// The metric a request's label names.
pub fn parse_metric(label: &str) -> (parsed: Result<Metric, UnknownMetric>)
    ensures
        match Metric::parse_label(label@) {
            Some(metric) => parsed == Ok::<Metric, UnknownMetric>(metric),
            None => parsed matches Err(unknown) && unknown.label@ == label@,
        },
{
    match Metric::from_label(label) {
        Some(metric) => Ok(metric),
        None => Err(UnknownMetric { label: label.to_owned() }),
    }
}

/// Longer spans never read from a finer source.
pub proof fn lemma_sources_coarsen_with_span(shorter: int, longer: int)
    requires
        shorter <= longer,
    ensures
        source_rank(Source::serving(shorter)) <= source_rank(Source::serving(longer)),
{
}

/// How coarse a source is, from raw windows up to weekly buckets.
pub open spec fn source_rank(source: Source) -> int {
    match source {
        Source::Raw => 0,
        Source::Hourly => 1,
        Source::Daily => 2,
        Source::Weekly => 3,
    }
}

} // verus!
