//! What the window shows of a usage report: one row per application, the
//! chart's items, and the total in the chart's title.

use vstd::prelude::*;
use crate::layout::{lemma_sum_push, lemma_sum_take_ordered, non_negative, sum};
use crate::pie_chart::{weights_of, ChartError, ChartView, PieChart, PieChartItem};

verus! {

/// How long one application was in use, in nanoseconds.
#[derive(Debug)]
pub struct AppUsage {
    pub app: String,
    pub nanos: u64,
}

/// What the window is told.
#[derive(Debug)]
pub enum Message {
    /// The usage of each application over the chosen days.
    AppsUsage(Vec<AppUsage>),
}

/// One row of the list beside the chart.
#[derive(Debug)]
pub struct UsageRow {
    pub app: String,
    pub duration: String,
}

/// The text that `humantime` writes for a duration of whole seconds, such as
/// `2h 37m`. The crate documents the text as one that its own parser reads
/// back and leaves its exact make-up open, so it is named here and not
/// spelled out.
pub uninterp spec fn formatted_seconds(secs: u64) -> Seq<char>;

/// Writes a duration of whole seconds for a reader: what
/// `humantime::format_duration` displays for `Duration::from_secs(secs)`.
/// Trusted, not proved: that this text depends on the seconds alone.
#[verifier::external_body]
fn format_seconds(secs: u64) -> (text: String)
    ensures
        text@ == formatted_seconds(secs),
{
    humantime::format_duration(std::time::Duration::from_secs(secs)).to_string()
}

/// The durations of a report, in nanoseconds.
pub open spec fn nanos_of(usages: Seq<AppUsage>) -> Seq<int> {
    Seq::new(usages.len(), |i: int| usages[i].nanos as int)
}

/// Nanoseconds as whole seconds, the rest dropped.
pub open spec fn whole_seconds(nanos: int) -> int {
    nanos / 1_000_000_000
}

/// Nanoseconds as seconds, rounded to the nearest, a half upwards.
pub open spec fn rounded_seconds(nanos: int) -> int {
    (nanos + 500_000_000) / 1_000_000_000
}

/// Whether a chart can hold the report: each duration fits a weight, and
/// together they fit the chart's sum.
pub open spec fn fits_chart(usages: Seq<AppUsage>) -> bool {
    &&& forall|i: int| 0 <= i < usages.len() ==> (#[trigger] usages[i]).nanos <= i64::MAX
    &&& sum(nanos_of(usages)) <= u64::MAX
}

/// The chart's item for one application: its name, its nanoseconds as the
/// weight, and no angles yet.
pub open spec fn is_item_of(item: PieChartItem, usage: AppUsage) -> bool {
    &&& item.title@ == usage.app@
    &&& item.weight == usage.nanos
    &&& item.start_angle == 0
    &&& item.end_angle == 0
}

/// The row for one application: its name, and its whole seconds as text.
pub open spec fn is_row_of(row: UsageRow, usage: AppUsage) -> bool {
    &&& row.app@ == usage.app@
    &&& row.duration@ == formatted_seconds(whole_seconds(usage.nanos as int) as u64)
}

/// The sum of the report's durations, where a `u64` holds it.
pub fn total_nanos(usages: &Vec<AppUsage>) -> (total: Option<u64>)
    ensures
        total.is_some() <==> sum(nanos_of(usages@)) <= u64::MAX,
        total matches Some(t) ==> t == sum(nanos_of(usages@)),
{
    let ghost ns = nanos_of(usages@);
    let mut total: u64 = 0;
    let mut i: usize = 0;
    proof {
        assert(ns.take(0) =~= Seq::<int>::empty());
    }
    while i < usages.len()
        invariant
            i <= usages.len(),
            ns == nanos_of(usages@),
            non_negative(ns),
            total == sum(ns.take(i as int)),
        decreases usages.len() - i,
    {
        let nanos = usages[i].nanos;
        proof {
            assert(ns.take(i as int + 1) =~= ns.take(i as int).push(nanos as int));
            lemma_sum_push(ns.take(i as int), nanos as int);
            lemma_sum_take_ordered(ns, i as int + 1, ns.len() as int);
        }
        if nanos > u64::MAX - total {
            return None;
        }
        total = total + nanos;
        i += 1;
    }
    proof {
        assert(ns.take(ns.len() as int) =~= ns);
    }
    Some(total)
}

/// Nanoseconds as seconds, rounded to the nearest, a half upwards.
pub fn round_to_seconds(nanos: u64) -> (secs: u64)
    ensures
        secs == rounded_seconds(nanos as int),
{
    let secs: u64 = nanos / 1_000_000_000;
    let rest: u64 = nanos % 1_000_000_000;
    if rest >= 500_000_000 {
        secs + 1
    } else {
        secs
    }
}

/// The chart's title for a total of nanoseconds: the total as text,
/// rounded to the second.
pub fn total_title(total_nanos: u64) -> (title: String)
    ensures
        title@ == formatted_seconds(rounded_seconds(total_nanos as int) as u64),
{
    format_seconds(round_to_seconds(total_nanos))
}

/// Shows a usage report: the chart's items are replaced by one item per
/// application, in the report's order, its title becomes the total, and the
/// rows of the list are handed back. A report that the chart cannot hold
/// is refused and changes nothing.
pub fn handle_message(chart: &mut PieChart, msg: &Message) -> (res: Result<
    Vec<UsageRow>,
    ChartError,
>)
    requires
        old(chart).wf(),
    ensures
        final(chart).wf(),
        match *msg {
            Message::AppsUsage(usages) => {
                &&& res.is_ok() <==> fits_chart(usages@)
                &&& res.is_err() ==> res == Err::<Vec<UsageRow>, ChartError>(
                    ChartError::WeightOverflow,
                ) && final(chart)@ == old(chart)@
                &&& res matches Ok(rows) ==> {
                    &&& rows@.len() == usages@.len()
                    &&& forall|i: int|
                        0 <= i < rows@.len() ==> is_row_of(#[trigger] rows@[i], usages@[i])
                    &&& final(chart)@.items.len() == usages@.len()
                    &&& forall|i: int|
                        0 <= i < usages@.len() ==> is_item_of(
                            #[trigger] final(chart)@.items[i],
                            usages@[i],
                        )
                    &&& final(chart)@.slices.len() == 0
                    &&& final(chart)@.highlighted.is_none()
                    &&& final(chart)@.width == old(chart)@.width
                    &&& final(chart)@.height == old(chart)@.height
                    &&& final(chart)@.title == Some(
                        formatted_seconds(
                            rounded_seconds(sum(nanos_of(usages@))) as u64,
                        ),
                    )
                }
            },
        },
{
    match msg {
        Message::AppsUsage(usages) => {
            let ghost ns = nanos_of(usages@);
            let count = usages.len();
            let mut i: usize = 0;
            while i < count
                invariant
                    i <= count,
                    count == usages@.len(),
                    *chart == *old(chart),
                    chart.wf(),
                    *msg == Message::AppsUsage(*usages),
                    forall|j: int| 0 <= j < i ==> (#[trigger] usages@[j]).nanos <= i64::MAX,
                decreases count - i,
            {
                if usages[i].nanos > i64::MAX as u64 {
                    return Err(ChartError::WeightOverflow);
                }
                i += 1;
            }
            let total: u64 = match total_nanos(usages) {
                Some(total) => total,
                None => {
                    return Err(ChartError::WeightOverflow);
                },
            };

            chart.clear();
            let mut rows: Vec<UsageRow> = Vec::new();
            let mut i: usize = 0;
            proof {
                assert(ns.take(0) =~= Seq::<int>::empty());
                assert(weights_of(chart@.items) =~= ns.take(0));
            }
            while i < count
                invariant
                    i <= count,
                    count == usages@.len(),
                    ns == nanos_of(usages@),
                    non_negative(ns),
                    fits_chart(usages@),
                    chart.wf(),
                    chart@.items.len() == i,
                    weights_of(chart@.items) == ns.take(i as int),
                    forall|j: int| 0 <= j < i ==> is_item_of(#[trigger] chart@.items[j], usages@[j]),
                    chart@.slices.len() == 0,
                    chart@.highlighted.is_none(),
                    chart@.width == old(chart)@.width,
                    chart@.height == old(chart)@.height,
                    rows@.len() == i,
                    forall|j: int| 0 <= j < i ==> is_row_of(#[trigger] rows@[j], usages@[j]),
                decreases count - i,
            {
                let usage = &usages[i];
                proof {
                    assert(usages@[i as int].nanos <= i64::MAX);
                    assert(ns.take(i as int + 1) =~= ns.take(i as int).push(usage.nanos as int));
                    lemma_sum_push(ns.take(i as int), usage.nanos as int);
                    lemma_sum_take_ordered(ns, i as int + 1, ns.len() as int);
                }
                let duration = format_seconds(usage.nanos / 1_000_000_000);
                rows.push(UsageRow { app: usage.app.clone(), duration });
                let item = PieChartItem::new(usage.app.as_str(), usage.nanos as i64);
                let ghost before = chart@;
                let added = chart.add_item(&item);
                proof {
                    assert(chart@.items == before.items.push(item));
                    assert(weights_of(chart@.items) =~= ns.take(i as int + 1));
                }
                i += 1;
            }
            chart.set_title(Some(total_title(total)));
            Ok(rows)
        },
    }
}

} // verus!
