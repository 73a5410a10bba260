//! The chart: its items, the layout of its slices, and the slice under the pointer.

use vstd::prelude::*;
use crate::color::{item_color, Color, PALETTE_SIZE};
use crate::layout::{
    end_angle, is_kept, kept_indices, kept_upto, kept_weights, lemma_kept_sum, lemma_kept_upto,
    lemma_kept_weights, lemma_slice_bounds, lemma_slices_apart, lemma_sum_push,
    lemma_sum_take_ordered, lemma_sum_take_step, lemma_turn_ordered, non_negative, pick,
    start_angle, sum, turn_after, FULL_TURN, MIN_WEIGHT_PARTS, SPACING,
};

verus! {

/// One category of the chart: a label, a weight, and the angles between
/// which its slice was last drawn. Weights are whole numbers of a unit of
/// the caller's choosing; only their shares of the total matter.
#[derive(Debug)]
pub struct PieChartItem {
    pub title: String,
    pub weight: i64,
    pub start_angle: u64,
    pub end_angle: u64,
}

/// Why an item was not added.
#[derive(Clone, Copy, Debug, PartialEq, Eq, Structural)]
pub enum ChartError {
    /// The item's weight is below zero.
    NegativeWeight,
    /// With the item, the weights would sum to more than a `u64` holds.
    WeightOverflow,
}

/// The weights of a sequence of items.
pub open spec fn weights_of(items: Seq<PieChartItem>) -> Seq<int> {
    Seq::new(items.len(), |i: int| items[i].weight as int)
}

/// One slice as it is to be drawn: a ring segment between two angles.
#[derive(Clone, Copy, Debug, PartialEq, Eq, Structural)]
pub struct Segment {
    pub color: Color,
    pub from_angle: u64,
    pub to_angle: u64,
}

/// The `k`-th segment of a chart that draws the weights `fw`.
pub open spec fn drawn_segment(fw: Seq<int>, k: int, highlighted: Option<int>) -> Segment {
    Segment {
        color: item_color(k, highlighted == Some(k)),
        from_angle: start_angle(fw, k) as u64,
        to_angle: end_angle(fw, k) as u64,
    }
}

/// Lengths that the chart hands out are in parts of this scale: tenths of
/// the unit in which the widget's size and the pointer are measured. Halves
/// and the inner radius are whole numbers of tenths.
pub const GEOMETRY_SCALE: i64 = 10;

/// Where the ring lies, in tenths of the unit of length.
#[derive(Clone, Copy, Debug, PartialEq, Eq, Structural)]
pub struct Geometry {
    pub center_x: i64,
    pub center_y: i64,
    pub outer_radius: i64,
    pub inner_radius: i64,
}

/// What a pointer event did: the item under the pointer, and whether the
/// chart has to be drawn again.
#[derive(Debug)]
pub struct Hover {
    pub item: Option<PieChartItem>,
    pub redraw: bool,
}

/// The smaller side of the widget.
pub open spec fn short_side(width: int, height: int) -> int {
    if width <= height {
        width
    } else {
        height
    }
}

/// The ring of a widget of the given size: its centre is the widget's, its
/// outer radius half the shorter side, its inner radius six tenths of the outer.
pub open spec fn ring_of(width: int, height: int) -> Geometry {
    Geometry {
        center_x: (5 * width) as i64,
        center_y: (5 * height) as i64,
        outer_radius: (5 * short_side(width, height)) as i64,
        inner_radius: (3 * short_side(width, height)) as i64,
    }
}

/// The square of the distance of the point from the widget's centre, in tenths.
pub open spec fn distance_squared(width: int, height: int, x: int, y: int) -> int {
    let dx = 10 * x - 5 * width;
    let dy = 10 * y - 5 * height;
    dx * dx + dy * dy
}

/// Whether the point lies on the ring: the widget has a size, and the
/// point's distance from the centre is between the inner and the outer
/// radius, both included. Distances are compared by their squares, in
/// tenths: there the outer radius is 5 times the shorter side, and the
/// inner radius 3 times.
pub open spec fn in_ring(width: int, height: int, x: int, y: int) -> bool {
    let side = short_side(width, height);
    let inner = 3 * side;
    let outer = 5 * side;
    &&& side > 0
    &&& inner * inner <= distance_squared(width, height, x, y) <= outer * outer
}

/// The angle as the slices are measured: an angle below zero has a full
/// turn added, any other stays as it is.
pub open spec fn normalized_angle(angle: int) -> int {
    if angle < 0 {
        angle + FULL_TURN
    } else {
        angle
    }
}

/// A position in the chart's exec form, as the view holds it.
pub open spec fn as_position(index: Option<usize>) -> Option<int> {
    match index {
        Some(i) => Some(i as int),
        None => None,
    }
}

/// The characters of an optional text.
pub open spec fn text_of(text: Option<String>) -> Option<Seq<char>> {
    match text {
        Some(t) => Some(t@),
        None => None,
    }
}

/// What a chart holds.
pub struct ChartView {
    /// The items, in the order in which they were added.
    pub items: Seq<PieChartItem>,
    /// The positions in `items` of the slices drawn last, in drawing order.
    pub slices: Seq<int>,
    /// The drawn slice under the pointer, as a position in `slices`.
    pub highlighted: Option<int>,
    /// The size at which the chart was drawn last.
    pub width: int,
    pub height: int,
    /// The text in the middle of the ring.
    pub title: Option<Seq<char>>,
}

impl ChartView {
    /// The chart without items, slices, highlight, size or title.
    pub open spec fn empty() -> ChartView {
        ChartView {
            items: Seq::empty(),
            slices: Seq::empty(),
            highlighted: None,
            width: 0,
            height: 0,
            title: None,
        }
    }

    /// The item behind the `k`-th drawn slice.
    pub open spec fn slice_item(self, k: int) -> PieChartItem {
        self.items[self.slices[k]]
    }

    /// What holds of every chart: weights are non-negative and their sum
    /// fits a `u64`; the drawn slices are items of the chart, in insertion
    /// order; each slice lies within the full turn, ends no earlier than it
    /// starts, and starts after every earlier slice has ended; the
    /// highlighted slice is one of the drawn ones.
    pub open spec fn valid(self) -> bool {
        &&& non_negative(weights_of(self.items))
        &&& sum(weights_of(self.items)) <= u64::MAX
        &&& forall|k: int|
            0 <= k < self.slices.len() ==> 0 <= #[trigger] self.slices[k] < self.items.len()
        &&& forall|j: int, k: int|
            0 <= j < k < self.slices.len() ==> #[trigger] self.slices[j] < #[trigger] self.slices[k]
        &&& forall|k: int|
            0 <= k < self.slices.len() ==> (#[trigger] self.slice_item(k)).start_angle
                <= self.slice_item(k).end_angle <= FULL_TURN
        &&& forall|j: int, k: int|
            0 <= j < k < self.slices.len() ==> (#[trigger] self.slice_item(j)).end_angle
                < (#[trigger] self.slice_item(k)).start_angle
        &&& match self.highlighted {
            Some(h) => 0 <= h < self.slices.len(),
            None => true,
        }
    }

    /// Whether a pointer at `(x, y)`, seen from the centre under `angle`,
    /// is on the slice of `item`.
    pub open spec fn item_at_point(self, item: PieChartItem, x: int, y: int, angle: int) -> bool {
        &&& in_ring(self.width, self.height, x, y)
        &&& item.start_angle <= normalized_angle(angle) <= item.end_angle
    }

    /// The first drawn slice from the `k`-th on that the pointer is on.
    pub open spec fn first_hit_from(self, x: int, y: int, angle: int, k: int) -> Option<int>
        decreases self.slices.len() - k,
    {
        if k < 0 || k >= self.slices.len() {
            None
        } else if self.item_at_point(self.slice_item(k), x, y, angle) {
            Some(k)
        } else {
            self.first_hit_from(x, y, angle, k + 1)
        }
    }

    /// The drawn slice under the pointer: the first one in drawing order
    /// that the pointer is on.
    pub open spec fn hit_test(self, x: int, y: int, angle: int) -> Option<int> {
        self.first_hit_from(x, y, angle, 0)
    }

    /// The chart after the pointer has moved to `(x, y)`: the slice under
    /// it is highlighted, or none.
    pub open spec fn after_pointer(self, x: int, y: int, angle: int) -> ChartView {
        ChartView { highlighted: self.hit_test(x, y, angle), ..self }
    }

    /// Whether moving the pointer to `(x, y)` changes the highlight, and
    /// with it what is drawn.
    pub open spec fn pointer_redraws(self, x: int, y: int, angle: int) -> bool {
        self.highlighted != self.hit_test(x, y, angle)
    }

    /// The chart after a layout of the items of `before`: the drawn slices
    /// are the items whose weight reaches the threshold, each with the
    /// angles that the layout gives it; titles and weights are as they
    /// were, and an item that is not drawn keeps its old angles too.
    pub open spec fn is_layout_of(self, before: ChartView) -> bool {
        let ws = weights_of(before.items);
        let fw = kept_weights(ws);
        &&& self.items.len() == before.items.len()
        &&& self.slices == kept_indices(ws)
        &&& forall|i: int|
            0 <= i < self.items.len() ==> (#[trigger] self.items[i]).title == before.items[i].title
                && self.items[i].weight == before.items[i].weight
        &&& forall|i: int|
            0 <= i < self.items.len() && !is_kept(ws[i], sum(ws)) ==> #[trigger] self.items[i]
                == before.items[i]
        &&& forall|k: int|
            0 <= k < self.slices.len() ==> (#[trigger] self.slice_item(k)).start_angle
                == start_angle(fw, k) && self.slice_item(k).end_angle == end_angle(fw, k)
    }
}

/// A ring chart.
#[derive(Debug)]
pub struct PieChart {
    items: Vec<PieChartItem>,
    total_weight: u64,
    slices: Vec<usize>,
    highlighted_item_index: Option<usize>,
    width: i32,
    height: i32,
    title: Option<String>,
}

impl View for PieChart {
    type V = ChartView;

    closed spec fn view(&self) -> ChartView {
        ChartView {
            items: self.items@,
            slices: Seq::new(self.slices@.len(), |k: int| self.slices@[k] as int),
            highlighted: as_position(self.highlighted_item_index),
            width: self.width as int,
            height: self.height as int,
            title: text_of(self.title),
        }
    }
}

impl PieChartItem {
    /// An item that has not been drawn yet.
    pub fn new(title: &str, weight: i64) -> (item: PieChartItem)
        ensures
            item.title@ == title@,
            item.weight == weight,
            item.start_angle == 0,
            item.end_angle == 0,
    {
        PieChartItem { title: title.to_owned(), weight, start_angle: 0, end_angle: 0 }
    }

    /// The label.
    pub fn title(&self) -> (title: &String)
        ensures
            *title == self.title,
    {
        &self.title
    }

    /// The weight.
    pub fn weight(&self) -> (weight: i64)
        ensures
            weight == self.weight,
    {
        self.weight
    }

    /// Where the slice was last drawn from, in nanoradians.
    pub fn start_angle(&self) -> (angle: u64)
        ensures
            angle == self.start_angle,
    {
        self.start_angle
    }

    /// Where the slice was last drawn to, in nanoradians.
    pub fn end_angle(&self) -> (angle: u64)
        ensures
            angle == self.end_angle,
    {
        self.end_angle
    }
}

impl Clone for PieChartItem {
    /// A copy with the same label, weight and angles.
    fn clone(&self) -> (copy: PieChartItem)
        ensures
            copy == *self,
    {
        PieChartItem {
            title: self.title.clone(),
            weight: self.weight,
            start_angle: self.start_angle,
            end_angle: self.end_angle,
        }
    }
}

impl Default for PieChart {
    /// An empty chart of no size.
    fn default() -> (chart: PieChart)
        ensures
            chart.wf(),
            chart@ == ChartView::empty(),
    {
        PieChart::new()
    }
}

impl PieChart {
    /// The sum of the weights as the chart keeps it.
    pub closed spec fn cached_total(&self) -> int {
        self.total_weight as int
    }

    /// The chart is valid, and the sum that it keeps is the sum of its weights.
    pub open spec fn wf(&self) -> bool {
        &&& self@.valid()
        &&& self.cached_total() == sum(weights_of(self@.items))
    }

    /// An empty chart of no size.
    pub fn new() -> (chart: PieChart)
        ensures
            chart.wf(),
            chart@ == ChartView::empty(),
    {
        proof {
            assert(Seq::new(0, |k: int| Seq::<usize>::empty()[k] as int) =~= Seq::<int>::empty());
            assert(weights_of(Seq::<PieChartItem>::empty()) =~= Seq::<int>::empty());
        }
        PieChart {
            items: Vec::new(),
            total_weight: 0,
            slices: Vec::new(),
            highlighted_item_index: None,
            width: 0,
            height: 0,
            title: None,
        }
    }

    /// Adds an item behind the others. The slices drawn last stay as they
    /// are until the chart is drawn again.
    pub fn add_item(&mut self, item: &PieChartItem) -> (res: Result<(), ChartError>)
        requires
            old(self).wf(),
        ensures
            final(self).wf(),
            res.is_ok() <==> 0 <= item.weight && sum(weights_of(old(self)@.items)) + item.weight
                <= u64::MAX,
            item.weight < 0 <==> res == Err::<(), ChartError>(ChartError::NegativeWeight),
            item.weight >= 0 && sum(weights_of(old(self)@.items)) + item.weight > u64::MAX <==> res
                == Err::<(), ChartError>(ChartError::WeightOverflow),
            res.is_err() ==> final(self)@ == old(self)@,
            res.is_ok() ==> final(self)@ == (ChartView {
                items: old(self)@.items.push(*item),
                ..old(self)@
            }),
    {
        if item.weight < 0 {
            return Err(ChartError::NegativeWeight);
        }
        let weight: u64 = item.weight as u64;
        if weight > u64::MAX - self.total_weight {
            return Err(ChartError::WeightOverflow);
        }
        let copy = item.clone();
        proof {
            let ws = weights_of(self.items@);
            assert(weights_of(self.items@.push(copy)) =~= ws.push(item.weight as int));
            lemma_sum_push(ws, item.weight as int);
        }
        self.items.push(copy);
        self.total_weight = self.total_weight + weight;
        proof {
            assert(final(self)@.slices =~= old(self)@.slices);
            assert forall|k: int| 0 <= k < self@.slices.len() implies #[trigger] self@.slice_item(k)
                == old(self)@.slice_item(k) by {}
        }
        Ok(())
    }

    /// Picks the colour of the slice at `index` among the drawn ones.
    pub fn get_item_color(&self, index: usize, highlighted: bool) -> (color: Color)
        ensures
            color == item_color(index as int, highlighted),
    {
        let (r, g, b): (u16, u16, u16) = match index % PALETTE_SIZE {
            0 => (0xe0, 0x1b, 0x24),
            1 => (0xff, 0x78, 0x00),
            2 => (0xf6, 0xd3, 0x2d),
            3 => (0x33, 0xd1, 0x7a),
            4 => (0x35, 0x84, 0xe4),
            _ => (0x91, 0x41, 0xac),
        };
        let k: u16 = if highlighted { 10 } else { 11 };
        Color { red: r * k, green: g * k, blue: b * k }
    }

    /// Lays the chart out for a widget of the given size and returns the
    /// segments to draw, in drawing order.
    ///
    /// The items whose weight is at least a hundredth of the total become
    /// slices; their weights are then shared out over the full turn. The
    /// highlight stays where the number of slices stays, and is dropped
    /// where it changes.
    pub fn draw_chart(&mut self, width: i32, height: i32) -> (segments: Vec<Segment>)
        requires
            old(self).wf(),
        ensures
            final(self).wf(),
            final(self)@.width == width,
            final(self)@.height == height,
            final(self)@.title == old(self)@.title,
            final(self)@.is_layout_of(old(self)@),
            final(self)@.highlighted == if final(self)@.slices.len() == old(self)@.slices.len() {
                old(self)@.highlighted
            } else {
                None
            },
            segments@.len() == final(self)@.slices.len(),
            forall|k: int|
                0 <= k < segments@.len() ==> #[trigger] segments@[k] == drawn_segment(
                    kept_weights(weights_of(old(self)@.items)),
                    k,
                    final(self)@.highlighted,
                ),
    {
        let n = self.items.len();
        let total = self.total_weight;
        let ghost before = self.items@;
        let ghost ws = weights_of(before);
        let ghost fw = kept_weights(ws);

        let mut kept: Vec<usize> = Vec::new();
        let mut kept_total: u64 = 0;
        let mut i: usize = 0;
        while i < n
            invariant
                i <= n,
                n == before.len(),
                self.items@ == before,
                self.title == old(self).title,
                self.slices == old(self).slices,
                self.highlighted_item_index == old(self).highlighted_item_index,
                self.total_weight == total,
                ws == weights_of(before),
                non_negative(ws),
                sum(ws) == total,
                kept@.len() == kept_upto(ws, total as int, i as int).len(),
                forall|k: int|
                    0 <= k < kept@.len() ==> kept@[k] as int == kept_upto(
                        ws,
                        total as int,
                        i as int,
                    )[k],
                kept_total == sum(pick(ws, kept_upto(ws, total as int, i as int))),
            decreases n - i,
        {
            assert(ws[i as int] >= 0);
            let weight: u64 = self.items[i].weight as u64;
            proof {
                lemma_kept_sum(ws, total as int, i as int + 1);
                lemma_sum_take_ordered(ws, i as int + 1, n as int);
            }
            if total > 0 && (weight as u128) * (MIN_WEIGHT_PARTS as u128) >= total as u128 {
                proof {
                    let prev = kept_upto(ws, total as int, i as int);
                    assert(pick(ws, prev.push(i as int)) =~= pick(ws, prev).push(ws[i as int]));
                    lemma_sum_push(pick(ws, prev), ws[i as int]);
                }
                kept.push(i);
                kept_total = kept_total + weight;
            }
            i += 1;
        }

        let m = kept.len();
        let highlighted: Option<usize> = if m == self.slices.len() {
            self.highlighted_item_index
        } else {
            None
        };
        let ghost lit = as_position(highlighted);
        proof {
            lemma_kept_upto(ws, total as int, n as int);
            lemma_kept_weights(ws);
            assert(fw.len() == m);
        }

        let mut segments: Vec<Segment> = Vec::new();
        let mut drawn_weight: u64 = 0;
        let mut reached: u64 = 0;
        let mut k: usize = 0;
        while k < m
            invariant
                k <= m,
                m == kept@.len(),
                m == fw.len(),
                n == before.len(),
                ws == weights_of(before),
                fw == kept_weights(ws),
                non_negative(ws),
                non_negative(fw),
                sum(ws) == total,
                kept_total == sum(fw),
                kept_indices(ws).len() == m,
                forall|j: int| 0 <= j < m ==> kept@[j] as int == kept_indices(ws)[j],
                forall|j: int| 0 <= j < m ==> 0 <= #[trigger] kept_indices(ws)[j] < n,
                forall|j: int| 0 <= j < m ==> is_kept(ws[#[trigger] kept_indices(ws)[j]], sum(ws)),
                forall|a: int, b: int|
                    0 <= a < b < m ==> #[trigger] kept_indices(ws)[a] < #[trigger] kept_indices(
                        ws,
                    )[b],
                self.items@.len() == n,
                self.title == old(self).title,
                self.total_weight == total,
                lit == as_position(highlighted),
                forall|i: int|
                    0 <= i < n ==> (#[trigger] self.items@[i]).title == before[i].title
                        && self.items@[i].weight == before[i].weight,
                forall|i: int|
                    0 <= i < n && !is_kept(ws[i], sum(ws)) ==> #[trigger] self.items@[i]
                        == before[i],
                forall|j: int|
                    0 <= j < k ==> (#[trigger] self.items@[kept_indices(ws)[j]]).start_angle
                        == start_angle(fw, j) && self.items@[kept_indices(ws)[j]].end_angle
                        == end_angle(fw, j),
                drawn_weight == sum(fw.take(k as int)),
                reached == turn_after(fw, k as int),
                segments@.len() == k,
                forall|j: int| 0 <= j < k ==> #[trigger] segments@[j] == drawn_segment(fw, j, lit),
            decreases m - k,
        {
            let index = kept[k];
            proof {
                assert(index as int == kept_indices(ws)[k as int]);
                assert(fw[k as int] == ws[index as int]);
                assert(ws[index as int] == before[index as int].weight);
                lemma_sum_take_step(fw, k as int);
                lemma_sum_take_ordered(fw, k as int + 1, m as int);
                lemma_slice_bounds(ws, k as int);
                lemma_turn_ordered(ws, k as int, k as int + 1);
            }
            let weight: u64 = self.items[index].weight as u64;
            drawn_weight = drawn_weight + weight;
            assert(drawn_weight as int * FULL_TURN as int <= u64::MAX as int * FULL_TURN as int)
                by (nonlinear_arith)
                requires
                    drawn_weight <= u64::MAX,
            ;
            let to_angle: u64 = ((drawn_weight as u128) * (FULL_TURN as u128) / (
            kept_total as u128)) as u64;
            let from_angle: u64 = reached + SPACING;
            let lit_here: bool = match highlighted {
                Some(h) => h == k,
                None => false,
            };
            let color = self.get_item_color(k, lit_here);
            self.items[index].start_angle = from_angle;
            self.items[index].end_angle = to_angle;
            segments.push(Segment { color, from_angle, to_angle });
            reached = to_angle;
            k += 1;
        }

        self.slices = kept;
        self.highlighted_item_index = highlighted;
        self.width = width;
        self.height = height;
        proof {
            assert(self@.slices =~= kept_indices(ws));
            assert(weights_of(self@.items) =~= ws);
            assert forall|j: int| 0 <= j < m implies (#[trigger] self@.slice_item(j)).start_angle
                == start_angle(fw, j) && self@.slice_item(j).end_angle == end_angle(fw, j) by {
                assert(self@.slice_item(j) == self.items@[kept_indices(ws)[j]]);
            }
            assert forall|j: int| 0 <= j < m implies (#[trigger] self@.slice_item(j)).start_angle
                <= self@.slice_item(j).end_angle <= FULL_TURN by {
                lemma_slice_bounds(ws, j);
            }
            assert forall|a: int, b: int| 0 <= a < b < m implies (#[trigger] self@.slice_item(
                a,
            )).end_angle < (#[trigger] self@.slice_item(b)).start_angle by {
                lemma_slices_apart(ws, a, b);
            }
        }
        segments
    }

    /// Whether the pointer at `(x, y)` is on the slice of `item`. `angle` is
    /// the direction of the pointer as seen from the centre of the widget,
    /// in nanoradians, between minus a half turn and a half turn.
    pub fn item_at_point(&self, item: &PieChartItem, x: i32, y: i32, angle: i64) -> (hit: bool)
        ensures
            hit == self@.item_at_point(*item, x as int, y as int, angle as int),
    {
        let side: i128 = if self.width <= self.height {
            self.width as i128
        } else {
            self.height as i128
        };
        if side <= 0 {
            return false;
        }
        let dx: i128 = 10 * (x as i128) - 5 * (self.width as i128);
        let dy: i128 = 10 * (y as i128) - 5 * (self.height as i128);
        let inner: i128 = 3 * side;
        let outer: i128 = 5 * side;
        assert(0 <= dx * dx <= 0x1_0000_0000_0000_0000_0000 && 0 <= dy * dy
            <= 0x1_0000_0000_0000_0000_0000 && 0 <= inner * inner <= 0x1_0000_0000_0000_0000_0000
            && 0 <= outer * outer <= 0x1_0000_0000_0000_0000_0000) by (nonlinear_arith)
            requires
                -0x100_0000_0000 <= dx <= 0x100_0000_0000,
                -0x100_0000_0000 <= dy <= 0x100_0000_0000,
                0 <= inner <= 0x100_0000_0000,
                0 <= outer <= 0x100_0000_0000,
        ;
        let distance_squared: i128 = dx * dx + dy * dy;
        if distance_squared > outer * outer || distance_squared < inner * inner {
            return false;
        }
        let turned: i128 = if angle < 0 {
            angle as i128 + FULL_TURN as i128
        } else {
            angle as i128
        };
        turned >= item.start_angle as i128 && turned <= item.end_angle as i128
    }

    /// The position among the drawn slices of the one under the pointer.
    pub fn hit_test(&self, x: i32, y: i32, angle: i64) -> (hit: Option<usize>)
        requires
            self.wf(),
        ensures
            as_position(hit) == self@.hit_test(x as int, y as int, angle as int),
    {
        let count = self.slices.len();
        let mut k: usize = 0;
        while k < count
            invariant
                k <= count,
                count == self@.slices.len(),
                self.wf(),
                self@.hit_test(x as int, y as int, angle as int) == self@.first_hit_from(
                    x as int,
                    y as int,
                    angle as int,
                    k as int,
                ),
            decreases count - k,
        {
            let index = self.slices[k];
            assert(index as int == self@.slices[k as int]);
            if self.item_at_point(&self.items[index], x, y, angle) {
                return Some(k);
            }
            k += 1;
        }
        None
    }

    /// Moves the highlight, and says whether that changed it: only then is
    /// the chart to be drawn again.
    pub fn set_highlighted_item_index(&mut self, highlighted_item_index: Option<usize>) -> (redraw:
        bool)
        requires
            old(self).wf(),
            match highlighted_item_index {
                Some(h) => h < old(self)@.slices.len(),
                None => true,
            },
        ensures
            final(self).wf(),
            final(self)@ == (ChartView {
                highlighted: as_position(highlighted_item_index),
                ..old(self)@
            }),
            redraw == (old(self)@.highlighted != as_position(highlighted_item_index)),
    {
        let same: bool = match (self.highlighted_item_index, highlighted_item_index) {
            (Some(a), Some(b)) => a == b,
            (None, None) => true,
            _ => false,
        };
        if same {
            return false;
        }
        self.highlighted_item_index = highlighted_item_index;
        proof {
            assert(final(self)@.slices =~= old(self)@.slices);
            assert forall|k: int| 0 <= k < self@.slices.len() implies #[trigger] self@.slice_item(k)
                == old(self)@.slice_item(k) by {}
        }
        true
    }

    /// Handles a pointer at `(x, y)`, moved or pressed: the slice under it
    /// becomes the highlighted one, or none where it is on no slice. Hands
    /// back the item under the pointer, and whether the highlight changed.
    pub fn highlight_item_at_point(&mut self, x: i32, y: i32, angle: i64) -> (hover: Hover)
        requires
            old(self).wf(),
        ensures
            final(self).wf(),
            final(self)@ == old(self)@.after_pointer(x as int, y as int, angle as int),
            hover.redraw == old(self)@.pointer_redraws(x as int, y as int, angle as int),
            hover.item == match old(self)@.hit_test(x as int, y as int, angle as int) {
                Some(k) => Some(old(self)@.slice_item(k)),
                None => None,
            },
    {
        let hit = self.hit_test(x, y, angle);
        proof {
            self@.lemma_hit_test_is_first(x as int, y as int, angle as int);
        }
        let item: Option<PieChartItem> = match hit {
            Some(k) => {
                let index = self.slices[k];
                assert(index as int == self@.slices[k as int]);
                Some(self.items[index].clone())
            },
            None => None,
        };
        let redraw = self.set_highlighted_item_index(hit);
        Hover { item, redraw }
    }

    /// Where the ring was drawn last.
    pub fn geometry(&self) -> (ring: Geometry)
        ensures
            ring == ring_of(self@.width, self@.height),
    {
        let side: i64 = if self.width <= self.height {
            self.width as i64
        } else {
            self.height as i64
        };
        Geometry {
            center_x: 5 * (self.width as i64),
            center_y: 5 * (self.height as i64),
            outer_radius: 5 * side,
            inner_radius: 3 * side,
        }
    }

    /// Sets the text in the middle of the ring.
    pub fn set_title(&mut self, title: Option<String>)
        requires
            old(self).wf(),
        ensures
            final(self).wf(),
            final(self)@ == (ChartView { title: text_of(title), ..old(self)@ }),
    {
        self.title = title;
        proof {
            assert(final(self)@.slices =~= old(self)@.slices);
            assert forall|k: int| 0 <= k < self@.slices.len() implies #[trigger] self@.slice_item(k)
                == old(self)@.slice_item(k) by {}
        }
    }

    /// The text in the middle of the ring.
    pub fn title(&self) -> (title: &Option<String>)
        ensures
            text_of(*title) == self@.title,
    {
        &self.title
    }

    /// The items, in the order in which they were added.
    pub fn items(&self) -> (items: &Vec<PieChartItem>)
        ensures
            items@ == self@.items,
    {
        &self.items
    }

    /// The positions among the items of the slices drawn last.
    pub fn slices(&self) -> (slices: &Vec<usize>)
        ensures
            slices@.len() == self@.slices.len(),
            forall|k: int| 0 <= k < slices@.len() ==> slices@[k] as int == self@.slices[k],
    {
        &self.slices
    }

    /// The highlighted slice, as a position among the drawn ones.
    pub fn highlighted_item_index(&self) -> (index: Option<usize>)
        ensures
            as_position(index) == self@.highlighted,
    {
        self.highlighted_item_index
    }

    /// Removes every item, and with them the slices and the highlight.
    pub fn clear(&mut self)
        requires
            old(self).wf(),
        ensures
            final(self).wf(),
            final(self)@ == (ChartView {
                items: Seq::empty(),
                slices: Seq::empty(),
                highlighted: None,
                ..old(self)@
            }),
    {
        self.items.clear();
        self.slices.clear();
        self.total_weight = 0;
        self.highlighted_item_index = None;
        proof {
            assert(self@.slices =~= Seq::<int>::empty());
            assert(self@.items =~= Seq::<PieChartItem>::empty());
            assert(weights_of(self@.items) =~= Seq::<int>::empty());
        }
    }
}

impl ChartView {
    /// The hit test names the first slice that the pointer is on, and none
    /// exactly where it is on no slice.
    pub proof fn lemma_hit_test_is_first(self, x: int, y: int, angle: int)
        ensures
            match self.hit_test(x, y, angle) {
                Some(k) => {
                    &&& 0 <= k < self.slices.len()
                    &&& self.item_at_point(self.slice_item(k), x, y, angle)
                    &&& forall|j: int|
                        0 <= j < k ==> !self.item_at_point(#[trigger] self.slice_item(j), x, y, angle)
                },
                None => forall|j: int|
                    0 <= j < self.slices.len() ==> !self.item_at_point(
                        #[trigger] self.slice_item(j),
                        x,
                        y,
                        angle,
                    ),
            },
    {
        self.lemma_first_hit_from(x, y, angle, 0);
    }

    proof fn lemma_first_hit_from(self, x: int, y: int, angle: int, from: int)
        requires
            0 <= from,
        ensures
            match self.first_hit_from(x, y, angle, from) {
                Some(k) => {
                    &&& from <= k < self.slices.len()
                    &&& self.item_at_point(self.slice_item(k), x, y, angle)
                    &&& forall|j: int|
                        from <= j < k ==> !self.item_at_point(
                            #[trigger] self.slice_item(j),
                            x,
                            y,
                            angle,
                        )
                },
                None => forall|j: int|
                    from <= j < self.slices.len() ==> !self.item_at_point(
                        #[trigger] self.slice_item(j),
                        x,
                        y,
                        angle,
                    ),
            },
        decreases self.slices.len() - from,
    {
        if from < self.slices.len() && !self.item_at_point(self.slice_item(from), x, y, angle) {
            self.lemma_first_hit_from(x, y, angle, from + 1);
        }
    }

    /// A pointer on the ring, under an angle within a drawn slice, hits that slice.
    pub proof fn lemma_hit_inside(self, k: int, x: int, y: int, angle: int)
        requires
            self.valid(),
            0 <= k < self.slices.len(),
            in_ring(self.width, self.height, x, y),
            self.slice_item(k).start_angle <= normalized_angle(angle) <= self.slice_item(
                k,
            ).end_angle,
        ensures
            self.hit_test(x, y, angle) == Some(k),
    {
        self.lemma_hit_test_is_first(x, y, angle);
        assert(self.item_at_point(self.slice_item(k), x, y, angle));
        assert forall|j: int| 0 <= j < self.slices.len() && j != k implies !self.item_at_point(
            #[trigger] self.slice_item(j),
            x,
            y,
            angle,
        ) by {
            if j < k {
                assert(self.slice_item(j).end_angle < self.slice_item(k).start_angle);
            } else {
                assert(self.slice_item(k).end_angle < self.slice_item(j).start_angle);
            }
        }
    }

    /// A pointer off the ring, nearer to the centre than the inner radius
    /// or farther than the outer, hits nothing, whatever the angle; nor
    /// does any pointer on a widget without a size.
    pub proof fn lemma_miss_off_ring(self, x: int, y: int, angle: int)
        requires
            !in_ring(self.width, self.height, x, y),
        ensures
            self.hit_test(x, y, angle) == None::<int>,
    {
        self.lemma_hit_test_is_first(x, y, angle);
    }

    /// What the pointer hits does not depend on the highlight or the title.
    pub proof fn lemma_hit_test_same(self, other: ChartView, x: int, y: int, angle: int, from: int)
        requires
            self.items == other.items,
            self.slices == other.slices,
            self.width == other.width,
            self.height == other.height,
        ensures
            self.first_hit_from(x, y, angle, from) == other.first_hit_from(x, y, angle, from),
        decreases self.slices.len() - from,
    {
        if 0 <= from < self.slices.len() {
            self.lemma_hit_test_same(other, x, y, angle, from + 1);
        }
    }

    /// A pointer that moves to where it already is changes nothing: after
    /// one move to a point, a second move to the same point leaves the chart
    /// as it is and asks for no redraw.
    pub proof fn lemma_pointer_idempotent(self, x: int, y: int, angle: int)
        ensures
            self.after_pointer(x, y, angle).after_pointer(x, y, angle) == self.after_pointer(
                x,
                y,
                angle,
            ),
            !self.after_pointer(x, y, angle).pointer_redraws(x, y, angle),
    {
        self.after_pointer(x, y, angle).lemma_hit_test_same(self, x, y, angle, 0);
    }
}

} // verus!
