//! Painting the vertex colors of a model.

use vstd::prelude::*;

use crate::folds::lemma_take_next;
use crate::physics::Extent;
use crate::scalar::{lifted, scalar, Scalar, ONE, ZERO};
use crate::text::{concat, decimal, decimal_digits};

verus! {

/// 0.5: the radius of the brush at first.
pub const START_RADIUS: u32 = 0x3f00_0000;

/// 0.05 and 5: the bounds of the radius.
pub const LEAST_RADIUS: u32 = 0x3d4c_cccd;

pub const MOST_RADIUS: u32 = 0x40a0_0000;

/// The layers that can be painted: four masks, and the occlusion and glow.
#[derive(Clone, Copy, PartialEq, Eq, Structural, Debug)]
pub enum PaintLayer {
    Masks0,
    Masks1,
}

impl Default for PaintLayer {
    fn default() -> (r: Self)
        ensures
            r == PaintLayer::Masks0,
    {
        PaintLayer::Masks0
    }
}

impl PaintLayer {
    pub open spec fn other(self) -> PaintLayer {
        match self {
            PaintLayer::Masks0 => PaintLayer::Masks1,
            PaintLayer::Masks1 => PaintLayer::Masks0,
        }
    }

    pub open spec fn channel_count(self) -> nat {
        match self {
            PaintLayer::Masks0 => 4,
            PaintLayer::Masks1 => 2,
        }
    }

    /// The value of a channel that has no effect: no occlusion is one, all
    /// others are zero.
    pub open spec fn neutral(self, channel: int) -> Scalar {
        if self == PaintLayer::Masks1 && channel == 0 {
            scalar(ONE)
        } else {
            scalar(ZERO)
        }
    }

    pub open spec fn title(self) -> Seq<char> {
        match self {
            PaintLayer::Masks0 => "bevy_masks"@,
            PaintLayer::Masks1 => "bevy_masks2"@,
        }
    }

    pub open spec fn channel_title(self, channel: int) -> Seq<char> {
        match self {
            PaintLayer::Masks0 => if channel == 0 {
                "R  normal_suppress"@
            } else if channel == 1 {
                "G  dirt"@
            } else if channel == 2 {
                "B  wet"@
            } else if channel == 3 {
                "A  palette"@
            } else {
                "?"@
            },
            PaintLayer::Masks1 => if channel == 0 {
                "x  AO (1=none)"@
            } else if channel == 1 {
                "y  emissive"@
            } else {
                "?"@
            },
        }
    }

    pub fn next(self) -> (r: Self)
        ensures
            r == self.other(),
    {
        match self {
            PaintLayer::Masks0 => PaintLayer::Masks1,
            PaintLayer::Masks1 => PaintLayer::Masks0,
        }
    }

    pub fn name(self) -> (r: &'static str)
        ensures
            r@ == self.title(),
    {
        match self {
            PaintLayer::Masks0 => "bevy_masks",
            PaintLayer::Masks1 => "bevy_masks2",
        }
    }

    pub fn channels(self) -> (r: usize)
        ensures
            r == self.channel_count(),
    {
        match self {
            PaintLayer::Masks0 => 4,
            PaintLayer::Masks1 => 2,
        }
    }

    pub fn channel_name(self, channel: usize) -> (r: &'static str)
        ensures
            r@ == self.channel_title(channel as int),
    {
        match self {
            PaintLayer::Masks0 => if channel == 0 {
                "R  normal_suppress"
            } else if channel == 1 {
                "G  dirt"
            } else if channel == 2 {
                "B  wet"
            } else if channel == 3 {
                "A  palette"
            } else {
                "?"
            },
            PaintLayer::Masks1 => if channel == 0 {
                "x  AO (1=none)"
            } else if channel == 1 {
                "y  emissive"
            } else {
                "?"
            },
        }
    }

    /// The value that erasing paints.
    pub fn erase_value(self, channel: usize) -> (r: Scalar)
        ensures
            r == self.neutral(channel as int),
    {
        match (self, channel) {
            (PaintLayer::Masks1, 0) => scalar(ONE),
            _ => scalar(ZERO),
        }
    }

    /// The values of a vertex in a layer that is cleared, one for each channel.
    pub fn cleared(self) -> (r: Vec<Scalar>)
        ensures
            r@.len() == self.channel_count(),
            forall|i: int| 0 <= i < r@.len() ==> #[trigger] r@[i] == self.neutral(i),
    {
        let mut r: Vec<Scalar> = Vec::new();
        let n: usize = self.channels();
        let mut i: usize = 0;
        while i < n
            invariant
                n == self.channel_count(),
                i <= n,
                r@.len() == i,
                forall|j: int| 0 <= j < i ==> #[trigger] r@[j] == self.neutral(j),
            decreases n - i,
        {
            r.push(self.erase_value(i));
            i = i + 1;
        }
        r
    }
}

/// There are two layers: the one behind the next is the same again.
pub proof fn law_two_layers(layer: PaintLayer)
    ensures
        layer.other() != layer,
        layer.other().other() == layer,
{
}

/// The color of the brush: each channel of each layer has its own.
#[derive(Clone, Copy, PartialEq, Eq, Structural, Debug)]
pub enum BrushTone {
    Red,
    Green,
    Blue,
    Yellow,
    Violet,
    Orange,
}

pub fn ch_color(layer: PaintLayer, channel: usize) -> (r: BrushTone)
    ensures
        r == match layer {
            PaintLayer::Masks0 => if channel == 0 {
                BrushTone::Red
            } else if channel == 1 {
                BrushTone::Green
            } else if channel == 2 {
                BrushTone::Blue
            } else {
                BrushTone::Yellow
            },
            PaintLayer::Masks1 => if channel == 0 {
                BrushTone::Violet
            } else {
                BrushTone::Orange
            },
        },
{
    match layer {
        PaintLayer::Masks0 => match channel {
            0 => BrushTone::Red,
            1 => BrushTone::Green,
            2 => BrushTone::Blue,
            _ => BrushTone::Yellow,
        },
        PaintLayer::Masks1 => match channel {
            0 => BrushTone::Violet,
            _ => BrushTone::Orange,
        },
    }
}

/// The brush: what it paints, how large it is, and where it touches the model.
#[derive(Clone, Copy, PartialEq, Eq, Debug)]
pub struct VertexPainter {
    pub active: bool,
    pub layer: PaintLayer,
    pub channel: usize,
    pub value: Scalar,
    pub radius: Scalar,
    /// The place and the direction of the surface under the pointer.
    pub hover: Option<(Extent, Extent)>,
}

impl Default for VertexPainter {
    fn default() -> (r: Self)
        ensures
            r == (VertexPainter {
                active: false,
                layer: PaintLayer::Masks0,
                channel: 1,
                value: scalar(ONE),
                radius: scalar(START_RADIUS),
                hover: None,
            }),
            r.wf(),
            r.bounded(),
    {
        VertexPainter {
            active: false,
            layer: PaintLayer::Masks0,
            channel: 1,
            value: scalar(ONE),
            radius: scalar(START_RADIUS),
            hover: None,
        }
    }
}

/// The keys that choose what is painted, each true where it was just pressed.
#[derive(Clone, Copy, PartialEq, Eq, Structural, Debug)]
pub struct PainterKeys {
    pub toggle: bool,
    pub layer: bool,
    pub first: bool,
    pub second: bool,
    pub third: bool,
    pub fourth: bool,
}

/// The keys that change the brush: the brackets, true while they are held, and
/// the arrows up and down, true where they were just pressed.
#[derive(Clone, Copy, PartialEq, Eq, Structural, Debug)]
pub struct BrushKeys {
    pub bracket_left: bool,
    pub bracket_right: bool,
    pub arrow_up: bool,
    pub arrow_down: bool,
}

/// The radius and the value of a brush, a step on.
#[derive(Clone, Copy, PartialEq, Eq, Structural, Debug)]
pub struct BrushSteps {
    /// The radius less a step.
    pub smaller: Scalar,
    /// The radius and a step.
    pub larger: Scalar,
    /// The radius that the left bracket gives, and a step.
    pub larger_again: Scalar,
    /// The value and a step.
    pub more: Scalar,
    /// The value less a step.
    pub less: Scalar,
    /// The value that the arrow up gives, less a step.
    pub less_again: Scalar,
}

/// The radius after the brackets: the left one makes it smaller, then the right
/// one makes it larger.
pub open spec fn radius_after(radius: Scalar, keys: BrushKeys, s: BrushSteps) -> Scalar {
    if keys.bracket_right {
        (if keys.bracket_left {
            s.larger_again
        } else {
            s.larger
        }).smaller(scalar(MOST_RADIUS))
    } else if keys.bracket_left {
        s.smaller.larger(scalar(LEAST_RADIUS))
    } else {
        radius
    }
}

/// The value after the arrows: the one up raises it, then the one down lowers it.
pub open spec fn value_after(value: Scalar, keys: BrushKeys, s: BrushSteps) -> Scalar {
    if keys.arrow_down {
        (if keys.arrow_up {
            s.less_again
        } else {
            s.less
        }).larger(scalar(ZERO))
    } else if keys.arrow_up {
        s.more.smaller(scalar(ONE))
    } else {
        value
    }
}

/// The painter after the keys that change the brush.
pub open spec fn after_steps(p: VertexPainter, keys: BrushKeys, s: BrushSteps) -> VertexPainter {
    VertexPainter {
        radius: radius_after(p.radius, keys, s),
        value: value_after(p.value, keys, s),
        ..p
    }
}

/// The steps are those of the brush: each number stands on its side of the one
/// that it is a step from.
pub open spec fn steps_of(p: VertexPainter, s: BrushSteps) -> bool {
    &&& s.smaller.at_most(p.radius)
    &&& p.radius.at_most(s.larger)
    &&& s.smaller.larger(scalar(LEAST_RADIUS)).at_most(s.larger_again)
    &&& p.value.at_most(s.more)
    &&& s.less.at_most(p.value)
    &&& s.less_again.at_most(s.more.smaller(scalar(ONE)))
}

/// What the pointer does on the model.
#[derive(Clone, Copy, PartialEq, Eq, Structural, Debug)]
pub struct PaintInput {
    pub erase: bool,
    pub painting: bool,
    pub clear: bool,
}

/// The channel after the digit keys: the highest of the layer that was pressed.
pub open spec fn channel_after(layer: PaintLayer, channel: usize, keys: PainterKeys) -> usize {
    if keys.fourth && layer.channel_count() > 3 {
        3
    } else if keys.third && layer.channel_count() > 2 {
        2
    } else if keys.second {
        1
    } else if keys.first {
        0
    } else {
        channel
    }
}

/// The painter after the keys that choose what is painted. Another layer starts
/// with its first channel.
pub open spec fn after_keys(p: VertexPainter, keys: PainterKeys) -> VertexPainter {
    let toggled = if keys.toggle {
        VertexPainter { active: !p.active, hover: None, ..p }
    } else {
        p
    };
    let layered = if keys.layer {
        VertexPainter { layer: toggled.layer.other(), channel: 0, ..toggled }
    } else {
        toggled
    };
    VertexPainter { channel: channel_after(layered.layer, layered.channel, keys), ..layered }
}

/// What happens to the mesh under the brush.
#[derive(Clone, Copy, PartialEq, Eq, Structural, Debug)]
pub struct PaintOrder {
    /// The value to paint into the channel.
    pub paint: Option<Scalar>,
    pub clear: bool,
}

/// The painter after a frame in which the pointer meets `hit`.
pub open spec fn after_tick(
    p: VertexPainter,
    keys: PainterKeys,
    brush: BrushKeys,
    steps: BrushSteps,
    hit: Option<(Extent, Extent)>,
) -> VertexPainter {
    let next = after_steps(after_keys(p, keys), brush, steps);
    VertexPainter {
        hover: if next.active {
            hit
        } else {
            None
        },
        ..next
    }
}

/// What a painter does to the mesh under it.
pub open spec fn order_of(p: VertexPainter, input: PaintInput) -> Option<PaintOrder> {
    if p.active && p.hover is Some {
        Some(
            PaintOrder {
                paint: if input.painting {
                    Some(
                        if input.erase {
                            p.layer.neutral(p.channel as int)
                        } else {
                            p.value
                        },
                    )
                } else {
                    None
                },
                clear: input.clear,
            },
        )
    } else {
        None
    }
}

/// Over a frame the channel stays one of the layer, the radius between its
/// bounds and the value between zero and one.
pub proof fn law_tick_keeps_bounds(
    p: VertexPainter,
    keys: PainterKeys,
    brush: BrushKeys,
    steps: BrushSteps,
    hit: Option<(Extent, Extent)>,
)
    requires
        p.wf(),
        p.bounded(),
        steps_of(p, steps),
    ensures
        after_tick(p, keys, brush, steps, hit).wf(),
        after_tick(p, keys, brush, steps, hit).bounded(),
{
}

/// The key of the layer chooses the other layer and its first channel, unless a
/// digit chooses another one; a digit beyond the channels of the layer chooses
/// nothing.
pub proof fn law_keys_choose_channel(p: VertexPainter, keys: PainterKeys)
    ensures
        keys.layer ==> after_keys(p, keys).layer == p.layer.other(),
        keys.layer && !keys.first && !keys.second && !keys.third && !keys.fourth ==> after_keys(
            p,
            keys,
        ).channel == 0,
        !keys.layer ==> after_keys(p, keys).layer == p.layer,
        !keys.layer && p.layer == PaintLayer::Masks1 && !keys.first && !keys.second
            ==> after_keys(p, keys).channel == p.channel,
{
}

/// A brush that is put away touches nothing and changes no mesh.
pub proof fn law_inactive_paints_nothing(
    p: VertexPainter,
    keys: PainterKeys,
    brush: BrushKeys,
    steps: BrushSteps,
    hit: Option<(Extent, Extent)>,
    input: PaintInput,
)
    requires
        p.active == keys.toggle,
    ensures
        after_tick(p, keys, brush, steps, hit).hover is None,
        order_of(after_tick(p, keys, brush, steps, hit), input) is None,
{
}

impl VertexPainter {
    /// The radius and the value are within their bounds.
    pub open spec fn bounded(self) -> bool {
        &&& scalar(LEAST_RADIUS).at_most(self.radius)
        &&& self.radius.at_most(scalar(MOST_RADIUS))
        &&& scalar(ZERO).at_most(self.value)
        &&& self.value.at_most(scalar(ONE))
    }

    /// The channel is one of the layer.
    pub open spec fn wf(self) -> bool {
        self.channel < self.layer.channel_count()
    }

    /// Takes the keys that choose what is painted.
    pub fn choose_brush(&mut self, keys: PainterKeys)
        ensures
            *final(self) == after_keys(*old(self), keys),
            old(self).wf() ==> final(self).wf(),
    {
        if keys.toggle {
            self.active = !self.active;
            self.hover = None;
        }
        if keys.layer {
            self.layer = self.layer.next();
            self.channel = 0;
        }
        let n: usize = self.layer.channels();
        if keys.first {
            self.channel = 0;
        }
        if keys.second {
            self.channel = 1;
        }
        if keys.third && n > 2 {
            self.channel = 2;
        }
        if keys.fourth && n > 3 {
            self.channel = 3;
        }
    }

    /// Takes the keys that change the brush: its radius and its value, each
    /// within bounds.
    pub fn step_brush(&mut self, keys: BrushKeys, steps: BrushSteps)
        ensures
            *final(self) == after_steps(*old(self), keys, steps),
    {
        if keys.bracket_left {
            self.radius = steps.smaller.max(scalar(LEAST_RADIUS));
        }
        if keys.bracket_right {
            let larger = if keys.bracket_left {
                steps.larger_again
            } else {
                steps.larger
            };
            self.radius = larger.min(scalar(MOST_RADIUS));
        }
        if keys.arrow_up {
            self.value = steps.more.min(scalar(ONE));
        }
        if keys.arrow_down {
            let less = if keys.arrow_up {
                steps.less_again
            } else {
                steps.less
            };
            self.value = less.max(scalar(ZERO));
        }
    }

    /// One frame: the keys, and what the pointer meets. While painting, a held
    /// button paints the value, or with shift the neutral one; a key clears the
    /// layer.
    pub fn painter_tick(
        &mut self,
        keys: PainterKeys,
        brush: BrushKeys,
        steps: BrushSteps,
        hit: Option<(Extent, Extent)>,
        input: PaintInput,
    ) -> (r: Option<PaintOrder>)
        ensures
            *final(self) == after_tick(*old(self), keys, brush, steps, hit),
            r == order_of(*final(self), input),
    {
        self.choose_brush(keys);
        self.step_brush(brush, steps);
        if !self.active {
            self.hover = None;
            return None;
        }
        self.hover = hit;
        if hit.is_none() {
            return None;
        }
        let value = if input.erase {
            self.layer.erase_value(self.channel)
        } else {
            self.value
        };
        let paint = if input.painting {
            Some(value)
        } else {
            None
        };
        Some(PaintOrder { paint, clear: input.clear })
    }

    /// The line of the status. `value` and `radius` are those of the brush in
    /// writing.
    pub fn update_paint_status(&self, value: &str, radius: &str) -> (r: String)
        ensures
            r@ == (if self.active {
                "PAINT  "@ + self.layer.title() + "  ch:"@ + self.layer.channel_title(
                    self.channel as int,
                ) + "  val:"@ + value@ + "  r:"@ + radius@ + "    L=vrstva  1-"@ + decimal_digits(
                    self.layer.channel_count(),
                )
                    + "=kanál  [/]=radius  UP/Down↓=hodnota  Shift=erase  Del=clear  P=off"@
            } else {
                "P = vertex paint mode"@
            }),
    {
        if !self.active {
            return "P = vertex paint mode".to_string();
        }
        let n = decimal(self.layer.channels() as u64);
        let mut r = concat("PAINT  ", self.layer.name());
        r.append("  ch:");
        r.append(self.layer.channel_name(self.channel));
        r.append("  val:");
        r.append(value);
        r.append("  r:");
        r.append(radius);
        r.append("    L=vrstva  1-");
        r.append(n.as_str());
        r.append("=kanál  [/]=radius  UP/Down↓=hodnota  Shift=erase  Del=clear  P=off");
        r
    }

    /// The brush on the screen.
    pub fn draw_paint_cursor(&self) -> (r: PaintCursor)
        ensures
            r == (if !self.active {
                PaintCursor::Off
            } else if self.hover is Some {
                PaintCursor::OnModel
            } else {
                PaintCursor::BeforeCamera
            }),
    {
        if !self.active {
            PaintCursor::Off
        } else if self.hover.is_some() {
            PaintCursor::OnModel
        } else {
            PaintCursor::BeforeCamera
        }
    }
}

/// Where the brush is drawn.
#[derive(Clone, Copy, PartialEq, Eq, Structural, Debug)]
pub enum PaintCursor {
    Off,
    OnModel,
    BeforeCamera,
}

/// Of some distances the least that is less than all before it, with its place.
pub open spec fn least(distances: Seq<Option<Scalar>>) -> Option<(usize, Scalar)>
    decreases distances.len(),
{
    if distances.len() == 0 {
        None
    } else {
        let best = least(distances.drop_last());
        match (distances.last(), best) {
            (Some(d), Some((_, b))) if d.less(b) => Some(((distances.len() - 1) as usize, d)),
            (Some(d), None) if d.less(scalar(INFINITE)) => Some(
                ((distances.len() - 1) as usize, d),
            ),
            _ => best,
        }
    }
}

/// Positive infinity.
pub const INFINITE: u32 = 0x7f80_0000;

/// The nearest of what a ray meets; nothing that is not met or infinitely far.
pub fn nearest_hit(distances: &Vec<Option<Scalar>>) -> (r: Option<usize>)
    ensures
        match (r, least(distances@)) {
            (Some(i), Some((k, _))) => i == k,
            (None, None) => true,
            _ => false,
        },
{
    let mut best: Option<(usize, Scalar)> = None;
    let mut i: usize = 0;
    assert(distances@.take(0) =~= Seq::<Option<Scalar>>::empty());
    while i < distances.len()
        invariant
            i <= distances.len(),
            best == least(distances@.take(i as int)),
        decreases distances.len() - i,
    {
        proof {
            lemma_take_next(distances@, i as int);
        }
        if let Some(d) = distances[i] {
            let bound = match best {
                Some((_, b)) => b,
                None => scalar(INFINITE),
            };
            if d.lt(bound) {
                best = Some((i, d));
            }
        }
        i = i + 1;
    }
    assert(distances@.take(distances.len() as int) =~= distances@);
    match best {
        Some((k, _)) => Some(k),
        None => None,
    }
}

/// The nearest hit is met and no farther than any other.
pub proof fn law_nearest_hit(distances: Seq<Option<Scalar>>)
    requires
        distances.len() <= usize::MAX,
    ensures
        match least(distances) {
            Some((i, d)) => i < distances.len() && distances[i as int] == Some(d) && forall|j: int|
                0 <= j < distances.len() && (#[trigger] distances[j]) is Some
                    ==> !distances[j]->0.less(d),
            None => forall|j: int|
                0 <= j < distances.len() && (#[trigger] distances[j]) is Some
                    ==> !distances[j]->0.less(scalar(INFINITE)),
        },
    decreases distances.len(),
{
    if distances.len() > 0 {
        law_nearest_hit(distances.drop_last());
        let front = distances.drop_last();
        assert(forall|j: int| 0 <= j < front.len() ==> front[j] == #[trigger] distances[j]);
    }
}

/// The vertices under the brush: those whose squared distance is less than the
/// squared radius.
pub open spec fn under_brush(squares: Seq<Scalar>, radius_sq: Scalar) -> Seq<usize>
    decreases squares.len(),
{
    if squares.len() == 0 {
        Seq::empty()
    } else {
        let front = under_brush(squares.drop_last(), radius_sq);
        if squares.last().less(radius_sq) {
            front.push((squares.len() - 1) as usize)
        } else {
            front
        }
    }
}

pub fn paint_vertices(squares: &Vec<Scalar>, radius_sq: Scalar) -> (r: Vec<usize>)
    ensures
        r@ == under_brush(squares@, radius_sq),
{
    let mut r: Vec<usize> = Vec::new();
    let mut i: usize = 0;
    assert(squares@.take(0) =~= Seq::<Scalar>::empty());
    while i < squares.len()
        invariant
            i <= squares.len(),
            r@ == under_brush(squares@.take(i as int), radius_sq),
        decreases squares.len() - i,
    {
        proof {
            lemma_take_next(squares@, i as int);
        }
        if squares[i].lt(radius_sq) {
            r.push(i);
        }
        i = i + 1;
    }
    assert(squares@.take(squares.len() as int) =~= squares@);
    r
}

/// A vertex is painted exactly where it is under the brush.
pub proof fn law_painted_exactly(squares: Seq<Scalar>, radius_sq: Scalar, i: usize)
    requires
        squares.len() <= usize::MAX,
    ensures
        under_brush(squares, radius_sq).contains(i) <==> i < squares.len() && squares[i as int].less(
            radius_sq,
        ),
    decreases squares.len(),
{
    if squares.len() > 0 {
        let front = squares.drop_last();
        law_painted_exactly(front, radius_sq, i);
        let before = under_brush(front, radius_sq);
        let last = (squares.len() - 1) as usize;
        let p = before.push(last);
        assert(p[before.len() as int] == last);
        if before.contains(i) {
            let k = choose|k: int| 0 <= k < before.len() && before[k] == i;
            assert(p[k] == i);
        }
        if p.contains(i) {
            let k = choose|k: int| 0 <= k < p.len() && p[k] == i;
            if k < before.len() {
                assert(before[k] == i);
            }
        }
    }
}

/// The two layers follow each other. The first has four channels and the second
/// two; erasing paints zero, but one where that stands for no occlusion.
pub proof fn law_layers(
    layer: PaintLayer,
    channel: usize,
    next: PaintLayer,
    channels: usize,
    erased: Scalar,
    cleared: Vec<Scalar>,
    name: &'static str,
    title: &'static str,
)
    requires
        call_ensures(PaintLayer::next, (layer,), next),
        call_ensures(PaintLayer::channels, (layer,), channels),
        call_ensures(PaintLayer::erase_value, (layer, channel), erased),
        call_ensures(PaintLayer::cleared, (layer,), cleared),
        call_ensures(PaintLayer::name, (layer,), name),
        call_ensures(PaintLayer::channel_name, (layer, channel), title),
    ensures
        layer is Masks0 ==> next is Masks1 && channels == 4 && name@ == "bevy_masks"@,
        layer is Masks1 ==> next is Masks0 && channels == 2 && name@ == "bevy_masks2"@,
        layer is Masks1 && channel == 0 ==> erased == scalar(0x3f80_0000) && title@
            == "x  AO (1=none)"@,
        layer is Masks0 || channel > 0 ==> erased == scalar(0),
        layer is Masks1 && channel == 1 ==> title@ == "y  emissive"@,
        layer is Masks0 && channel == 0 ==> title@ == "R  normal_suppress"@,
        layer is Masks0 && channel == 1 ==> title@ == "G  dirt"@,
        layer is Masks0 && channel == 2 ==> title@ == "B  wet"@,
        layer is Masks0 && channel == 3 ==> title@ == "A  palette"@,
        channel >= channels ==> title@ == "?"@,
        cleared@.len() == channels,
        channel < channels ==> cleared@[channel as int] == erased,
{
    if channel < channels {
        let i = channel as int;
        assert(cleared@[i] == layer.neutral(i));
    }
}

/// The colors of the brush are those of the channels.
pub proof fn law_brush_tones(layer: PaintLayer, channel: usize, r: BrushTone)
    requires
        call_ensures(ch_color, (layer, channel), r),
    ensures
        r is Red <==> layer is Masks0 && channel == 0,
        r is Green <==> layer is Masks0 && channel == 1,
        r is Blue <==> layer is Masks0 && channel == 2,
        r is Yellow <==> layer is Masks0 && channel >= 3,
        r is Violet <==> layer is Masks1 && channel == 0,
        r is Orange <==> layer is Masks1 && channel >= 1,
{
}

/// The keys that choose what is painted: one takes the brush up or puts it away,
/// one goes to the other layer and its first channel, and each digit chooses its
/// channel where the layer has it; of several the highest counts. The radius and
/// the value stay.
pub proof fn law_brush_chosen(p: &mut VertexPainter, keys: PainterKeys, channels: usize)
    requires
        call_ensures(VertexPainter::choose_brush, (p, keys), ()),
        call_ensures(PaintLayer::channels, (final(p).layer,), channels),
    ensures
        final(p).active == (old(p).active != keys.toggle),
        keys.toggle ==> final(p).hover is None,
        !keys.toggle ==> final(p).hover == old(p).hover,
        keys.layer <==> final(p).layer != old(p).layer,
        final(p).radius == old(p).radius && final(p).value == old(p).value,
        keys.fourth && channels == 4 ==> final(p).channel == 3,
        keys.third && channels == 4 && !keys.fourth ==> final(p).channel == 2,
        keys.second && (channels == 2 || !(keys.third || keys.fourth)) ==> final(p).channel == 1,
        keys.first && !keys.second && (channels == 2 || !(keys.third || keys.fourth)) ==> final(p).channel == 0,
        !keys.first && !keys.second && (channels == 2 || !(keys.third || keys.fourth)) ==> final(p).channel == (if keys.layer {
            0
        } else {
            old(p).channel
        }),
{
}

/// The keys that change the brush: each bracket changes the radius by its step,
/// no further than from a twentieth to five, and each arrow the value, no further
/// than from zero to one. Without a key nothing changes, and neither touches what
/// the other is for.
pub proof fn law_brush_steps(p: &mut VertexPainter, keys: BrushKeys, s: BrushSteps)
    requires
        call_ensures(VertexPainter::step_brush, (p, keys, s), ()),
    ensures
        final(p).active == old(p).active && final(p).layer == old(p).layer && final(p).channel
            == old(p).channel && final(p).hover == old(p).hover,
        !keys.bracket_left && !keys.bracket_right ==> final(p).radius == old(p).radius,
        keys.bracket_left && !keys.bracket_right ==> lifted(
            s.smaller,
            scalar(0x3d4c_cccd),
            final(p).radius,
        ),
        keys.bracket_right ==> lowered(
            if keys.bracket_left {
                s.larger_again
            } else {
                s.larger
            },
            scalar(0x40a0_0000),
            final(p).radius,
        ),
        !keys.arrow_up && !keys.arrow_down ==> final(p).value == old(p).value,
        keys.arrow_up && !keys.arrow_down ==> lowered(
            s.more,
            scalar(0x3f80_0000),
            final(p).value,
        ),
        keys.arrow_down ==> lifted(
            if keys.arrow_up {
                s.less_again
            } else {
                s.less
            },
            scalar(0),
            final(p).value,
        ),
{
}

/// `got` is `x` where it is at most `most`, and else `most`.
pub open spec fn lowered(x: Scalar, most: Scalar, got: Scalar) -> bool {
    &&& x.at_most(most) ==> got == x
    &&& !x.at_most(most) ==> got == most
}

/// A frame: the brush is chosen and changed as by its two kinds of keys, it
/// touches what the pointer meets while it is taken up, and paints there. A held
/// button paints the value of the brush, with the other key what erases; a third
/// key clears the layer.
pub proof fn law_paint_frame(
    p: &mut VertexPainter,
    chosen: &mut VertexPainter,
    stepped: &mut VertexPainter,
    keys: PainterKeys,
    brush: BrushKeys,
    steps: BrushSteps,
    hit: Option<(Extent, Extent)>,
    input: PaintInput,
    r: Option<PaintOrder>,
    erased: Scalar,
)
    requires
        call_ensures(VertexPainter::painter_tick, (p, keys, brush, steps, hit, input), r),
        *old(chosen) == *old(p),
        call_ensures(VertexPainter::choose_brush, (chosen, keys), ()),
        *old(stepped) == *final(chosen),
        call_ensures(VertexPainter::step_brush, (stepped, brush, steps), ()),
        call_ensures(
            PaintLayer::erase_value,
            (final(p).layer, final(p).channel),
            erased,
        ),
    ensures
        final(p).active == (old(p).active != keys.toggle),
        final(p).layer == final(chosen).layer && final(p).channel == final(chosen).channel,
        final(p).radius == final(stepped).radius && final(p).value == final(stepped).value,
        final(p).hover == (if final(p).active {
            hit
        } else {
            None
        }),
        r is Some <==> final(p).active && hit is Some,
        r matches Some(order) ==> order.clear == input.clear && (order.paint is Some
            <==> input.painting),
        r matches Some(order) ==> (input.painting && !input.erase ==> order.paint == Some(
            final(p).value,
        )),
        r matches Some(order) ==> (input.painting && input.erase ==> order.paint == Some(erased)),
{
}

/// The line of the status and the brush on the screen.
pub proof fn law_paint_status(
    p: &VertexPainter,
    value: &str,
    radius: &str,
    name: &'static str,
    title: &'static str,
    channels: usize,
    r: String,
    cursor: PaintCursor,
)
    requires
        call_ensures(VertexPainter::update_paint_status, (p, value, radius), r),
        call_ensures(VertexPainter::draw_paint_cursor, (p,), cursor),
        call_ensures(PaintLayer::name, (p.layer,), name),
        call_ensures(PaintLayer::channel_name, (p.layer, p.channel), title),
        call_ensures(PaintLayer::channels, (p.layer,), channels),
    ensures
        !p.active ==> r@ == "P = vertex paint mode"@ && cursor is Off,
        p.active ==> r@ == "PAINT  "@ + name@ + "  ch:"@ + title@ + "  val:"@ + value@ + "  r:"@
            + radius@ + "    L=vrstva  1-"@ + decimal_digits(channels as nat)
            + "=kanál  [/]=radius  UP/Down↓=hodnota  Shift=erase  Del=clear  P=off"@,
        p.active ==> (cursor is OnModel <==> p.hover is Some) && (cursor is BeforeCamera
            <==> p.hover is None),
{
}

proof fn lemma_nearest_is_number(distances: Seq<Option<Scalar>>)
    ensures
        least(distances) matches Some((i, d)) ==> !d.nan(),
    decreases distances.len(),
{
    if distances.len() > 0 {
        lemma_nearest_is_number(distances.drop_last());
    }
}

proof fn lemma_first_nearest(distances: Seq<Option<Scalar>>, j: int)
    requires
        distances.len() <= usize::MAX,
        0 <= j < distances.len(),
        distances[j] is Some,
    ensures
        least(distances) matches Some((i, d)) ==> (j < i ==> !distances[j]->0.at_most(d)),
    decreases distances.len(),
{
    let front = distances.drop_last();
    law_nearest_hit(front);
    lemma_nearest_is_number(front);
    lemma_nearest_is_number(distances);
    if j < front.len() {
        assert(front[j] == distances[j]);
        lemma_first_nearest(front, j);
    }
}

/// The nearest hit is met, nothing else that is met is nearer, and what is met as
/// far away comes later in the list. There is one wherever something is met at a
/// finite distance.
pub proof fn law_nearest(distances: &Vec<Option<Scalar>>, r: Option<usize>, j: int)
    requires
        call_ensures(nearest_hit, (distances,), r),
        0 <= j < distances@.len(),
        distances@[j] is Some,
    ensures
        r matches Some(i) ==> i < distances@.len() && distances@[i as int] is Some
            && !distances@[j]->0.less(distances@[i as int]->0),
        r matches Some(i) ==> (j < i ==> !distances@[j]->0.at_most(distances@[i as int]->0)),
        distances@[j]->0.less(scalar(0x7f80_0000)) ==> r is Some,
{
    assert(distances@.len() == distances.len());
    law_nearest_hit(distances@);
    lemma_first_nearest(distances@, j);
}

/// The painted vertices are those nearer than the radius, each of them named.
pub proof fn law_painted(squares: &Vec<Scalar>, radius_sq: Scalar, r: Vec<usize>, i: usize)
    requires
        call_ensures(paint_vertices, (squares, radius_sq), r),
    ensures
        r@.contains(i) <==> i < squares@.len() && squares@[i as int].less(radius_sq),
{
    assert(squares@.len() == squares.len());
    law_painted_exactly(squares@, radius_sq, i);
}

/// At first the brush is put away, half a metre wide, and paints dirt in full.
pub proof fn law_brush_start(r: VertexPainter)
    requires
        call_ensures(VertexPainter::default, (), r),
    ensures
        !r.active && r.hover is None,
        r.layer is Masks0 && r.channel == 1,
        r.value == scalar(0x3f80_0000) && r.radius == scalar(0x3f00_0000),
{
}

} // verus!
