//! Slots for what scripts draw over the game.

use vstd::prelude::*;

use crate::folds::lemma_take_next;
use crate::names::{position, views};
use crate::scalar::{kept_within, scalar, Scalar};

verus! {

pub const RECT_POOL_SIZE: usize = 128;

pub const TEXT_POOL_SIZE: usize = 32;

pub const IMAGE_POOL_SIZE: usize = 16;

/// The number of lines that make up a circle.
pub const CIRCLE_SEGMENTS: usize = 24;

/// The length below which a line is not drawn (0.5).
pub const SHORTEST_LINE: u32 = 0x3f00_0000;

/// The smallest font size (8).
pub const SMALLEST_FONT: u32 = 0x4100_0000;

/// The largest font size (256).
pub const LARGEST_FONT: u32 = 0x4380_0000;

/// Something to draw. A line comes with its length on the screen, a text with
/// the size that its scale asks for.
#[derive(Clone, Debug)]
pub enum DrawCommand {
    Rect,
    Line { length: Scalar },
    Circle,
    Text { size: Scalar, font_id: Option<String> },
    Sprite { image_id: String },
}

/// How many slots of each kind there are, or are in use.
#[derive(Clone, Copy, PartialEq, Eq, Structural, Debug)]
pub struct SlotCounts {
    pub rects: usize,
    pub texts: usize,
    pub images: usize,
}

impl SlotCounts {
    pub open spec fn none() -> Self {
        SlotCounts { rects: 0, texts: 0, images: 0 }
    }

    /// No count is beyond that of the other.
    pub open spec fn within(self, pool: SlotCounts) -> bool {
        self.rects <= pool.rects && self.texts <= pool.texts && self.images <= pool.images
    }
}

/// The slots that are made at the start.
pub fn pool_sizes() -> (r: SlotCounts)
    ensures
        r.rects == RECT_POOL_SIZE,
        r.texts == TEXT_POOL_SIZE,
        r.images == IMAGE_POOL_SIZE,
{
    SlotCounts { rects: RECT_POOL_SIZE, texts: TEXT_POOL_SIZE, images: IMAGE_POOL_SIZE }
}

/// The font of a text: one that was loaded, the one that the slot has had, or
/// the standard one.
#[derive(Clone, Copy, PartialEq, Eq, Structural, Debug)]
pub enum FontChoice {
    Loaded(usize),
    Kept,
    Standard,
}

/// What is written into a slot: the number of the command that asks for it, and
/// what the command leaves open.
#[derive(Clone, Copy, PartialEq, Eq, Debug)]
pub enum SlotWrite {
    Rect { slot: usize, command: usize },
    Segment { slot: usize, command: usize, segment: usize },
    Text { slot: usize, command: usize, size: Scalar, font: FontChoice },
    Image { slot: usize, command: usize, image: usize },
}

/// The font of a text that asks for `font` while `fonts` are loaded. A font
/// that is not loaded leaves the slot's font as it is.
pub open spec fn font_for(font: Option<String>, fonts: Seq<Seq<char>>) -> FontChoice {
    match font {
        None => FontChoice::Standard,
        Some(id) => match fonts.index_of_first(id@) {
            Some(i) => FontChoice::Loaded(i as usize),
            None => FontChoice::Kept,
        },
    }
}

/// The first segments of a circle, as many as `free` slots take.
pub open spec fn segment_writes(first: nat, command: usize, n: nat) -> Seq<SlotWrite> {
    Seq::new(
        n,
        |i: int|
            SlotWrite::Segment { slot: (first + i) as usize, command, segment: i as usize },
    )
}

/// How many slots a circle takes where `free` are left.
pub open spec fn circle_share(free: int) -> nat {
    if free < CIRCLE_SEGMENTS {
        free as nat
    } else {
        CIRCLE_SEGMENTS as nat
    }
}

/// What a command writes while the slots of `used` are taken. A command finds
/// no slot where its kind has run out, and a sprite needs a loaded image.
pub open spec fn writes_of(
    cmd: DrawCommand,
    k: usize,
    used: SlotCounts,
    pool: SlotCounts,
    fonts: Seq<Seq<char>>,
    images: Seq<Seq<char>>,
) -> Seq<SlotWrite> {
    match cmd {
        DrawCommand::Rect => if used.rects < pool.rects {
            seq![SlotWrite::Rect { slot: used.rects, command: k }]
        } else {
            Seq::empty()
        },
        DrawCommand::Line { length } => if !length.less(scalar(SHORTEST_LINE)) && used.rects
            < pool.rects {
            seq![SlotWrite::Rect { slot: used.rects, command: k }]
        } else {
            Seq::empty()
        },
        DrawCommand::Circle => segment_writes(
            used.rects as nat,
            k,
            circle_share(pool.rects - used.rects),
        ),
        DrawCommand::Text { size, font_id } => if used.texts < pool.texts {
            seq![
                SlotWrite::Text {
                    slot: used.texts,
                    command: k,
                    size: size.bounded(scalar(SMALLEST_FONT), scalar(LARGEST_FONT)),
                    font: font_for(font_id, fonts),
                },
            ]
        } else {
            Seq::empty()
        },
        DrawCommand::Sprite { image_id } => match images.index_of_first(image_id@) {
            Some(i) => if used.images < pool.images {
                seq![SlotWrite::Image { slot: used.images, command: k, image: i as usize }]
            } else {
                Seq::empty()
            },
            None => Seq::empty(),
        },
    }
}

/// The slots that are taken after a command.
pub open spec fn used_after(
    cmd: DrawCommand,
    used: SlotCounts,
    pool: SlotCounts,
    images: Seq<Seq<char>>,
) -> SlotCounts {
    match cmd {
        DrawCommand::Rect => if used.rects < pool.rects {
            SlotCounts { rects: (used.rects + 1) as usize, ..used }
        } else {
            used
        },
        DrawCommand::Line { length } => if !length.less(scalar(SHORTEST_LINE)) && used.rects
            < pool.rects {
            SlotCounts { rects: (used.rects + 1) as usize, ..used }
        } else {
            used
        },
        DrawCommand::Circle => SlotCounts {
            rects: (used.rects + circle_share(pool.rects - used.rects)) as usize,
            ..used
        },
        DrawCommand::Text { size, font_id } => if used.texts < pool.texts {
            SlotCounts { texts: (used.texts + 1) as usize, ..used }
        } else {
            used
        },
        DrawCommand::Sprite { image_id } => if images.contains(image_id@) && used.images
            < pool.images {
            SlotCounts { images: (used.images + 1) as usize, ..used }
        } else {
            used
        },
    }
}

/// The slots that are taken after all commands of a frame.
pub open spec fn frame_used(
    cmds: Seq<DrawCommand>,
    pool: SlotCounts,
    images: Seq<Seq<char>>,
) -> SlotCounts
    decreases cmds.len(),
{
    if cmds.len() == 0 {
        SlotCounts::none()
    } else {
        used_after(cmds.last(), frame_used(cmds.drop_last(), pool, images), pool, images)
    }
}

/// All writes of a frame, in order.
pub open spec fn frame_writes(
    cmds: Seq<DrawCommand>,
    pool: SlotCounts,
    fonts: Seq<Seq<char>>,
    images: Seq<Seq<char>>,
) -> Seq<SlotWrite>
    decreases cmds.len(),
{
    if cmds.len() == 0 {
        Seq::empty()
    } else {
        let front = cmds.drop_last();
        frame_writes(front, pool, fonts, images) + writes_of(
            cmds.last(),
            (cmds.len() - 1) as usize,
            frame_used(front, pool, images),
            pool,
            fonts,
            images,
        )
    }
}

fn find_name(names: &Vec<String>, name: &str) -> (r: Option<usize>)
    ensures
        match r {
            Some(i) => i < names.len() && views(names@).index_of_first(name@) == Some(i as int),
            None => views(names@).index_of_first(name@) is None,
        },
        r is Some <==> views(names@).contains(name@),
{
    let r = position(names, name);
    proof {
        let v = views(names@);
        v.index_of_first_ensures(name@);
        match r {
            Some(i) => {
                assert(v[i as int] == name@);
                assert forall|j: int| 0 <= j < i implies v[j] != name@ by {
                    assert(v[j] == names@[j]@);
                }
            },
            None => {},
        }
    }
    r
}

fn choose_font(font: &Option<String>, fonts: &Vec<String>) -> (r: FontChoice)
    ensures
        r == font_for(*font, views(fonts@)),
{
    match font {
        None => FontChoice::Standard,
        Some(id) => match find_name(fonts, id.as_str()) {
            Some(i) => FontChoice::Loaded(i),
            None => FontChoice::Kept,
        },
    }
}

/// The slots of a pool that are hidden before a frame is drawn: those that were
/// in use, and no others.
pub fn hide_used(pool: &Vec<u64>, high_water: usize) -> (r: Vec<u64>)
    requires
        high_water <= pool@.len(),
    ensures
        r@ == pool@.take(high_water as int),
{
    let mut r: Vec<u64> = Vec::new();
    let mut i: usize = 0;
    while i < high_water
        invariant
            i <= high_water <= pool@.len(),
            r@ == pool@.take(i as int),
        decreases high_water - i,
    {
        r.push(pool[i]);
        i = i + 1;
        assert(pool@.take(i as int) =~= pool@.take(i - 1).push(pool@[i - 1]));
    }
    r
}

/// Gives the commands of a frame their slots. `high_water` holds the slots that
/// are in use afterwards.
pub fn render_gui(
    cmds: &Vec<DrawCommand>,
    pool: SlotCounts,
    fonts: &Vec<String>,
    images: &Vec<String>,
    high_water: &mut SlotCounts,
) -> (r: Vec<SlotWrite>)
    ensures
        r@ == frame_writes(cmds@, pool, views(fonts@), views(images@)),
        *final(high_water) == frame_used(cmds@, pool, views(images@)),
        final(high_water).within(pool),
{
    let mut writes: Vec<SlotWrite> = Vec::new();
    let mut used = SlotCounts { rects: 0, texts: 0, images: 0 };
    let mut k: usize = 0;
    assert(cmds@.take(0) =~= Seq::<DrawCommand>::empty());
    while k < cmds.len()
        invariant
            k <= cmds.len(),
            used == frame_used(cmds@.take(k as int), pool, views(images@)),
            used.within(pool),
            writes@ == frame_writes(cmds@.take(k as int), pool, views(fonts@), views(images@)),
        decreases cmds.len() - k,
    {
        let ghost earlier = writes@;
        let ghost taken = used;
        proof {
            lemma_take_next(cmds@, k as int);
        }
        match &cmds[k] {
            DrawCommand::Rect => {
                if used.rects < pool.rects {
                    writes.push(SlotWrite::Rect { slot: used.rects, command: k });
                    used.rects = used.rects + 1;
                }
            },
            DrawCommand::Line { length } => {
                if !length.lt(scalar(SHORTEST_LINE)) && used.rects < pool.rects {
                    writes.push(SlotWrite::Rect { slot: used.rects, command: k });
                    used.rects = used.rects + 1;
                }
            },
            DrawCommand::Circle => {
                let mut segment: usize = 0;
                while segment < CIRCLE_SEGMENTS && used.rects < pool.rects
                    invariant
                        segment <= CIRCLE_SEGMENTS,
                        taken.within(pool),
                        used.rects == taken.rects + segment,
                        used.texts == taken.texts,
                        used.images == taken.images,
                        used.rects <= pool.rects,
                        writes@ == earlier + segment_writes(taken.rects as nat, k, segment as nat),
                    decreases CIRCLE_SEGMENTS - segment,
                {
                    writes.push(SlotWrite::Segment { slot: used.rects, command: k, segment });
                    used.rects = used.rects + 1;
                    segment = segment + 1;
                    assert(writes@ =~= earlier + segment_writes(
                        taken.rects as nat,
                        k,
                        segment as nat,
                    ));
                }
                assert(segment as nat == circle_share(pool.rects - taken.rects));
            },
            DrawCommand::Text { size, font_id } => {
                if used.texts < pool.texts {
                    let font = choose_font(font_id, fonts);
                    writes.push(
                        SlotWrite::Text {
                            slot: used.texts,
                            command: k,
                            size: size.clamp(scalar(SMALLEST_FONT), scalar(LARGEST_FONT)),
                            font,
                        },
                    );
                    used.texts = used.texts + 1;
                }
            },
            DrawCommand::Sprite { image_id } => {
                if used.images < pool.images {
                    match find_name(images, image_id.as_str()) {
                        Some(image) => {
                            writes.push(SlotWrite::Image { slot: used.images, command: k, image });
                            used.images = used.images + 1;
                        },
                        None => {},
                    }
                } else {
                    proof {
                        views(images@).index_of_first_ensures(image_id@);
                    }
                }
            },
        }
        assert(writes@ =~= earlier + writes_of(
            cmds@[k as int],
            k,
            taken,
            pool,
            views(fonts@),
            views(images@),
        ));
        k = k + 1;
    }
    assert(cmds@.take(cmds.len() as int) =~= cmds@);
    *high_water = used;
    writes
}

/// A frame never uses more slots than there are, so that hiding them in the
/// next frame stays within the pool.
pub proof fn law_frame_within_pool(
    cmds: Seq<DrawCommand>,
    pool: SlotCounts,
    images: Seq<Seq<char>>,
)
    ensures
        frame_used(cmds, pool, images).within(pool),
    decreases cmds.len(),
{
    if cmds.len() > 0 {
        law_frame_within_pool(cmds.drop_last(), pool, images);
    }
}

/// The kinds of slots.
#[derive(Clone, Copy, PartialEq, Eq, Structural, Debug)]
pub enum SlotKind {
    Rect,
    Text,
    Image,
}

impl SlotCounts {
    /// The count of one kind.
    pub open spec fn of(self, kind: SlotKind) -> usize {
        match kind {
            SlotKind::Rect => self.rects,
            SlotKind::Text => self.texts,
            SlotKind::Image => self.images,
        }
    }
}

/// A write goes into a slot of a kind.
pub open spec fn goes_into(w: SlotWrite, kind: SlotKind, at: usize) -> bool {
    match w {
        SlotWrite::Rect { slot, .. } => kind == SlotKind::Rect && slot == at,
        SlotWrite::Segment { slot, .. } => kind == SlotKind::Rect && slot == at,
        SlotWrite::Text { slot, .. } => kind == SlotKind::Text && slot == at,
        SlotWrite::Image { slot, .. } => kind == SlotKind::Image && slot == at,
    }
}

/// A frame writes exactly the slots that it counts as used, of rectangles, texts
/// and images alike: a slot above the count keeps hidden, and one below it is
/// shown.
pub proof fn law_written_are_used(
    cmds: Seq<DrawCommand>,
    pool: SlotCounts,
    fonts: Seq<Seq<char>>,
    images: Seq<Seq<char>>,
    kind: SlotKind,
    slot: usize,
)
    ensures
        slot < frame_used(cmds, pool, images).of(kind) <==> exists|i: int|
            0 <= i < frame_writes(cmds, pool, fonts, images).len() && goes_into(
                #[trigger] frame_writes(cmds, pool, fonts, images)[i],
                kind,
                slot,
            ),
    decreases cmds.len(),
{
    if cmds.len() > 0 {
        let front = cmds.drop_last();
        let k = (cmds.len() - 1) as usize;
        law_written_are_used(front, pool, fonts, images, kind, slot);
        law_frame_within_pool(front, pool, images);
        let used = frame_used(front, pool, images);
        let before = frame_writes(front, pool, fonts, images);
        let new = writes_of(cmds.last(), k, used, pool, fonts, images);
        let all = frame_writes(cmds, pool, fonts, images);
        assert(all == before + new);
        if let DrawCommand::Sprite { image_id } = cmds.last() {
            images.index_of_first_ensures(image_id@);
        }
        if slot < frame_used(cmds, pool, images).of(kind) {
            if slot < used.of(kind) {
                let i = choose|i: int|
                    0 <= i < before.len() && goes_into(#[trigger] before[i], kind, slot);
                assert(all[i] == before[i]);
            } else {
                let j = slot - used.of(kind);
                assert(goes_into(new[j], kind, slot));
                assert(all[before.len() + j] == new[j]);
            }
        }
        if exists|i: int| 0 <= i < all.len() && goes_into(#[trigger] all[i], kind, slot) {
            let i = choose|i: int| 0 <= i < all.len() && goes_into(#[trigger] all[i], kind, slot);
            if i < before.len() {
                assert(before[i] == all[i]);
            } else {
                assert(new[i - before.len()] == all[i]);
            }
        }
    }
}

/// How many slots of a kind a command asks for. A line that is too short and an
/// image that is not loaded ask for none.
pub open spec fn asked_by(cmd: DrawCommand, images: Seq<Seq<char>>, kind: SlotKind) -> nat {
    match (cmd, kind) {
        (DrawCommand::Rect, SlotKind::Rect) => 1,
        (DrawCommand::Line { length }, SlotKind::Rect) => if length.less(scalar(SHORTEST_LINE)) {
            0
        } else {
            1
        },
        (DrawCommand::Circle, SlotKind::Rect) => CIRCLE_SEGMENTS as nat,
        (DrawCommand::Text { .. }, SlotKind::Text) => 1,
        (DrawCommand::Sprite { image_id }, SlotKind::Image) => if images.contains(image_id@) {
            1
        } else {
            0
        },
        _ => 0,
    }
}

/// How many slots of a kind the commands of a frame ask for together.
pub open spec fn asked(cmds: Seq<DrawCommand>, images: Seq<Seq<char>>, kind: SlotKind) -> nat
    decreases cmds.len(),
{
    if cmds.len() == 0 {
        0
    } else {
        asked(cmds.drop_last(), images, kind) + asked_by(cmds.last(), images, kind)
    }
}

/// A frame uses as many slots of each kind as its commands ask for, or all that
/// there are.
pub proof fn law_frame_uses_what_is_asked(
    cmds: Seq<DrawCommand>,
    pool: SlotCounts,
    images: Seq<Seq<char>>,
    kind: SlotKind,
)
    ensures
        frame_used(cmds, pool, images).of(kind) == if asked(cmds, images, kind) < pool.of(kind) {
            asked(cmds, images, kind)
        } else {
            pool.of(kind) as nat
        },
    decreases cmds.len(),
{
    if cmds.len() > 0 {
        law_frame_uses_what_is_asked(cmds.drop_last(), pool, images, kind);
        law_frame_within_pool(cmds.drop_last(), pool, images);
    }
}

/// A frame with one more command writes what it wrote before it, and then what
/// that command needs: a rectangle or a line of half a pixel or more the next
/// slot, a circle twenty-four slots or as many as are left, one for each segment
/// in turn, a text and a loaded image a slot of their own kind.
pub proof fn law_one_more_command(
    cmds: &Vec<DrawCommand>,
    more: &Vec<DrawCommand>,
    pool: SlotCounts,
    fonts: &Vec<String>,
    images: &Vec<String>,
    used: &mut SlotCounts,
    used_more: &mut SlotCounts,
    r: Vec<SlotWrite>,
    s: Vec<SlotWrite>,
    last: DrawCommand,
)
    requires
        call_ensures(render_gui, (cmds, pool, fonts, images, used), r),
        call_ensures(render_gui, (more, pool, fonts, images, used_more), s),
        more@ == cmds@.push(last),
    ensures
        s@.len() >= r@.len(),
        s@.take(r@.len() as int) == r@,
        ({
            let was = *final(used);
            let is = *final(used_more);
            let k = cmds@.len() as usize;
            let drawn = last is Rect || (last matches DrawCommand::Line { length } && !length.less(
                scalar(0x3f00_0000),
            ));
            &&& !(last is Rect || last is Line || last is Circle) ==> is.rects == was.rects
            &&& !(last is Text) ==> is.texts == was.texts
            &&& !(last is Sprite) ==> is.images == was.images
            &&& drawn && was.rects < pool.rects ==> s@.len() == r@.len() + 1 && s@.last() == (
            SlotWrite::Rect { slot: was.rects, command: k }) && is.rects == was.rects + 1
            &&& (last is Rect || last is Line) && (!drawn || was.rects == pool.rects) ==> s@.len()
                == r@.len() && is.rects == was.rects
            &&& last is Circle ==> is.rects - was.rects == s@.len() - r@.len()
            &&& last is Circle && pool.rects - was.rects >= 24 ==> s@.len() == r@.len() + 24
            &&& last is Circle && pool.rects - was.rects < 24 ==> is.rects == pool.rects
            &&& last is Circle ==> forall|j: int|
                0 <= j < s@.len() - r@.len() ==> #[trigger] s@[r@.len() + j] == (
                SlotWrite::Segment {
                    slot: (was.rects + j) as usize,
                    command: k,
                    segment: j as usize,
                })
        }),
        final(used).rects <= pool.rects && final(used).texts <= pool.texts && final(used).images
            <= pool.images,
{
    assert(more@.drop_last() =~= cmds@);
    assert(more@.last() == last);
    assert(cmds.len() == cmds@.len());
    assert(s@.take(r@.len() as int) =~= r@);
}

/// The text of a command takes the next slot for texts: its size between 8 and
/// 256, and the font that it names where that is loaded, the slot's own where it
/// is not, the standard one where it names none.
pub proof fn law_text_written(
    cmds: &Vec<DrawCommand>,
    more: &Vec<DrawCommand>,
    pool: SlotCounts,
    fonts: &Vec<String>,
    images: &Vec<String>,
    used: &mut SlotCounts,
    used_more: &mut SlotCounts,
    r: Vec<SlotWrite>,
    s: Vec<SlotWrite>,
    size: Scalar,
    font_id: Option<String>,
    i: int,
)
    requires
        call_ensures(render_gui, (cmds, pool, fonts, images, used), r),
        call_ensures(render_gui, (more, pool, fonts, images, used_more), s),
        more@ == cmds@.push(DrawCommand::Text { size, font_id }),
        final(used).texts < pool.texts,
        font_id is Some ==> 0 <= i <= fonts@.len() && (forall|j: int|
            0 <= j < i ==> (#[trigger] fonts@[j])@ != font_id->0@),
        font_id is Some && i < fonts@.len() ==> fonts@[i]@ == font_id->0@,
    ensures
        s@.len() == r@.len() + 1,
        final(used_more).texts == final(used).texts + 1,
        s@.last() matches SlotWrite::Text { slot, command, size: got, font } && slot == final(used).texts && command == cmds@.len() && kept_within(
            size,
            scalar(0x4100_0000),
            scalar(0x4380_0000),
            got,
        ) && (font_id is None ==> font is Standard) && (font_id is Some && i == fonts@.len()
            ==> font is Kept) && (font_id is Some && i < fonts@.len() ==> font
            == FontChoice::Loaded(i as usize)),
{
    assert(more@.drop_last() =~= cmds@);
    assert(cmds.len() == cmds@.len());
    assert(fonts.len() == fonts@.len());
    if font_id is Some {
        lemma_first_name(views(fonts@), font_id->0@, i);
    }
}

/// A sprite takes the next slot for images where its image is loaded and a slot
/// is left; otherwise nothing is drawn.
pub proof fn law_sprite_written(
    cmds: &Vec<DrawCommand>,
    more: &Vec<DrawCommand>,
    pool: SlotCounts,
    fonts: &Vec<String>,
    images: &Vec<String>,
    used: &mut SlotCounts,
    used_more: &mut SlotCounts,
    r: Vec<SlotWrite>,
    s: Vec<SlotWrite>,
    image_id: String,
    i: int,
)
    requires
        call_ensures(render_gui, (cmds, pool, fonts, images, used), r),
        call_ensures(render_gui, (more, pool, fonts, images, used_more), s),
        more@ == cmds@.push(DrawCommand::Sprite { image_id }),
        0 <= i <= images@.len(),
        forall|j: int| 0 <= j < i ==> (#[trigger] images@[j])@ != image_id@,
        i < images@.len() ==> images@[i]@ == image_id@,
    ensures
        i == images@.len() || final(used).images >= pool.images ==> s@ == r@ && *final(used_more)
            == *final(used),
        i < images@.len() && final(used).images < pool.images ==> s@ == r@.push(
            SlotWrite::Image {
                slot: final(used).images,
                command: cmds@.len() as usize,
                image: i as usize,
            },
        ) && final(used_more).images == final(used).images + 1,
{
    assert(more@.drop_last() =~= cmds@);
    assert(cmds.len() == cmds@.len());
    lemma_first_name(views(images@), image_id@, i);
    assert(r@ + Seq::<SlotWrite>::empty() =~= r@);
    if i < images@.len() {
        assert(views(images@)[i] == image_id@);
        assert(views(images@).contains(image_id@));
    }
}

proof fn lemma_first_name(names: Seq<Seq<char>>, name: Seq<char>, i: int)
    requires
        0 <= i <= names.len(),
        forall|j: int| 0 <= j < i ==> #[trigger] names[j] != name,
        i < names.len() ==> names[i] == name,
    ensures
        i == names.len() ==> names.index_of_first(name) is None && !names.contains(name),
        i < names.len() ==> names.index_of_first(name) == Some(i),
{
    names.index_of_first_ensures(name);
    if i < names.len() {
        assert(names.contains(name));
    }
}

/// A frame without commands writes and uses nothing; before the next frame the
/// slots in use are hidden, and only those. The pools are made with 128 slots for
/// rectangles, 32 for texts and 16 for images.
pub proof fn law_empty_frame(
    cmds: &Vec<DrawCommand>,
    pool: SlotCounts,
    fonts: &Vec<String>,
    images: &Vec<String>,
    used: &mut SlotCounts,
    r: Vec<SlotWrite>,
    slots: &Vec<u64>,
    high_water: usize,
    hidden: Vec<u64>,
    sizes: SlotCounts,
)
    requires
        call_ensures(render_gui, (cmds, pool, fonts, images, used), r),
        cmds@.len() == 0,
        call_ensures(hide_used, (slots, high_water), hidden),
        high_water <= slots@.len(),
        call_ensures(pool_sizes, (), sizes),
    ensures
        r@.len() == 0,
        final(used).rects == 0 && final(used).texts == 0 && final(used).images == 0,
        hidden@.len() == high_water,
        forall|j: int| 0 <= j < high_water ==> hidden@[j] == slots@[j],
        sizes.rects == 128 && sizes.texts == 32 && sizes.images == 16,
{
}

} // verus!
