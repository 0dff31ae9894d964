//! The rig of a model: its targets, and how they are chosen and moved.

use vstd::prelude::*;

use crate::folds::{lemma_push_contains, lemma_take_next};
use crate::names::{
    in_order, law_sorted, sort_tagged, sorted_tags, tag_names, tag_views, views, Tagged,
};
use crate::scalar::{lifted, scalar, Scalar, ZERO};
use crate::text::{
    concat, decimal, decimal_digits, join, joined, push_line, switch, switch_text, truth,
    truth_text,
};

verus! {

/// How far a key moves a target (0.05), and the least distance of a drag.
pub const RIG_STEP: u32 = 0x3d4c_cccd;

/// How near the pointer must come to a target on the screen (24).
pub const PICK_DISTANCE: u32 = 0x41c0_0000;

/// What a node of a model is.
#[derive(Clone, Copy, PartialEq, Eq, Structural, Debug)]
pub enum AdsNodeKind {
    Standard,
    DeformationBone,
    IkTarget,
    Mechanical,
    Socket,
}

/// A node: its entity, the number of that entity, its kind and its name.
#[derive(Clone, Debug)]
pub struct RigNode {
    pub entity: u64,
    pub index: u32,
    pub kind: AdsNodeKind,
    pub name: Option<String>,
}

/// The targets of a model in the order of their names, and what is done with them.
#[derive(Clone, Debug)]
pub struct RigViewerState {
    pub ik_mode: bool,
    pub ik_targets: Vec<u64>,
    pub ik_names: Vec<String>,
    pub selected_ik: usize,
    pub hovered_ik: Option<usize>,
    pub dragging_ik: bool,
    pub drag_distance: Scalar,
    pub move_step: Scalar,
}

impl Default for RigViewerState {
    fn default() -> (r: Self)
        ensures
            !r.ik_mode,
            r.ik_targets@.len() == 0,
            r.ik_names@.len() == 0,
            r.selected_ik == 0,
            r.hovered_ik is None,
            !r.dragging_ik,
            r.drag_distance == scalar(ZERO),
            r.move_step == scalar(ZERO),
    {
        RigViewerState {
            ik_mode: false,
            ik_targets: Vec::new(),
            ik_names: Vec::new(),
            selected_ik: 0,
            hovered_ik: None,
            dragging_ik: false,
            drag_distance: scalar(ZERO),
            move_step: scalar(ZERO),
        }
    }
}

/// The name of a target: its own, or its number.
pub open spec fn target_name(node: RigNode) -> Seq<char> {
    match node.name {
        Some(n) => n@,
        None => "IK "@ + decimal_digits(node.index as nat),
    }
}

/// The targets among some nodes, with their names.
pub open spec fn targets_of(nodes: Seq<RigNode>) -> Seq<(Seq<char>, u64)>
    decreases nodes.len(),
{
    if nodes.len() == 0 {
        Seq::empty()
    } else {
        let front = targets_of(nodes.drop_last());
        if nodes.last().kind == AdsNodeKind::IkTarget {
            front.push((target_name(nodes.last()), nodes.last().entity))
        } else {
            front
        }
    }
}

/// The targets of some nodes in the order of their names.
pub open spec fn ordered_targets(nodes: Seq<RigNode>) -> Seq<(Seq<char>, u64)> {
    sorted_tags(targets_of(nodes))
}

pub open spec fn tags(v: Seq<(Seq<char>, u64)>) -> Seq<u64> {
    v.map_values(|t: (Seq<char>, u64)| t.1)
}

fn collect_targets(nodes: &Vec<RigNode>) -> (r: Vec<Tagged>)
    ensures
        tag_views(r@) == targets_of(nodes@),
{
    let mut r: Vec<Tagged> = Vec::new();
    let mut i: usize = 0;
    assert(nodes@.take(0) =~= Seq::<RigNode>::empty());
    assert(tag_views(r@) =~= Seq::<(Seq<char>, u64)>::empty());
    while i < nodes.len()
        invariant
            i <= nodes.len(),
            tag_views(r@) == targets_of(nodes@.take(i as int)),
        decreases nodes.len() - i,
    {
        let ghost before = r@;
        proof {
            lemma_take_next(nodes@, i as int);
        }
        if nodes[i].kind == AdsNodeKind::IkTarget {
            let name = match &nodes[i].name {
                Some(n) => n.clone(),
                None => {
                    let n = decimal(nodes[i].index as u64);
                    concat("IK ", n.as_str())
                },
            };
            r.push(Tagged { name, tag: nodes[i].entity });
            assert(tag_views(r@) =~= tag_views(before).push((name@, nodes@[i as int].entity)));
        }
        i = i + 1;
    }
    assert(nodes@.take(nodes.len() as int) =~= nodes@);
    r
}

/// The keys that move and choose targets. All but the first two are held.
#[derive(Clone, Copy, PartialEq, Eq, Structural, Debug)]
pub struct RigKeys {
    pub toggle_mode: bool,
    pub next_target: bool,
    pub shift: bool,
    pub left: bool,
    pub right: bool,
    pub up: bool,
    pub down: bool,
    pub back: bool,
    pub forth: bool,
}

/// A movement of a target along the axes: each is -1, 0 or 1 steps; a fast one
/// goes four times as far.
#[derive(Clone, Copy, PartialEq, Eq, Structural, Debug)]
pub struct RigMove {
    pub target: u64,
    pub x: i8,
    pub y: i8,
    pub z: i8,
    pub fast: bool,
}

/// One step for a key, one back for the other.
pub open spec fn axis(minus: bool, plus: bool) -> i8 {
    if minus == plus {
        0
    } else if plus {
        1
    } else {
        -1i8
    }
}

fn axis_of(minus: bool, plus: bool) -> (r: i8)
    ensures
        r == axis(minus, plus),
{
    if minus == plus {
        0
    } else if plus {
        1
    } else {
        -1
    }
}

/// What the user is told as the mode changes.
pub open spec fn mode_text(ik_mode: bool, names: Seq<Seq<char>>) -> Seq<char> {
    if names.len() == 0 {
        "IK režim: "@ + switch(ik_mode) + "\nIK prvky: 0\nSeznam: (žádné IK targety)"@
    } else {
        "IK režim: "@ + switch(ik_mode) + "\nIK prvky: "@ + decimal_digits(names.len())
            + "\nSeznam: "@ + joined(names, ", "@)
    }
}

/// What the keys of a frame ask for beside the rig's own state.
#[derive(Clone, Debug)]
pub struct RigOrders {
    /// The skeleton is shown from now on.
    pub show_skeleton: bool,
    pub status: Option<String>,
    pub movement: Option<RigMove>,
}

/// The chosen target after the key that chooses.
pub open spec fn chosen_after(selected: usize, n: nat, keys: RigKeys) -> usize {
    if n == 0 || !keys.next_target {
        selected
    } else if keys.shift {
        if selected == 0 {
            (n - 1) as usize
        } else {
            (selected - 1) as usize
        }
    } else {
        ((selected + 1) % n as int) as usize
    }
}

/// The movement that the keys of a frame ask for.
pub open spec fn movement_of(ik_mode: bool, targets: Seq<u64>, selected: usize, keys: RigKeys) -> Option<
    RigMove,
> {
    let m = RigMove {
        target: targets[selected as int],
        x: axis(keys.left, keys.right),
        y: axis(keys.down, keys.up),
        z: axis(keys.back, keys.forth),
        fast: keys.shift,
    };
    if ik_mode && selected < targets.len() && (m.x != 0 || m.y != 0 || m.z != 0) {
        Some(m)
    } else {
        None
    }
}

/// The nearest target under the pointer: of those near enough the first of the
/// nearest.
pub open spec fn nearest(distances: Seq<Option<Scalar>>) -> Option<(usize, Scalar)>
    decreases distances.len(),
{
    if distances.len() == 0 {
        None
    } else {
        let best = nearest(distances.drop_last());
        match distances.last() {
            Some(d) if d.at_most(scalar(PICK_DISTANCE)) => match best {
                Some((_, b)) if b.at_most(d) => best,
                _ => Some(((distances.len() - 1) as usize, d)),
            },
            _ => best,
        }
    }
}

/// The target under the pointer is as near as any.
pub proof fn law_hovered_is_nearest(distances: Seq<Option<Scalar>>)
    requires
        distances.len() <= usize::MAX,
    ensures
        match nearest(distances) {
            Some((i, d)) => i < distances.len() && distances[i as int] == Some(d) && d.at_most(
                scalar(PICK_DISTANCE),
            ) && forall|j: int|
                0 <= j < distances.len() && (#[trigger] distances[j] matches Some(e) && e.at_most(
                    scalar(PICK_DISTANCE),
                )) ==> d.at_most(distances[j]->0),
            None => forall|j: int|
                0 <= j < distances.len() ==> !(#[trigger] distances[j] matches Some(e)
                    && e.at_most(scalar(PICK_DISTANCE))),
        },
    decreases distances.len(),
{
    if distances.len() > 0 {
        law_hovered_is_nearest(distances.drop_last());
        let front = distances.drop_last();
        assert(forall|j: int| 0 <= j < front.len() ==> front[j] == #[trigger] distances[j]);
    }
}

fn find_nearest(distances: &Vec<Option<Scalar>>) -> (r: Option<usize>)
    ensures
        match (r, nearest(distances@)) {
            (Some(i), Some((k, _))) => i == k,
            (None, None) => true,
            _ => false,
        },
{
    let mut best: Option<(usize, Scalar)> = None;
    let mut i: usize = 0;
    assert(distances@.take(0) =~= Seq::<Option<Scalar>>::empty());
    while i < distances.len()
        invariant
            i <= distances.len(),
            best == nearest(distances@.take(i as int)),
        decreases distances.len() - i,
    {
        proof {
            lemma_take_next(distances@, i as int);
        }
        if let Some(d) = distances[i] {
            if d.le(scalar(PICK_DISTANCE)) {
                let keep = match best {
                    Some((_, b)) => b.le(d),
                    None => false,
                };
                if !keep {
                    best = Some((i, d));
                }
            }
        }
        i = i + 1;
    }
    assert(distances@.take(distances.len() as int) =~= distances@);
    match best {
        Some((k, _)) => Some(k),
        None => None,
    }
}

/// The mouse over the targets: their distances from the pointer on the screen
/// where they are seen, the distance of each from the camera, and the button.
#[derive(Clone, Debug)]
pub struct RigMouse {
    pub distances: Vec<Option<Scalar>>,
    pub depths: Vec<Option<Scalar>>,
    pub pressed: bool,
    pub just_pressed: bool,
    pub just_released: bool,
}

impl RigViewerState {
    /// What is chosen is there, where there is anything to choose from.
    pub open spec fn wf(self) -> bool {
        self.ik_targets@.len() > 0 ==> self.selected_ik < self.ik_targets@.len()
    }

    /// Takes over the targets of the model. A choice that is gone falls back to
    /// the first one.
    pub fn sync_rig_viewer_state(&mut self, nodes: &Vec<RigNode>)
        ensures
            ({
                let targets = ordered_targets(nodes@);
                let changed = tags(targets) != old(self).ik_targets@;
                &&& final(self).ik_targets@ == tags(targets)
                &&& changed ==> views(final(self).ik_names@) == tag_names(targets)
                &&& !changed ==> final(self).ik_names == old(self).ik_names
                &&& final(self).selected_ik == (if changed && old(self).selected_ik
                    >= targets.len() {
                    0
                } else {
                    old(self).selected_ik
                })
                &&& final(self).move_step == (if old(self).move_step.at_most(scalar(ZERO)) {
                    scalar(RIG_STEP)
                } else {
                    old(self).move_step
                })
                &&& final(self).ik_mode == old(self).ik_mode
                &&& final(self).hovered_ik == old(self).hovered_ik
                &&& final(self).dragging_ik == old(self).dragging_ik
                &&& final(self).drag_distance == old(self).drag_distance
                &&& old(self).wf() ==> final(self).wf()
            }),
    {
        let sorted = sort_tagged(collect_targets(nodes));
        let ghost targets = ordered_targets(nodes@);
        let mut entities: Vec<u64> = Vec::new();
        let mut names: Vec<String> = Vec::new();
        let mut i: usize = 0;
        while i < sorted.len()
            invariant
                i <= sorted@.len(),
                targets == tag_views(sorted@),
                entities@.len() == i,
                names@.len() == i,
                forall|j: int| 0 <= j < i ==> #[trigger] entities@[j] == sorted@[j].tag,
                forall|j: int| 0 <= j < i ==> (#[trigger] names@[j])@ == sorted@[j].name@,
            decreases sorted@.len() - i,
        {
            entities.push(sorted[i].tag);
            names.push(sorted[i].name.clone());
            i = i + 1;
        }
        assert(entities@ =~= tags(targets));
        assert(views(names@) =~= tag_names(targets));
        if !same_entities(&entities, &self.ik_targets) {
            self.ik_names = names;
            self.ik_targets = entities;
            if self.selected_ik >= self.ik_targets.len() {
                self.selected_ik = 0;
            }
        }
        if self.move_step.le(scalar(ZERO)) {
            self.move_step = scalar(RIG_STEP);
        }
    }

    /// Takes the keys of a frame.
    pub fn handle_rig_keyboard(&mut self, keys: RigKeys) -> (r: RigOrders)
        requires
            old(self).wf(),
        ensures
            ({
                let n = old(self).ik_targets@.len();
                &&& final(self).ik_mode == (old(self).ik_mode != keys.toggle_mode)
                &&& final(self).dragging_ik == (old(self).dragging_ik && !keys.toggle_mode)
                &&& final(self).selected_ik == chosen_after(old(self).selected_ik, n, keys)
                &&& final(self).ik_targets == old(self).ik_targets
                &&& final(self).ik_names == old(self).ik_names
                &&& final(self).hovered_ik == old(self).hovered_ik
                &&& final(self).drag_distance == old(self).drag_distance
                &&& final(self).move_step == old(self).move_step
                &&& final(self).wf()
                &&& r.show_skeleton == (keys.toggle_mode && final(self).ik_mode)
                &&& r.status is Some <==> keys.toggle_mode
                &&& r.status matches Some(text) ==> text@ == mode_text(
                    final(self).ik_mode,
                    views(old(self).ik_names@),
                )
                &&& r.movement == movement_of(
                    final(self).ik_mode,
                    old(self).ik_targets@,
                    final(self).selected_ik,
                    keys,
                )
            }),
    {
        let mut status: Option<String> = None;
        let mut show_skeleton = false;
        if keys.toggle_mode {
            self.ik_mode = !self.ik_mode;
            self.dragging_ik = false;
            show_skeleton = self.ik_mode;
            let mut text = concat("IK režim: ", switch_text(self.ik_mode));
            assert(views(self.ik_names@).len() == self.ik_names@.len());
            if self.ik_names.len() == 0 {
                text.append("\nIK prvky: 0\nSeznam: (žádné IK targety)");
            } else {
                let n = decimal(self.ik_names.len() as u64);
                let list = join(&self.ik_names, ", ");
                text.append("\nIK prvky: ");
                text.append(n.as_str());
                text.append("\nSeznam: ");
                text.append(list.as_str());
            }
            status = Some(text);
        }
        let n: usize = self.ik_targets.len();
        if n == 0 {
            return RigOrders { show_skeleton, status, movement: None };
        }
        if keys.next_target {
            if keys.shift {
                self.selected_ik = if self.selected_ik == 0 {
                    n - 1
                } else {
                    self.selected_ik - 1
                };
            } else {
                self.selected_ik = (self.selected_ik + 1) % n;
            }
        }
        let x: i8 = axis_of(keys.left, keys.right);
        let y: i8 = axis_of(keys.down, keys.up);
        let z: i8 = axis_of(keys.back, keys.forth);
        let movement = if self.ik_mode && (x != 0 || y != 0 || z != 0) {
            let target: u64 = self.ik_targets[self.selected_ik];
            Some(RigMove { target, x, y, z, fast: keys.shift })
        } else {
            None
        };
        RigOrders { show_skeleton, status, movement }
    }

    /// Takes the mouse of a frame; the result is the target that is dragged to
    /// the pointer. A press on a target picks it up at its own distance; away
    /// from the window, `mouse` is missing.
    pub fn handle_rig_mouse_drag(&mut self, mouse: &Option<RigMouse>) -> (r: Option<u64>)
        requires
            mouse matches Some(m) ==> m.distances@.len() == old(self).ik_targets@.len()
                && m.depths@.len() == old(self).ik_targets@.len(),
        ensures
            final(self).ik_mode == old(self).ik_mode,
            final(self).ik_targets == old(self).ik_targets,
            final(self).ik_names == old(self).ik_names,
            final(self).move_step == old(self).move_step,
            old(self).wf() ==> final(self).wf(),
            match *mouse {
                Some(m) if old(self).ik_mode && old(self).ik_targets@.len() > 0 => {
                    let hover = match nearest(m.distances@) {
                        Some((i, _)) => Some(i),
                        None => None,
                    };
                    let picked = m.just_pressed && hover is Some;
                    let lifted = picked && m.depths@[hover->0 as int] is Some;
                    &&& final(self).hovered_ik == hover
                    &&& final(self).selected_ik == (if picked {
                        hover->0
                    } else {
                        old(self).selected_ik
                    })
                    &&& final(self).drag_distance == (if lifted {
                        m.depths@[hover->0 as int]->0.larger(scalar(RIG_STEP))
                    } else {
                        old(self).drag_distance
                    })
                    &&& final(self).dragging_ik == (!m.just_released && (lifted || (
                    old(self).dragging_ik && !(m.just_pressed && hover is None))))
                    &&& r == (if final(self).dragging_ik && m.pressed && final(self).selected_ik
                        < old(self).ik_targets@.len() {
                        Some(old(self).ik_targets@[final(self).selected_ik as int])
                    } else {
                        None
                    })
                },
                _ => {
                    &&& final(self).hovered_ik is None
                    &&& !final(self).dragging_ik
                    &&& final(self).selected_ik == old(self).selected_ik
                    &&& final(self).drag_distance == old(self).drag_distance
                    &&& r is None
                },
            },
    {
        if !self.ik_mode || self.ik_targets.len() == 0 {
            self.hovered_ik = None;
            self.dragging_ik = false;
            return None;
        }
        let m = match mouse {
            Some(m) => m,
            None => {
                self.hovered_ik = None;
                self.dragging_ik = false;
                return None;
            },
        };
        self.hovered_ik = find_nearest(&m.distances);
        proof {
            law_hovered_is_nearest(m.distances@);
        }
        if m.just_pressed {
            match self.hovered_ik {
                Some(i) => {
                    self.selected_ik = i;
                    if let Some(depth) = m.depths[i] {
                        self.drag_distance = depth.max(scalar(RIG_STEP));
                        self.dragging_ik = true;
                    }
                },
                None => {
                    self.dragging_ik = false;
                },
            }
        }
        if m.just_released {
            self.dragging_ik = false;
        }
        if !self.dragging_ik || !m.pressed {
            return None;
        }
        if self.selected_ik < self.ik_targets.len() {
            Some(self.ik_targets[self.selected_ik])
        } else {
            None
        }
    }

    /// What the panel of the rig says; hidden while neither the skeleton nor
    /// the mode is on. `step` is the step in writing.
    pub fn update_rig_overlay(&self, skeleton: bool, nodes: u64, step: &str) -> (r: Option<String>)
        ensures
            r is Some <==> skeleton || self.ik_mode,
            r matches Some(text) ==> text@ == joined(
                rig_lines(*self, skeleton, nodes as nat, step@),
                "\n"@,
            ),
    {
        if !skeleton && !self.ik_mode {
            return None;
        }
        let selected = if self.selected_ik < self.ik_names.len() {
            self.ik_names[self.selected_ik].as_str()
        } else {
            "-"
        };
        let hovered = match self.hovered_ik {
            Some(i) => if i < self.ik_names.len() {
                self.ik_names[i].as_str()
            } else {
                "-"
            },
            None => "-",
        };
        let mut lines: Vec<String> = Vec::new();
        assert(views(lines@) =~= Seq::<Seq<char>>::empty());
        let mut a = concat("── Rig ──  Skeleton:", truth_text(skeleton));
        a.append("  IK edit:");
        a.append(truth_text(self.ik_mode));
        push_line(&mut lines, a);
        let n = decimal(self.ik_targets.len() as u64);
        let mut b = concat("IK targets: ", n.as_str());
        b.append("  Selected: ");
        b.append(selected);
        push_line(&mut lines, b);
        let mut c = concat("Hover: ", hovered);
        c.append("  Drag: ");
        c.append(switch_text(self.dragging_ik));
        push_line(&mut lines, c);
        push_line(&mut lines, concat("Move step: ", step));
        push_line(
            &mut lines,
            "X show bones | I IK mode | LMB pick+drag | Tab next target".to_string(),
        );
        push_line(
            &mut lines,
            "ArrowUp/ArrowDown Y+/- | J/L X-/+ | U/O Z-/+ | Shift = faster move".to_string(),
        );
        let count = decimal(nodes);
        push_line(&mut lines, concat("Rig entities: ", count.as_str()));
        Some(join(&lines, "\n"))
    }
}

/// The name at a place, or a dash.
pub open spec fn name_or_dash(names: Seq<String>, i: Option<usize>) -> Seq<char> {
    match i {
        Some(k) if k < names.len() => names[k as int]@,
        _ => "-"@,
    }
}

pub open spec fn rig_lines(
    rig: RigViewerState,
    skeleton: bool,
    nodes: nat,
    step: Seq<char>,
) -> Seq<Seq<char>> {
    Seq::empty().push(
        "── Rig ──  Skeleton:"@ + truth(skeleton) + "  IK edit:"@ + truth(rig.ik_mode),
    ).push(
        "IK targets: "@ + decimal_digits(rig.ik_targets@.len()) + "  Selected: "@ + name_or_dash(
            rig.ik_names@,
            Some(rig.selected_ik),
        ),
    ).push(
        "Hover: "@ + name_or_dash(rig.ik_names@, rig.hovered_ik) + "  Drag: "@ + switch(
            rig.dragging_ik,
        ),
    ).push("Move step: "@ + step).push(
        "X show bones | I IK mode | LMB pick+drag | Tab next target"@,
    ).push("ArrowUp/ArrowDown Y+/- | J/L X-/+ | U/O Z-/+ | Shift = faster move"@).push(
        "Rig entities: "@ + decimal_digits(nodes),
    )
}

fn same_entities(a: &Vec<u64>, b: &Vec<u64>) -> (r: bool)
    ensures
        r == (a@ == b@),
{
    if a.len() != b.len() {
        return false;
    }
    let mut i: usize = 0;
    while i < a.len()
        invariant
            a.len() == b.len(),
            i <= a.len(),
            forall|j: int| 0 <= j < i ==> a@[j] == b@[j],
        decreases a.len() - i,
    {
        if a[i] != b[i] {
            return false;
        }
        i = i + 1;
    }
    assert(a@ =~= b@);
    true
}

/// The mark of a node on the skeleton.
#[derive(Clone, Copy, PartialEq, Eq, Structural, Debug)]
pub enum BoneMark {
    Bone,
    Target,
    SelectedTarget,
    HoveredTarget,
    Mechanical,
    Socket,
}

/// How a node is drawn: its mark, and whether a line leads to its parent.
#[derive(Clone, Copy, PartialEq, Eq, Structural, Debug)]
pub struct BoneDrawing {
    pub mark: BoneMark,
    pub line_to_parent: bool,
}

/// How a node of the skeleton is drawn; plain nodes are not.
pub fn draw_skeleton_overlay(
    entity: u64,
    kind: AdsNodeKind,
    parent: Option<AdsNodeKind>,
    selected: Option<u64>,
    hovered: Option<u64>,
) -> (r: Option<BoneDrawing>)
    ensures
        r is None <==> kind == AdsNodeKind::Standard,
        r matches Some(d) ==> {
            &&& d.mark == match kind {
                AdsNodeKind::Mechanical => BoneMark::Mechanical,
                AdsNodeKind::Socket => BoneMark::Socket,
                AdsNodeKind::IkTarget => if selected == Some(entity) {
                    BoneMark::SelectedTarget
                } else if hovered == Some(entity) {
                    BoneMark::HoveredTarget
                } else {
                    BoneMark::Target
                },
                _ => BoneMark::Bone,
            }
            &&& d.line_to_parent == (parent matches Some(p) && (kind == AdsNodeKind::DeformationBone
                || kind == AdsNodeKind::IkTarget || p == AdsNodeKind::DeformationBone))
        },
{
    let is_selected = match selected {
        Some(e) => e == entity,
        None => false,
    };
    let is_hovered = match hovered {
        Some(e) => e == entity,
        None => false,
    };
    let mark = match kind {
        AdsNodeKind::Standard => {
            return None;
        },
        AdsNodeKind::DeformationBone => BoneMark::Bone,
        AdsNodeKind::IkTarget => if is_selected {
            BoneMark::SelectedTarget
        } else if is_hovered {
            BoneMark::HoveredTarget
        } else {
            BoneMark::Target
        },
        AdsNodeKind::Mechanical => BoneMark::Mechanical,
        AdsNodeKind::Socket => BoneMark::Socket,
    };
    let line_to_parent = match parent {
        Some(p) => kind == AdsNodeKind::DeformationBone || kind == AdsNodeKind::IkTarget || p
            == AdsNodeKind::DeformationBone,
        None => false,
    };
    Some(BoneDrawing { mark, line_to_parent })
}

proof fn lemma_targets_hold(nodes: Seq<RigNode>, k: int)
    requires
        0 <= k < nodes.len(),
    ensures
        nodes[k].kind == AdsNodeKind::IkTarget ==> targets_of(nodes).contains(
            (target_name(nodes[k]), nodes[k].entity),
        ),
    decreases nodes.len(),
{
    let front = nodes.drop_last();
    let t = (target_name(nodes[k]), nodes[k].entity);
    let last = (target_name(nodes.last()), nodes.last().entity);
    lemma_push_contains(targets_of(front), last, t);
    if k < front.len() {
        assert(front[k] == nodes[k]);
        lemma_targets_hold(front, k);
    }
}

proof fn lemma_targets_are(nodes: Seq<RigNode>, t: (Seq<char>, u64))
    requires
        targets_of(nodes).contains(t),
    ensures
        exists|k: int|
            0 <= k < nodes.len() && (#[trigger] nodes[k]).kind == AdsNodeKind::IkTarget
                && nodes[k].entity == t.1 && target_name(nodes[k]) == t.0,
    decreases nodes.len(),
{
    if nodes.len() > 0 {
        let front = nodes.drop_last();
        let last = (target_name(nodes.last()), nodes.last().entity);
        lemma_push_contains(targets_of(front), last, t);
        if targets_of(front).contains(t) {
            lemma_targets_are(front, t);
            let k = choose|k: int|
                0 <= k < front.len() && (#[trigger] front[k]).kind == AdsNodeKind::IkTarget
                    && front[k].entity == t.1 && target_name(front[k]) == t.0;
            assert(nodes[k] == front[k]);
        } else {
            assert(nodes[nodes.len() - 1] == nodes.last());
        }
    }
}

/// The targets of a model: every node that is one and no other, in the order of
/// their names, where a node without a name goes by its number.
pub proof fn law_targets_listed(rig: &mut RigViewerState, nodes: &Vec<RigNode>, k: int, i: int, j: int)
    requires
        call_ensures(RigViewerState::sync_rig_viewer_state, (rig, nodes), ()),
        0 <= k < nodes@.len(),
        0 <= i < j < final(rig).ik_targets@.len(),
        final(rig).ik_targets@ != old(rig).ik_targets@,
    ensures
        nodes@[k].kind is IkTarget ==> final(rig).ik_targets@.contains(nodes@[k].entity),
        final(rig).ik_names@.len() == final(rig).ik_targets@.len(),
        in_order(final(rig).ik_names@[i]@, final(rig).ik_names@[j]@),
        exists|m: int|
            0 <= m < nodes@.len() && (#[trigger] nodes@[m]).kind is IkTarget && nodes@[m].entity
                == final(rig).ik_targets@[i] && final(rig).ik_names@[i]@ == (match nodes@[m].name {
                Some(n) => n@,
                None => "IK "@ + decimal_digits(nodes@[m].index as nat),
            }),
{
    let all = targets_of(nodes@);
    let sorted = ordered_targets(nodes@);
    law_sorted(all);
    broadcast use vstd::seq_lib::group_to_multiset_ensures;

    let t = (target_name(nodes@[k]), nodes@[k].entity);
    lemma_targets_hold(nodes@, k);
    if nodes@[k].kind is IkTarget {
        assert(all.to_multiset().contains(t));
        assert(sorted.to_multiset().contains(t));
        assert(sorted.contains(t));
        let p = choose|p: int| 0 <= p < sorted.len() && sorted[p] == t;
        assert(final(rig).ik_targets@[p] == nodes@[k].entity);
    }
    let names = views(final(rig).ik_names@);
    assert(names.len() == final(rig).ik_names@.len());
    assert(names[i] == final(rig).ik_names@[i]@);
    assert(names[j] == final(rig).ik_names@[j]@);
    assert(names[i] == sorted[i].0 && names[j] == sorted[j].0);
    assert(in_order(sorted[i].0, sorted[j].0));
    assert(sorted.contains(sorted[i]));
    assert(sorted.to_multiset().contains(sorted[i]));
    assert(all.to_multiset().contains(sorted[i]));
    assert(all.contains(sorted[i]));
    lemma_targets_are(nodes@, sorted[i]);
    let m = choose|m: int|
        0 <= m < nodes@.len() && (#[trigger] nodes@[m]).kind == AdsNodeKind::IkTarget
            && nodes@[m].entity == sorted[i].1 && target_name(nodes@[m]) == sorted[i].0;
    assert(nodes@[m].kind is IkTarget);
}

/// The rest of the rig as the targets are taken over: a choice that is there
/// stays, one that is gone falls back to the first, and a step that is none is set
/// to a twentieth.
pub proof fn law_rig_synced(rig: &mut RigViewerState, nodes: &Vec<RigNode>)
    requires
        call_ensures(RigViewerState::sync_rig_viewer_state, (rig, nodes), ()),
    ensures
        final(rig).ik_mode == old(rig).ik_mode && final(rig).hovered_ik == old(rig).hovered_ik
            && final(rig).dragging_ik == old(rig).dragging_ik && final(rig).drag_distance == old(rig).drag_distance,
        old(rig).selected_ik < final(rig).ik_targets@.len() ==> final(rig).selected_ik == old(rig).selected_ik,
        final(rig).ik_targets@ == old(rig).ik_targets@ ==> final(rig).selected_ik == old(rig).selected_ik && final(rig).ik_names == old(rig).ik_names,
        final(rig).ik_targets@ != old(rig).ik_targets@ && old(rig).selected_ik >= final(rig).ik_targets@.len() ==> final(rig).selected_ik == 0,
        old(rig).move_step.at_most(scalar(0)) ==> final(rig).move_step == scalar(0x3d4c_cccd),
        !old(rig).move_step.at_most(scalar(0)) ==> final(rig).move_step == old(rig).move_step,
{
    assert(tags(ordered_targets(nodes@)).len() == ordered_targets(nodes@).len());
}

/// The keys of the rig: one changes the mode, which ends a drag, shows the
/// skeleton as it comes on and is told to the user; another goes on to the next
/// target, or with shift back, each in a circle.
pub proof fn law_rig_keys(rig: &mut RigViewerState, keys: RigKeys, r: RigOrders, n: int)
    requires
        call_ensures(RigViewerState::handle_rig_keyboard, (rig, keys), r),
        old(rig).wf(),
        n == old(rig).ik_targets@.len(),
    ensures
        keys.toggle_mode <==> final(rig).ik_mode != old(rig).ik_mode,
        keys.toggle_mode ==> !final(rig).dragging_ik,
        !keys.toggle_mode ==> final(rig).dragging_ik == old(rig).dragging_ik,
        r.show_skeleton <==> keys.toggle_mode && !old(rig).ik_mode,
        r.status is Some <==> keys.toggle_mode,
        r.status matches Some(text) ==> (old(rig).ik_names@.len() == 0 ==> text@ == "IK režim: "@
            + switch(final(rig).ik_mode) + "\nIK prvky: 0\nSeznam: (žádné IK targety)"@),
        r.status matches Some(text) ==> (old(rig).ik_names@.len() > 0 ==> text@ == "IK režim: "@
            + switch(final(rig).ik_mode) + "\nIK prvky: "@ + decimal_digits(
            old(rig).ik_names@.len(),
        ) + "\nSeznam: "@ + joined(views(old(rig).ik_names@), ", "@)),
        !keys.next_target || n == 0 ==> final(rig).selected_ik == old(rig).selected_ik,
        keys.next_target && n > 0 && !keys.shift ==> final(rig).selected_ik == (if old(rig).selected_ik + 1 == n {
            0
        } else {
            old(rig).selected_ik + 1
        }),
        keys.next_target && n > 0 && keys.shift ==> final(rig).selected_ik == (if old(rig).selected_ik == 0 {
            n - 1
        } else {
            old(rig).selected_ik - 1
        }),
        final(rig).ik_targets == old(rig).ik_targets && final(rig).ik_names == old(rig).ik_names
            && final(rig).hovered_ik == old(rig).hovered_ik && final(rig).drag_distance == old(rig).drag_distance && final(rig).move_step == old(rig).move_step,
{
    assert(views(old(rig).ik_names@).len() == old(rig).ik_names@.len());
    assert(old(rig).ik_targets@.len() == old(rig).ik_targets.len());
    let i = old(rig).selected_ik as int;
    if n > 0 && i + 1 < n {
        assert((i + 1) % n == i + 1) by (nonlinear_arith)
            requires
                0 <= i + 1 < n,
        ;
    } else if n > 0 {
        assert((i + 1) % n == 0) by (nonlinear_arith)
            requires
                i + 1 == n,
                n > 0,
        ;
    }
}

/// A target moves where the mode is on and a key without its opposite is held:
/// each pair of keys moves the chosen target a step along its axis, forward or
/// back, and shift makes it fast.
pub proof fn law_rig_moves(rig: &mut RigViewerState, keys: RigKeys, r: RigOrders)
    requires
        call_ensures(RigViewerState::handle_rig_keyboard, (rig, keys), r),
    ensures
        r.movement is Some <==> final(rig).ik_mode && final(rig).selected_ik < old(rig).ik_targets@.len() && (keys.left != keys.right || keys.down != keys.up || keys.back
            != keys.forth),
        r.movement matches Some(m) ==> {
            &&& m.target == old(rig).ik_targets@[final(rig).selected_ik as int]
            &&& m.fast == keys.shift
            &&& m.x == (if keys.right {
                1int
            } else {
                0
            }) - (if keys.left {
                1int
            } else {
                0
            })
            &&& m.y == (if keys.up {
                1int
            } else {
                0
            }) - (if keys.down {
                1int
            } else {
                0
            })
            &&& m.z == (if keys.forth {
                1int
            } else {
                0
            }) - (if keys.back {
                1int
            } else {
                0
            })
        },
{
}

/// The target under the pointer lies within twenty-four points of it, and no
/// other one is nearer; where there is none, none lies as near. Outside the mode,
/// without targets and away from the window nothing is under the pointer and
/// nothing is dragged.
pub proof fn law_hovered_target(
    rig: &mut RigViewerState,
    mouse: &Option<RigMouse>,
    r: Option<u64>,
    j: int,
)
    requires
        call_ensures(RigViewerState::handle_rig_mouse_drag, (rig, mouse), r),
        mouse matches Some(m) ==> 0 <= j < m.distances@.len(),
    ensures
        mouse is None || !old(rig).ik_mode || old(rig).ik_targets@.len() == 0 ==> final(rig).hovered_ik is None && !final(rig).dragging_ik && r is None && final(rig).selected_ik
            == old(rig).selected_ik,
        mouse matches Some(m) ==> (final(rig).hovered_ik matches Some(i) ==> i < m.distances@.len()
            && m.distances@[i as int] is Some && m.distances@[i as int]->0.at_most(
            scalar(0x41c0_0000),
        )),
        mouse matches Some(m) ==> (final(rig).hovered_ik matches Some(i) ==> (m.distances@[j] is Some
            && m.distances@[j]->0.at_most(scalar(0x41c0_0000)) ==> m.distances@[i as int]->0.at_most(
            m.distances@[j]->0,
        ))),
        mouse matches Some(m) ==> (old(rig).ik_mode && old(rig).ik_targets@.len() > 0
            && m.distances@[j] is Some && m.distances@[j]->0.at_most(scalar(0x41c0_0000)) ==> final(rig).hovered_ik is Some),
{
    if mouse is Some {
        let m = mouse->0;
        assert(m.distances@.len() == m.distances.len());
        law_hovered_is_nearest(m.distances@);
    }
}

/// A press on a target chooses it and picks it up at its distance from the
/// camera, a twentieth at least, where that is known; a press beside all targets
/// and a release end the drag. While it lasts and the button is held, the chosen
/// target follows the pointer.
pub proof fn law_target_dragged(rig: &mut RigViewerState, mouse: &Option<RigMouse>, r: Option<u64>)
    requires
        call_ensures(RigViewerState::handle_rig_mouse_drag, (rig, mouse), r),
        mouse is Some,
        old(rig).ik_mode,
        old(rig).ik_targets@.len() > 0,
        mouse->0.depths@.len() == old(rig).ik_targets@.len(),
    ensures
        ({
            let m = mouse->0;
            &&& !m.just_pressed ==> final(rig).selected_ik == old(rig).selected_ik && final(rig).drag_distance == old(rig).drag_distance
            &&& m.just_pressed && final(rig).hovered_ik is None ==> final(rig).selected_ik == old(rig).selected_ik && !final(rig).dragging_ik
            &&& m.just_pressed ==> (final(rig).hovered_ik matches Some(i) ==> final(rig).selected_ik == i)
            &&& m.just_pressed ==> (final(rig).hovered_ik matches Some(i) ==> (
            m.depths@[i as int] matches Some(d) ==> lifted(
                d,
                scalar(0x3d4c_cccd),
                final(rig).drag_distance,
            ) && final(rig).dragging_ik == !m.just_released))
            &&& m.just_released ==> !final(rig).dragging_ik
            &&& !m.just_pressed && !m.just_released ==> final(rig).dragging_ik == old(rig).dragging_ik
            &&& r is Some <==> final(rig).dragging_ik && m.pressed && final(rig).selected_ik < old(rig).ik_targets@.len()
            &&& r matches Some(e) ==> e == old(rig).ik_targets@[final(rig).selected_ik as int]
        }),
{
}

/// The panel of the rig: the two switches, the targets, the one that is chosen
/// and the one under the pointer, the drag, the step and the keys.
pub proof fn law_rig_panel(
    rig: &RigViewerState,
    skeleton: bool,
    nodes: u64,
    step: &str,
    r: Option<String>,
    lines: Seq<Seq<char>>,
)
    requires
        call_ensures(RigViewerState::update_rig_overlay, (rig, skeleton, nodes, step), r),
        lines.len() == 7,
        lines[0] == "── Rig ──  Skeleton:"@ + truth(skeleton) + "  IK edit:"@ + truth(rig.ik_mode),
        lines[1] == "IK targets: "@ + decimal_digits(rig.ik_targets@.len()) + "  Selected: "@ + (
        if rig.selected_ik < rig.ik_names@.len() {
            rig.ik_names@[rig.selected_ik as int]@
        } else {
            "-"@
        }),
        lines[2] == "Hover: "@ + (match rig.hovered_ik {
            Some(i) => if i < rig.ik_names@.len() {
                rig.ik_names@[i as int]@
            } else {
                "-"@
            },
            None => "-"@,
        }) + "  Drag: "@ + switch(rig.dragging_ik),
        lines[3] == "Move step: "@ + step@,
        lines[4] == "X show bones | I IK mode | LMB pick+drag | Tab next target"@,
        lines[5] == "ArrowUp/ArrowDown Y+/- | J/L X-/+ | U/O Z-/+ | Shift = faster move"@,
        lines[6] == "Rig entities: "@ + decimal_digits(nodes as nat),
    ensures
        r is Some <==> skeleton || rig.ik_mode,
        r matches Some(text) ==> text@ == joined(lines, "\n"@),
{
    let all = rig_lines(*rig, skeleton, nodes as nat, step@);
    assert(all =~= lines);
}

/// The marks on the skeleton: each kind of node has its own, and of the targets
/// the chosen one and the one under the pointer stand out. A line leads from a
/// bone or a target to its parent, and from any other node to a bone above it.
pub proof fn law_skeleton_drawn(
    entity: u64,
    kind: AdsNodeKind,
    parent: Option<AdsNodeKind>,
    selected: Option<u64>,
    hovered: Option<u64>,
    r: Option<BoneDrawing>,
)
    requires
        call_ensures(draw_skeleton_overlay, (entity, kind, parent, selected, hovered), r),
    ensures
        r is None <==> kind is Standard,
        r matches Some(d) ==> {
            &&& d.mark is Bone <==> kind is DeformationBone
            &&& d.mark is Mechanical <==> kind is Mechanical
            &&& d.mark is Socket <==> kind is Socket
            &&& d.mark is SelectedTarget <==> kind is IkTarget && selected == Some(entity)
            &&& d.mark is HoveredTarget <==> kind is IkTarget && selected != Some(entity) && hovered
                == Some(entity)
            &&& d.mark is Target <==> kind is IkTarget && selected != Some(entity) && hovered
                != Some(entity)
            &&& parent is None ==> !d.line_to_parent
            &&& parent matches Some(p) ==> (d.line_to_parent <==> kind is DeformationBone
                || kind is IkTarget || p is DeformationBone)
        },
{
}

/// At first the mode is off, and there are no targets and no step.
pub proof fn law_rig_start(r: RigViewerState)
    requires
        call_ensures(RigViewerState::default, (), r),
    ensures
        !r.ik_mode && !r.dragging_ik && r.hovered_ik is None && r.selected_ik == 0,
        r.ik_targets@.len() == 0 && r.ik_names@.len() == 0,
        r.drag_distance == scalar(0) && r.move_step == scalar(0),
{
}

} // verus!
