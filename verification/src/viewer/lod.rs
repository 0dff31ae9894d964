//! Levels of detail of a model, and a level that is forced for a look at it.

use vstd::prelude::*;

use crate::folds::lemma_take_next;
use crate::names::views;
use crate::text::{concat, decimal, decimal_digits, join, joined, push_line};

verus! {

/// A group of levels: how many there are, their distances in writing, the level
/// that is shown (255 for none) and whether the model vanishes behind the last.
#[derive(Clone, Debug)]
pub struct LodGroup {
    pub levels: usize,
    pub distances: Vec<String>,
    pub active_lod: u8,
    pub cull_beyond_last: bool,
}

/// The level that is forced, and whether the panel shows.
#[derive(Clone, Copy, PartialEq, Eq, Structural, Debug)]
pub struct LodViewerState {
    pub forced: Option<u8>,
    pub panel_active: bool,
}

impl Default for LodViewerState {
    fn default() -> (r: Self)
        ensures
            r == (LodViewerState { forced: None, panel_active: false }),
    {
        LodViewerState { forced: None, panel_active: false }
    }
}

/// The most levels that a group has.
pub open spec fn most_levels(groups: Seq<LodGroup>) -> nat
    decreases groups.len(),
{
    if groups.len() == 0 {
        0
    } else {
        let front = most_levels(groups.drop_last());
        if groups.last().levels > front {
            groups.last().levels as nat
        } else {
            front
        }
    }
}

/// The levels of all groups together.
pub open spec fn all_levels(groups: Seq<LodGroup>) -> nat
    decreases groups.len(),
{
    if groups.len() == 0 {
        0
    } else {
        all_levels(groups.drop_last()) + groups.last().levels as nat
    }
}

/// The level behind a forced one: the first one at first, none behind the last.
pub open spec fn next_forced(forced: Option<u8>, levels: nat) -> Option<u8> {
    match forced {
        None => Some(0),
        Some(n) => if n + 1 >= levels {
            None
        } else {
            Some(((n + 1) % 256) as u8)
        },
    }
}

fn find_most_levels(groups: &Vec<LodGroup>) -> (r: usize)
    ensures
        r == most_levels(groups@),
{
    let mut most: usize = 0;
    let mut i: usize = 0;
    assert(groups@.take(0) =~= Seq::<LodGroup>::empty());
    while i < groups.len()
        invariant
            i <= groups.len(),
            most == most_levels(groups@.take(i as int)),
        decreases groups.len() - i,
    {
        proof {
            lemma_take_next(groups@, i as int);
        }
        if groups[i].levels > most {
            most = groups[i].levels;
        }
        i = i + 1;
    }
    assert(groups@.take(groups.len() as int) =~= groups@);
    most
}

/// What a group is called that shows `n`.
pub open spec fn active_text(active: u8) -> Seq<char> {
    if active == 255 {
        "—"@
    } else {
        "LOD"@ + decimal_digits(active as nat)
    }
}

pub open spec fn group_line(i: nat, g: LodGroup) -> Seq<char> {
    "  ["@ + decimal_digits(i) + "] "@ + decimal_digits(g.levels as nat)
        + " úrovní  vzdálenosti:["@ + (if g.distances@.len() == 0 {
        "výchozí"@
    } else {
        joined(views(g.distances@), ", "@)
    }) + "]  aktivní:"@ + active_text(g.active_lod) + (if g.cull_beyond_last {
        "  cull"@
    } else {
        Seq::empty()
    })
}

/// Some lines and those of the first groups.
pub open spec fn with_group_lines(lines: Seq<Seq<char>>, groups: Seq<LodGroup>) -> Seq<Seq<char>>
    decreases groups.len(),
{
    if groups.len() == 0 {
        lines
    } else {
        with_group_lines(lines, groups.drop_last()).push(
            group_line((groups.len() - 1) as nat, groups.last()),
        )
    }
}

pub open spec fn mode_name(forced: Option<u8>) -> Seq<char> {
    match forced {
        None => "auto"@,
        Some(n) => "LOD"@ + decimal_digits(n as nat) + " vynuceno"@,
    }
}

/// The text of the panel.
pub open spec fn panel_text(forced: Option<u8>, groups: Seq<LodGroup>) -> Seq<char> {
    if groups.len() == 0 {
        "── LOD ──\nŽádné LOD skupiny (model nemá _LOD1+ uzly)"@
    } else {
        joined(
            with_group_lines(
                Seq::empty().push("── LOD ("@ + mode_name(forced) + ") ──"@).push(
                    "Skupiny: "@ + decimal_digits(groups.len()) + "  celkem úrovní: "@
                        + decimal_digits(all_levels(groups)),
                ),
                groups,
            ),
            "\n"@,
        )
    }
}

proof fn lemma_levels_grow(groups: Seq<LodGroup>, i: int)
    requires
        0 <= i <= groups.len(),
    ensures
        all_levels(groups.take(i)) <= all_levels(groups),
    decreases groups.len() - i,
{
    if i < groups.len() {
        lemma_levels_grow(groups, i + 1);
        lemma_take_next(groups, i);
    } else {
        assert(groups.take(i) =~= groups);
    }
}

impl LodViewerState {
    /// The key that forces the next level. While targets are edited it does
    /// something else.
    pub fn handle_lod_key(&mut self, ik_mode: bool, pressed: bool, groups: &Vec<LodGroup>)
        ensures
            *final(self) == (if ik_mode || !pressed {
                *old(self)
            } else {
                LodViewerState {
                    panel_active: true,
                    forced: if most_levels(groups@) == 0 {
                        old(self).forced
                    } else {
                        next_forced(old(self).forced, most_levels(groups@))
                    },
                }
            }),
    {
        if ik_mode || !pressed {
            return;
        }
        self.panel_active = true;
        let levels: usize = find_most_levels(groups);
        if levels == 0 {
            return;
        }
        self.forced = match self.forced {
            None => Some(0),
            Some(n) => {
                let next: usize = n as usize + 1;
                if next >= levels {
                    None
                } else {
                    Some((next % 256) as u8)
                }
            },
        };
    }

    /// Which levels of each group show while one is forced. A group then counts
    /// as showing none by distance.
    pub fn apply_forced_lod(&self, groups: &mut Vec<LodGroup>) -> (r: Option<Vec<Vec<bool>>>)
        ensures
            final(groups)@.len() == old(groups)@.len(),
            match (self.forced, r) {
                (Some(forced), Some(shown)) => {
                    &&& shown@.len() == old(groups)@.len()
                    &&& forall|k: int|
                        0 <= k < shown@.len() ==> {
                            &&& only_forced((#[trigger] shown@[k])@, old(groups)@[k].levels, forced)
                            &&& final(groups)@[k] == (LodGroup {
                                active_lod: 255,
                                ..old(groups)@[k]
                            })
                        }
                },
                (None, None) => final(groups)@ == old(groups)@,
                _ => false,
            },
    {
        let forced: u8 = match self.forced {
            Some(n) => n,
            None => {
                return None;
            },
        };
        let ghost before = groups@;
        let mut shown: Vec<Vec<bool>> = Vec::new();
        let mut k: usize = 0;
        while k < groups.len()
            invariant
                k <= groups.len(),
                groups@.len() == before.len(),
                shown@.len() == k,
                forall|j: int|
                    0 <= j < k ==> {
                        &&& only_forced((#[trigger] shown@[j])@, before[j].levels, forced)
                        &&& groups@[j] == (LodGroup { active_lod: 255, ..before[j] })
                    },
                forall|j: int| k <= j < before.len() ==> #[trigger] groups@[j] == before[j],
            decreases groups.len() - k,
        {
            groups[k].active_lod = 255;
            shown.push(show_only(groups[k].levels, forced));
            k = k + 1;
        }
        Some(shown)
    }

    /// The text of the panel; it shows once there are groups or the key was
    /// pressed.
    pub fn update_lod_panel(&mut self, groups: &Vec<LodGroup>) -> (r: Option<String>)
        requires
            all_levels(groups@) <= u64::MAX,
        ensures
            final(self).forced == old(self).forced,
            final(self).panel_active == (old(self).panel_active || groups@.len() > 0),
            r is Some <==> final(self).panel_active,
            r matches Some(text) ==> text@ == panel_text(old(self).forced, groups@),
    {
        if groups.len() > 0 {
            self.panel_active = true;
        }
        if !self.panel_active {
            return None;
        }
        if groups.len() == 0 {
            return Some("── LOD ──\nŽádné LOD skupiny (model nemá _LOD1+ uzly)".to_string());
        }
        let mut total: u64 = 0;
        let mut k: usize = 0;
        assert(groups@.take(0) =~= Seq::<LodGroup>::empty());
        while k < groups.len()
            invariant
                k <= groups.len(),
                all_levels(groups@) <= u64::MAX,
                total == all_levels(groups@.take(k as int)),
            decreases groups.len() - k,
        {
            proof {
                lemma_take_next(groups@, k as int);
                lemma_levels_grow(groups@, k + 1);
            }
            total = total + groups[k].levels as u64;
            k = k + 1;
        }
        assert(groups@.take(groups.len() as int) =~= groups@);
        let mode = match self.forced {
            None => "auto".to_string(),
            Some(n) => {
                let d = decimal(n as u64);
                let mut m = concat("LOD", d.as_str());
                m.append(" vynuceno");
                m
            },
        };
        let mut lines: Vec<String> = Vec::new();
        assert(views(lines@) =~= Seq::<Seq<char>>::empty());
        let mut head = concat("── LOD (", mode.as_str());
        head.append(") ──");
        push_line(&mut lines, head);
        let count = decimal(groups.len() as u64);
        let sum = decimal(total);
        let mut second = concat("Skupiny: ", count.as_str());
        second.append("  celkem úrovní: ");
        second.append(sum.as_str());
        push_line(&mut lines, second);
        let ghost start = views(lines@);
        let mut i: usize = 0;
        assert(groups@.take(0) =~= Seq::<LodGroup>::empty());
        while i < groups.len()
            invariant
                i <= groups.len(),
                views(lines@) == with_group_lines(start, groups@.take(i as int)),
            decreases groups.len() - i,
        {
            proof {
                lemma_take_next(groups@, i as int);
            }
            push_line(&mut lines, line_of(i, &groups[i]));
            i = i + 1;
        }
        assert(groups@.take(groups.len() as int) =~= groups@);
        Some(join(&lines, "\n"))
    }
}

/// Of some levels the forced one shows, and no other.
pub open spec fn only_forced(shown: Seq<bool>, levels: usize, forced: u8) -> bool {
    shown.len() == levels && forall|i: int|
        0 <= i < levels ==> #[trigger] shown[i] == (i % 256 == forced)
}

fn show_only(levels: usize, forced: u8) -> (r: Vec<bool>)
    ensures
        only_forced(r@, levels, forced),
{
    let mut r: Vec<bool> = Vec::new();
    let mut i: usize = 0;
    while i < levels
        invariant
            i <= levels,
            r@.len() == i,
            forall|j: int| 0 <= j < i ==> #[trigger] r@[j] == (j % 256 == forced),
        decreases levels - i,
    {
        r.push((i % 256) as u8 == forced);
        i = i + 1;
    }
    r
}

fn line_of(i: usize, g: &LodGroup) -> (r: String)
    ensures
        r@ == group_line(i as nat, *g),
{
    let index = decimal(i as u64);
    let levels = decimal(g.levels as u64);
    let mut r = concat("  [", index.as_str());
    r.append("] ");
    r.append(levels.as_str());
    r.append(" úrovní  vzdálenosti:[");
    if g.distances.len() == 0 {
        r.append("výchozí");
    } else {
        let list = join(&g.distances, ", ");
        r.append(list.as_str());
    }
    r.append("]  aktivní:");
    if g.active_lod == 255 {
        r.append("—");
    } else {
        let n = decimal(g.active_lod as u64);
        let name = concat("LOD", n.as_str());
        r.append(name.as_str());
    }
    if g.cull_beyond_last {
        r.append("  cull");
    } else {
        assert(r@ + Seq::<char>::empty() =~= r@);
    }
    r
}

/// While a level of a group is forced, exactly that one shows.
pub proof fn law_one_level_shows(shown: Seq<bool>, levels: usize, forced: u8, i: int)
    requires
        only_forced(shown, levels, forced),
        levels <= 256,
        0 <= i < levels,
    ensures
        shown[i] <==> i == forced,
{
}

/// Pressing the key as often as there are levels and once more forces none
/// again: each press goes one level on.
pub proof fn law_levels_cycle(forced: u8, levels: nat)
    requires
        levels <= 256,
        forced < levels,
    ensures
        next_forced(None, levels) == Some(0u8),
        forced + 1 < levels ==> next_forced(Some(forced), levels) == Some((forced + 1) as u8),
        forced + 1 == levels ==> next_forced(Some(forced), levels) is None,
{
}

/// The color of the circle of a distance: one of three, and a fourth one for
/// all behind them.
pub fn circle_color(i: usize) -> (r: usize)
    ensures
        r == (if i < 3 {
            i
        } else {
            3
        }),
{
    if i < 3 {
        i
    } else {
        3
    }
}

proof fn lemma_most_levels(groups: Seq<LodGroup>, k: int)
    requires
        0 <= k < groups.len(),
        forall|j: int| 0 <= j < groups.len() ==> (#[trigger] groups[j]).levels <= groups[k].levels,
    ensures
        most_levels(groups) == groups[k].levels,
    decreases groups.len(),
{
    let front = groups.drop_last();
    assert forall|j: int| 0 <= j < front.len() implies (#[trigger] front[j]).levels
        <= groups[k].levels by {
        assert(front[j] == groups[j]);
    }
    if k < front.len() {
        lemma_most_levels(front, k);
        assert(groups.last() == groups[groups.len() - 1]);
    } else {
        lemma_levels_at_most(front, groups[k].levels);
    }
}

proof fn lemma_levels_at_most(groups: Seq<LodGroup>, most: usize)
    requires
        forall|j: int| 0 <= j < groups.len() ==> (#[trigger] groups[j]).levels <= most,
    ensures
        most_levels(groups) <= most,
    decreases groups.len(),
{
    if groups.len() > 0 {
        let front = groups.drop_last();
        assert forall|j: int| 0 <= j < front.len() implies (#[trigger] front[j]).levels <= most by {
            assert(front[j] == groups[j]);
        }
        lemma_levels_at_most(front, most);
        assert(groups.last() == groups[groups.len() - 1]);
    }
}

/// The key opens the panel and forces the first level, then the next one, and
/// behind the last level of the group with the most of them none again; group
/// `k` is that group. While targets are edited the key does nothing.
pub proof fn law_lod_key(
    state: &mut LodViewerState,
    ik_mode: bool,
    pressed: bool,
    groups: &Vec<LodGroup>,
    k: int,
)
    requires
        call_ensures(LodViewerState::handle_lod_key, (state, ik_mode, pressed, groups), ()),
        groups@.len() > 0 ==> 0 <= k < groups@.len() && forall|j: int|
            0 <= j < groups@.len() ==> (#[trigger] groups@[j]).levels <= groups@[k].levels,
    ensures
        ik_mode || !pressed ==> *final(state) == *old(state),
        !ik_mode && pressed ==> final(state).panel_active,
        groups@.len() == 0 || groups@[k].levels == 0 ==> final(state).forced == old(state).forced,
        !ik_mode && pressed && groups@.len() > 0 && groups@[k].levels > 0 ==> {
            &&& old(state).forced is None ==> final(state).forced == Some(0u8)
            &&& old(state).forced matches Some(n) ==> (n + 1 < groups@[k].levels && n < 255 ==> (
            final(state).forced matches Some(m) && m == n + 1))
            &&& old(state).forced matches Some(n) ==> (n + 1 >= groups@[k].levels ==> final(state).forced is None)
        },
{
    if groups@.len() > 0 {
        lemma_most_levels(groups@, k);
    }
}

/// While a level is forced each group shows that level alone and counts as
/// showing none by distance; without a forced level nothing is changed.
pub proof fn law_forced_level(
    state: &LodViewerState,
    groups: &mut Vec<LodGroup>,
    r: Option<Vec<Vec<bool>>>,
    k: int,
    i: int,
)
    requires
        call_ensures(LodViewerState::apply_forced_lod, (state, groups), r),
        0 <= k < old(groups)@.len(),
        0 <= i < old(groups)@[k].levels,
        old(groups)@[k].levels <= 256,
    ensures
        final(groups)@.len() == old(groups)@.len(),
        state.forced is None ==> r is None && final(groups)@ == old(groups)@,
        state.forced matches Some(n) ==> {
            &&& r is Some
            &&& r->0@.len() == old(groups)@.len()
            &&& r->0@[k]@.len() == old(groups)@[k].levels
            &&& r->0@[k]@[i] == (i == n)
            &&& final(groups)@[k].active_lod == 255
            &&& final(groups)@[k].levels == old(groups)@[k].levels
            &&& final(groups)@[k].distances == old(groups)@[k].distances
            &&& final(groups)@[k].cull_beyond_last == old(groups)@[k].cull_beyond_last
        },
{
    if state.forced is Some {
        let shown = r->0@;
        assert(only_forced(shown[k]@, old(groups)@[k].levels, state.forced->0));
    }
}

proof fn lemma_group_lines(lines: Seq<Seq<char>>, groups: Seq<LodGroup>)
    ensures
        with_group_lines(lines, groups).len() == lines.len() + groups.len(),
        forall|i: int|
            0 <= i < lines.len() ==> #[trigger] with_group_lines(lines, groups)[i] == lines[i],
        forall|i: int|
            0 <= i < groups.len() ==> with_group_lines(lines, groups)[lines.len() + i]
                == group_line(i as nat, #[trigger] groups[i]),
    decreases groups.len(),
{
    if groups.len() > 0 {
        let front = groups.drop_last();
        lemma_group_lines(lines, front);
        assert forall|i: int| 0 <= i < groups.len() implies with_group_lines(lines, groups)[lines.len()
            + i] == group_line(i as nat, #[trigger] groups[i]) by {
            if i < front.len() {
                assert(front[i] == groups[i]);
            }
        }
    }
}

proof fn lemma_all_levels(groups: Seq<LodGroup>, sums: Seq<nat>)
    requires
        sums.len() == groups.len() + 1,
        sums[0] == 0,
        forall|i: int|
            0 <= i < groups.len() ==> sums[i + 1] == sums[i] + (#[trigger] groups[i]).levels,
    ensures
        all_levels(groups) == sums.last(),
    decreases groups.len(),
{
    if groups.len() > 0 {
        let front = groups.drop_last();
        let some = sums.drop_last();
        assert forall|i: int| 0 <= i < front.len() implies some[i + 1] == some[i] + (
        #[trigger] front[i]).levels by {
            assert(front[i] == groups[i]);
        }
        lemma_all_levels(front, some);
        assert(groups[groups.len() - 1] == groups.last());
    }
}

/// The panel shows once there are groups or the key was pressed. It tells which
/// level is forced, how many groups and levels there are, and of each group its
/// levels, its distances and the level that it shows. `sums` are the levels of
/// the first groups together.
pub proof fn law_lod_panel(
    state: &mut LodViewerState,
    groups: &Vec<LodGroup>,
    r: Option<String>,
    lines: Seq<Seq<char>>,
    sums: Seq<nat>,
)
    requires
        call_ensures(LodViewerState::update_lod_panel, (state, groups), r),
        sums.len() == groups@.len() + 1,
        sums[0] == 0,
        forall|i: int|
            0 <= i < groups@.len() ==> sums[i + 1] == sums[i] + (#[trigger] groups@[i]).levels,
        lines.len() == groups@.len() + 2,
        lines[0] == "── LOD ("@ + (match old(state).forced {
            None => "auto"@,
            Some(n) => "LOD"@ + decimal_digits(n as nat) + " vynuceno"@,
        }) + ") ──"@,
        lines[1] == "Skupiny: "@ + decimal_digits(groups@.len()) + "  celkem úrovní: "@
            + decimal_digits(sums.last()),
        forall|i: int|
            0 <= i < groups@.len() ==> lines[i + 2] == "  ["@ + decimal_digits(i as nat) + "] "@
                + decimal_digits((#[trigger] groups@[i]).levels as nat)
                + " úrovní  vzdálenosti:["@ + (if groups@[i].distances@.len() == 0 {
                "výchozí"@
            } else {
                joined(views(groups@[i].distances@), ", "@)
            }) + "]  aktivní:"@ + (if groups@[i].active_lod == 255 {
                "—"@
            } else {
                "LOD"@ + decimal_digits(groups@[i].active_lod as nat)
            }) + (if groups@[i].cull_beyond_last {
                "  cull"@
            } else {
                Seq::empty()
            }),
    ensures
        r is Some <==> old(state).panel_active || groups@.len() > 0,
        final(state).panel_active == r is Some,
        final(state).forced == old(state).forced,
        r is Some && groups@.len() > 0 ==> r->0@ == joined(lines, "\n"@),
        r is Some && groups@.len() == 0 ==> r->0@
            == "── LOD ──\nŽádné LOD skupiny (model nemá _LOD1+ uzly)"@,
{
    let g = groups@;
    lemma_all_levels(g, sums);
    let head = Seq::empty().push("── LOD ("@ + mode_name(old(state).forced) + ") ──"@).push(
        "Skupiny: "@ + decimal_digits(g.len()) + "  celkem úrovní: "@ + decimal_digits(
            all_levels(g),
        ),
    );
    lemma_group_lines(head, g);
    let all = with_group_lines(head, g);
    assert forall|i: int| 0 <= i < all.len() implies all[i] == lines[i] by {
        if i >= 2 {
            let x = g[i - 2];
            assert(all[2 + (i - 2)] == group_line((i - 2) as nat, x));
            assert(lines[(i - 2) + 2] == group_line((i - 2) as nat, x));
        } else {
            assert(all[i] == head[i]);
        }
    }
    assert(all =~= lines);
}

/// The first three circles have colors of their own, and all others share one.
pub proof fn law_circle_colors(i: usize, j: usize, a: usize, b: usize)
    requires
        call_ensures(circle_color, (i,), a),
        call_ensures(circle_color, (j,), b),
    ensures
        a <= 3,
        i <= 3 ==> a == i,
        a == b <==> i == j || (i >= 3 && j >= 3),
{
}

/// At first no level is forced and the panel is closed.
pub proof fn law_lod_start(r: LodViewerState)
    requires
        call_ensures(LodViewerState::default, (), r),
    ensures
        r.forced is None && !r.panel_active,
{
}

} // verus!
