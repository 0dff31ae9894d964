//! The texts over the model viewer: of the models and of their animations.

use vstd::prelude::*;

use crate::drawable::{TextureSource, TextureSlot};
use crate::folds::lemma_take_next;
use crate::names::{
    law_sorted, lemma_views_take, sort_tagged, sorted_tags, tag_views, views, Tagged,
};
use crate::text::{
    concat, decimal, decimal_digits, join, joined, push_line, truth, truth_text,
};
use crate::viewer::animation::{AdmAnimationBrowser, BrowserView};

verus! {

/// A model that can be animated: how it is called, and what it has. Without
/// attached sets, `sets` is missing.
#[derive(Clone, Debug)]
pub struct RootInfo {
    pub label: String,
    pub model: String,
    pub sets: Option<usize>,
    pub clips: usize,
    pub dicts: usize,
}

pub open spec fn root_line(r: RootInfo) -> Seq<char> {
    let start = "  root "@ + r.label@ + " model:"@ + r.model@ + " sets:"@;
    match r.sets {
        None => start + "0"@,
        Some(n) => if r.clips > 0 {
            start + decimal_digits(n as nat) + " clips:"@ + decimal_digits(r.clips as nat)
                + " dicts:"@ + decimal_digits(r.dicts as nat)
        } else {
            start + decimal_digits(n as nat) + " clips:0 (asset not ready or parse failed)"@
        },
    }
}

fn line_of_root(r: &RootInfo) -> (line: String)
    ensures
        line@ == root_line(*r),
{
    let mut line = concat("  root ", r.label.as_str());
    line.append(" model:");
    line.append(r.model.as_str());
    line.append(" sets:");
    match r.sets {
        None => {
            line.append("0");
        },
        Some(n) => {
            let sets = decimal(n as u64);
            line.append(sets.as_str());
            if r.clips > 0 {
                let clips = decimal(r.clips as u64);
                let dicts = decimal(r.dicts as u64);
                line.append(" clips:");
                line.append(clips.as_str());
                line.append(" dicts:");
                line.append(dicts.as_str());
            } else {
                line.append(" clips:0 (asset not ready or parse failed)");
            }
        },
    }
    line
}

/// Some lines and those of the models.
pub open spec fn with_roots(lines: Seq<Seq<char>>, roots: Seq<RootInfo>) -> Seq<Seq<char>>
    decreases roots.len(),
{
    if roots.len() == 0 {
        lines
    } else {
        with_roots(lines, roots.drop_last()).push(root_line(roots.last()))
    }
}

fn push_roots(lines: &mut Vec<String>, roots: &Vec<RootInfo>)
    ensures
        views(final(lines)@) == with_roots(views(old(lines)@), roots@),
{
    let mut i: usize = 0;
    assert(roots@.take(0) =~= Seq::<RootInfo>::empty());
    while i < roots.len()
        invariant
            i <= roots.len(),
            views(lines@) == with_roots(views(old(lines)@), roots@.take(i as int)),
        decreases roots.len() - i,
    {
        proof {
            lemma_take_next(roots@, i as int);
        }
        push_line(lines, line_of_root(&roots[i]));
        i = i + 1;
    }
    assert(roots@.take(roots.len() as int) =~= roots@);
}

/// How many models have sets attached, and how many of these have clips.
pub open spec fn with_sets(roots: Seq<RootInfo>) -> nat
    decreases roots.len(),
{
    if roots.len() == 0 {
        0
    } else {
        with_sets(roots.drop_last()) + if roots.last().sets is Some {
            1nat
        } else {
            0
        }
    }
}

pub open spec fn with_clips(roots: Seq<RootInfo>) -> nat
    decreases roots.len(),
{
    if roots.len() == 0 {
        0
    } else {
        with_clips(roots.drop_last()) + if roots.last().sets is Some && roots.last().clips > 0 {
            1nat
        } else {
            0
        }
    }
}

fn count_roots(roots: &Vec<RootInfo>) -> (r: (u64, u64))
    ensures
        r.0 == with_sets(roots@),
        r.1 == with_clips(roots@),
{
    let mut sets: u64 = 0;
    let mut clips: u64 = 0;
    let mut i: usize = 0;
    assert(roots@.take(0) =~= Seq::<RootInfo>::empty());
    while i < roots.len()
        invariant
            i <= roots.len(),
            sets == with_sets(roots@.take(i as int)),
            clips == with_clips(roots@.take(i as int)),
            sets <= i,
            clips <= i,
        decreases roots.len() - i,
    {
        proof {
            lemma_take_next(roots@, i as int);
        }
        if roots[i].sets.is_some() {
            sets = sets + 1;
            if roots[i].clips > 0 {
                clips = clips + 1;
            }
        }
        i = i + 1;
    }
    assert(roots@.take(roots.len() as int) =~= roots@);
    (sets, clips)
}

/// What is said while nothing is animated.
pub open spec fn idle_lines(roots: Seq<RootInfo>) -> Seq<Seq<char>> {
    Seq::empty().push("── Animace ──"@).push("Žádné aktivní animace."@).push(
        "Nahraj .adm a .ads_anim (s klipy)."@,
    ).push("Ovládání: N/→ další clip, B/← předchozí, Space pauza."@).push(
        "PageUp/PageDown přepíná dictionary."@,
    ).push("Roots s AttachedAnimSets: "@ + decimal_digits(with_sets(roots))).push(
        "Roots s načtenými klipy: "@ + decimal_digits(with_clips(roots)),
    )
}

/// `>` before what is chosen.
pub open spec fn pointer(chosen: bool) -> Seq<char> {
    if chosen {
        "> "@
    } else {
        "  "@
    }
}

/// Some lines and a list of names, the chosen one marked; `badge` follows it.
pub open spec fn with_list(
    lines: Seq<Seq<char>>,
    names: Seq<Seq<char>>,
    chosen: int,
    badge: Seq<char>,
) -> Seq<Seq<char>>
    decreases names.len(),
{
    if names.len() == 0 {
        lines
    } else {
        let i = names.len() - 1;
        with_list(lines, names.drop_last(), chosen, badge).push(
            pointer(i == chosen) + names.last() + (if i == chosen {
                badge
            } else {
                Seq::empty()
            }),
        )
    }
}

fn push_list(lines: &mut Vec<String>, names: &Vec<String>, chosen: usize, badge: &str)
    ensures
        views(final(lines)@) == with_list(
            views(old(lines)@),
            views(names@),
            chosen as int,
            badge@,
        ),
{
    let mut i: usize = 0;
    assert(views(names@.take(0)) =~= Seq::<Seq<char>>::empty());
    while i < names.len()
        invariant
            i <= names.len(),
            views(lines@) == with_list(
                views(old(lines)@),
                views(names@.take(i as int)),
                chosen as int,
                badge@,
            ),
        decreases names.len() - i,
    {
        proof {
            lemma_views_take(names@, i as int);
        }
        let line = if i == chosen {
            let mut l = concat("> ", names[i].as_str());
            l.append(badge);
            l
        } else {
            let l = concat("  ", names[i].as_str());
            assert(l@ + Seq::<char>::empty() =~= l@);
            l
        };
        push_line(lines, line);
        i = i + 1;
    }
    assert(names@.take(names.len() as int) =~= names@);
}

/// Some lines and the marks of a clip, their times in writing.
pub open spec fn with_marks(
    lines: Seq<Seq<char>>,
    times: Seq<Seq<char>>,
    names: Seq<Seq<char>>,
) -> Seq<Seq<char>>
    decreases names.len(),
{
    if names.len() == 0 {
        lines
    } else {
        with_marks(lines, times, names.drop_last()).push(
            "  "@ + times[names.len() - 1] + "s  "@ + names.last(),
        )
    }
}

pub open spec fn mark_names(b: BrowserView) -> Seq<Seq<char>> {
    Seq::new(b.marks.len(), |i: int| b.marks[i].1)
}

pub open spec fn at_or(names: Seq<Seq<char>>, i: usize, other: Seq<char>) -> Seq<char> {
    if i < names.len() {
        names[i as int]
    } else {
        other
    }
}

pub open spec fn at_least_one(n: nat) -> nat {
    if n == 0 {
        1
    } else {
        n
    }
}

/// The number of marks behind the chosen clip.
pub open spec fn badge_of(b: BrowserView) -> Seq<char> {
    if b.marks.len() == 0 {
        Seq::empty()
    } else {
        " ["@ + decimal_digits(b.marks.len()) + "✱]"@
    }
}

/// The six lines at the top.
pub open spec fn head_lines(b: BrowserView, speed: Seq<char>) -> Seq<Seq<char>> {
    let model = match b.model {
        Some(m) => m,
        None => "ADM"@,
    };
    Seq::empty().push("── Animace ("@ + model + ") ──"@).push(
        "Dict: "@ + at_or(b.dicts, b.dict, "ALL"@) + "  ["@ + decimal_digits(b.dict as nat + 1)
            + "/"@ + decimal_digits(at_least_one(b.dicts.len())) + "]"@,
    ).push(
        "Clip: "@ + at_or(b.clips, b.clip, "-"@) + "  ["@ + decimal_digits(b.clip as nat + 1) + "/"@
            + decimal_digits(at_least_one(b.clips.len())) + "]"@,
    ).push(
        "Flags: "@ + decimal_digits(b.flags as nat) + "  Speed: "@ + speed + "  Loop: "@ + truth(
            b.looping,
        ) + "  Paused: "@ + truth(b.paused),
    ).push("PageUp/PageDown dict | N/→ next clip | B/← prev clip | Space pause"@).push(
        "1 all | 2 lower body | 3 upper body | 4 right arm | 5 left arm | 6 ride+smoke"@,
    )
}

/// What is said of the model that is animated, and of all models.
pub open spec fn active_lines(
    b: BrowserView,
    speed: Seq<char>,
    times: Seq<Seq<char>>,
    roots: Seq<RootInfo>,
) -> Seq<Seq<char>> {
    let head = head_lines(b, speed);
    let dicts = if b.dicts.len() == 0 {
        head
    } else {
        with_list(head.push("Dicty:"@), b.dicts, b.dict as int, Seq::empty())
    };
    let marks = if b.marks.len() == 0 {
        dicts.push("Notifies: žádné (ADS_ANIM bez markerů)"@)
    } else {
        with_marks(
            dicts.push("Notifies: "@ + decimal_digits(b.marks.len()) + "x"@),
            times,
            mark_names(b),
        )
    };
    let clips = if b.clips.len() == 0 {
        marks
    } else {
        with_list(marks.push("Clipy:"@), b.clips, b.clip as int, badge_of(b))
    };
    with_roots(
        clips.push(Seq::empty()).push("Runtime debug:"@).push(
            "Runtime roots with AnimationState: "@ + decimal_digits(roots.len()),
        ),
        roots,
    )
}

fn bracketed(start: &str, name: &str, at: usize, of: usize) -> (r: String)
    requires
        at < usize::MAX,
    ensures
        r@ == start@ + name@ + "  ["@ + decimal_digits(at as nat + 1) + "/"@ + decimal_digits(
            at_least_one(of as nat),
        ) + "]"@,
{
    let place = decimal(at as u64 + 1);
    let total = decimal(if of == 0 {
        1
    } else {
        of as u64
    });
    let mut r = concat(start, name);
    r.append("  [");
    r.append(place.as_str());
    r.append("/");
    r.append(total.as_str());
    r.append("]");
    r
}

fn push_head(lines: &mut Vec<String>, b: &AdmAnimationBrowser, speed: &str)
    requires
        b.selected_dict_idx < usize::MAX,
        b.selected_idx < usize::MAX,
        b@.root is Some,
        old(lines)@.len() == 0,
    ensures
        views(final(lines)@) == head_lines(b@, speed@),
{
    assert(views(lines@) =~= Seq::<Seq<char>>::empty());
    proof {
        assert(views(b.dictionaries@).len() == b.dictionaries@.len());
        assert(views(b.clips@).len() == b.clips@.len());
    }
    let model = match &b.model_name {
        Some(m) => m.as_str(),
        None => "ADM",
    };
    let mut title = concat("── Animace (", model);
    title.append(") ──");
    push_line(lines, title);
    let dict = if b.selected_dict_idx < b.dictionaries.len() {
        b.dictionaries[b.selected_dict_idx].as_str()
    } else {
        "ALL"
    };
    push_line(lines, bracketed("Dict: ", dict, b.selected_dict_idx, b.dictionaries.len()));
    let clip = if b.selected_idx < b.clips.len() {
        b.clips[b.selected_idx].as_str()
    } else {
        "-"
    };
    push_line(lines, bracketed("Clip: ", clip, b.selected_idx, b.clips.len()));
    let flags = decimal(b.flags as u64);
    let mut playing = concat("Flags: ", flags.as_str());
    playing.append("  Speed: ");
    playing.append(speed);
    playing.append("  Loop: ");
    playing.append(truth_text(b.looping));
    playing.append("  Paused: ");
    playing.append(truth_text(b.paused));
    push_line(lines, playing);
    push_line(
        lines,
        "PageUp/PageDown dict | N/→ next clip | B/← prev clip | Space pause".to_string(),
    );
    push_line(
        lines,
        "1 all | 2 lower body | 3 upper body | 4 right arm | 5 left arm | 6 ride+smoke".to_string(),
    );
}

fn push_marks(lines: &mut Vec<String>, b: &AdmAnimationBrowser, times: &Vec<String>)
    requires
        times@.len() == b.notifies@.len(),
    ensures
        views(final(lines)@) == with_marks(views(old(lines)@), views(times@), mark_names(b@)),
{
    let ghost names = mark_names(b@);
    let mut i: usize = 0;
    assert(names.take(0) =~= Seq::<Seq<char>>::empty());
    while i < b.notifies.len()
        invariant
            i <= b.notifies@.len(),
            times@.len() == b.notifies@.len(),
            names == mark_names(b@),
            names.len() == b.notifies@.len(),
            views(lines@) == with_marks(views(old(lines)@), views(times@), names.take(i as int)),
        decreases b.notifies@.len() - i,
    {
        proof {
            lemma_take_next(names, i as int);
            assert(names.take(i + 1).last() == b.notifies@[i as int].name@);
            assert(views(times@)[i as int] == times@[i as int]@);
        }
        let mut line = concat("  ", times[i].as_str());
        line.append("s  ");
        line.append(b.notifies[i].name.as_str());
        push_line(lines, line);
        i = i + 1;
    }
    assert(names.take(i as int) =~= names);
}

/// The text of the animation panel. `speed` and `times` are the speed and the
/// times of the marks in writing.
pub fn update_animation_overlay(
    b: &AdmAnimationBrowser,
    speed: &str,
    times: &Vec<String>,
    roots: &Vec<RootInfo>,
) -> (r: String)
    requires
        b.root is Some ==> b.selected_dict_idx < usize::MAX && b.selected_idx < usize::MAX,
        times@.len() == b.notifies@.len(),
    ensures
        r@ == joined(
            if b.root is None {
                idle_lines(roots@)
            } else {
                active_lines(b@, speed@, views(times@), roots@)
            },
            "\n"@,
        ),
{
    let mut lines: Vec<String> = Vec::new();
    if b.root.is_none() {
        let (sets, clips) = count_roots(roots);
        assert(views(lines@) =~= Seq::<Seq<char>>::empty());
        push_line(&mut lines, "── Animace ──".to_string());
        push_line(&mut lines, "Žádné aktivní animace.".to_string());
        push_line(&mut lines, "Nahraj .adm a .ads_anim (s klipy).".to_string());
        push_line(&mut lines, "Ovládání: N/→ další clip, B/← předchozí, Space pauza.".to_string());
        push_line(&mut lines, "PageUp/PageDown přepíná dictionary.".to_string());
        let n = decimal(sets);
        push_line(&mut lines, concat("Roots s AttachedAnimSets: ", n.as_str()));
        let m = decimal(clips);
        push_line(&mut lines, concat("Roots s načtenými klipy: ", m.as_str()));
        return join(&lines, "\n");
    }
    proof {
        assert(views(b.dictionaries@).len() == b.dictionaries@.len());
        assert(views(b.clips@).len() == b.clips@.len());
        reveal_strlit("");
        assert(""@ =~= Seq::<char>::empty());
    }
    push_head(&mut lines, b, speed);
    if b.dictionaries.len() > 0 {
        push_line(&mut lines, "Dicty:".to_string());
        push_list(&mut lines, &b.dictionaries, b.selected_dict_idx, "");
    }
    let badge = if b.notifies.len() == 0 {
        push_line(&mut lines, "Notifies: žádné (ADS_ANIM bez markerů)".to_string());
        "".to_string()
    } else {
        let n = decimal(b.notifies.len() as u64);
        let mut count = concat("Notifies: ", n.as_str());
        count.append("x");
        push_line(&mut lines, count);
        push_marks(&mut lines, b, times);
        let mut badge = concat(" [", n.as_str());
        badge.append("✱]");
        badge
    };
    if b.clips.len() > 0 {
        push_line(&mut lines, "Clipy:".to_string());
        push_list(&mut lines, &b.clips, b.selected_idx, badge.as_str());
    }
    push_line(&mut lines, "".to_string());
    push_line(&mut lines, "Runtime debug:".to_string());
    let n = decimal(roots.len() as u64);
    push_line(&mut lines, concat("Runtime roots with AnimationState: ", n.as_str()));
    push_roots(&mut lines, roots);
    join(&lines, "\n")
}

/// The parameters of a material in writing.
#[derive(Clone, Debug)]
pub struct ParamTexts {
    pub tiling: Option<String>,
    pub l0_tiling: Option<String>,
    pub l1_tiling: Option<String>,
    pub snow: Option<String>,
    pub dirt: Option<String>,
    pub wet: Option<String>,
    pub porosity: Option<String>,
    /// The four parts, commas between them.
    pub tint: Option<String>,
    pub opacity_mode: Option<String>,
    pub alpha_threshold: Option<String>,
}

#[derive(Clone, Debug)]
pub struct MaterialInfo {
    pub name: String,
    pub template: String,
    pub textures: Vec<TextureSlot>,
    pub params: ParamTexts,
}

/// What a manifest says of its model.
#[derive(Clone, Debug)]
pub struct ManifestInfo {
    pub asset_name: String,
    pub version: String,
    pub meshes: usize,
    pub collisions: usize,
    pub materials: Vec<MaterialInfo>,
}

/// The manifest of a model: there is none, it is not there yet, or it is.
#[derive(Clone, Debug)]
pub enum ManifestState {
    Missing,
    Pending,
    Loaded(ManifestInfo),
}

/// A glTF model and its counts.
#[derive(Clone, Debug)]
pub struct ModelInfo {
    pub stem: String,
    pub meshes: usize,
    pub materials: usize,
    pub textures: usize,
    pub nodes: usize,
    pub animations: usize,
    pub manifest: ManifestState,
}

/// Some parameters and one more, where it is there.
pub open spec fn with_param(params: Seq<Seq<char>>, label: Seq<char>, value: Option<String>) -> Seq<
    Seq<char>,
> {
    match value {
        Some(v) => params.push(label + v@),
        None => params,
    }
}

/// The parameters of a material, in order.
pub open spec fn param_list(p: ParamTexts) -> Seq<Seq<char>> {
    let numbers = with_param(
        with_param(
            with_param(
                with_param(
                    with_param(
                        with_param(
                            with_param(Seq::empty(), "tiling:"@, p.tiling),
                            "l0_tiling:"@,
                            p.l0_tiling,
                        ),
                        "l1_tiling:"@,
                        p.l1_tiling,
                    ),
                    "snow:"@,
                    p.snow,
                ),
                "dirt:"@,
                p.dirt,
            ),
            "wet:"@,
            p.wet,
        ),
        "porosity:"@,
        p.porosity,
    );
    let tinted = match p.tint {
        Some(t) => numbers.push("tint:["@ + t@ + "]"@),
        None => numbers,
    };
    match p.opacity_mode {
        Some(m) => tinted.push(
            "alpha:"@ + m@ + match p.alpha_threshold {
                Some(t) => "@"@ + t@,
                None => Seq::empty(),
            },
        ),
        None => tinted,
    }
}

fn push_param(params: &mut Vec<String>, label: &str, value: &Option<String>)
    ensures
        views(final(params)@) == with_param(views(old(params)@), label@, *value),
{
    if let Some(v) = value {
        push_line(params, concat(label, v.as_str()));
    }
}

fn list_params(p: &ParamTexts) -> (r: Vec<String>)
    ensures
        views(r@) == param_list(*p),
{
    let mut r: Vec<String> = Vec::new();
    assert(views(r@) =~= Seq::<Seq<char>>::empty());
    push_param(&mut r, "tiling:", &p.tiling);
    push_param(&mut r, "l0_tiling:", &p.l0_tiling);
    push_param(&mut r, "l1_tiling:", &p.l1_tiling);
    push_param(&mut r, "snow:", &p.snow);
    push_param(&mut r, "dirt:", &p.dirt);
    push_param(&mut r, "wet:", &p.wet);
    push_param(&mut r, "porosity:", &p.porosity);
    if let Some(t) = &p.tint {
        let mut line = concat("tint:[", t.as_str());
        line.append("]");
        push_line(&mut r, line);
    }
    if let Some(m) = &p.opacity_mode {
        let mut line = concat("alpha:", m.as_str());
        match &p.alpha_threshold {
            Some(t) => {
                let at = concat("@", t.as_str());
                line.append(at.as_str());
            },
            None => {
                assert(line@ + Seq::<char>::empty() =~= line@);
            },
        }
        push_line(&mut r, line);
    }
    r
}

/// The slots of a material, with their places, in the order of their names.
pub open spec fn slot_order(textures: Seq<TextureSlot>) -> Seq<(Seq<char>, u64)> {
    sorted_tags(Seq::new(textures.len(), |i: int| (textures[i].slot@, i as u64)))
}

pub open spec fn texture_line(t: TextureSlot) -> Seq<char> {
    "    "@ + t.slot@ + " → "@ + t.info.name@ + (if t.info.source == TextureSource::Embedded {
        " (embedded)"@
    } else {
        " (shared)"@
    })
}

/// Some lines and those of the first textures of an order.
pub open spec fn with_textures(
    lines: Seq<Seq<char>>,
    textures: Seq<TextureSlot>,
    order: Seq<(Seq<char>, u64)>,
) -> Seq<Seq<char>>
    decreases order.len(),
{
    if order.len() == 0 {
        lines
    } else {
        with_textures(lines, textures, order.drop_last()).push(
            texture_line(textures[order.last().1 as int]),
        )
    }
}

/// Some lines and those of a material.
pub open spec fn with_material(lines: Seq<Seq<char>>, m: MaterialInfo) -> Seq<Seq<char>> {
    let textures = with_textures(
        lines.push("  ["@ + m.name@ + "]  template:"@ + m.template@),
        m.textures@,
        slot_order(m.textures@),
    );
    if param_list(m.params).len() == 0 {
        textures
    } else {
        textures.push("    params: "@ + joined(param_list(m.params), "  "@))
    }
}

/// The materials with their places, in the order of their names.
pub open spec fn material_order(materials: Seq<MaterialInfo>) -> Seq<(Seq<char>, u64)> {
    sorted_tags(Seq::new(materials.len(), |i: int| (materials[i].name@, i as u64)))
}

pub open spec fn with_materials(
    lines: Seq<Seq<char>>,
    materials: Seq<MaterialInfo>,
    order: Seq<(Seq<char>, u64)>,
) -> Seq<Seq<char>>
    decreases order.len(),
{
    if order.len() == 0 {
        lines
    } else {
        with_material(
            with_materials(lines, materials, order.drop_last()),
            materials[order.last().1 as int],
        )
    }
}

/// Some lines and those of a manifest.
pub open spec fn with_manifest(lines: Seq<Seq<char>>, m: ManifestInfo) -> Seq<Seq<char>> {
    let head = lines.push("Drawable  asset:"@ + m.asset_name@ + " v"@ + m.version@);
    let counts = if m.meshes == 0 && m.collisions == 0 {
        head
    } else {
        head.push(
            "Entities  MESH:"@ + decimal_digits(m.meshes as nat) + " COLLISION:"@ + decimal_digits(
                m.collisions as nat,
            ),
        )
    };
    with_materials(counts, m.materials@, material_order(m.materials@))
}

/// Some lines and those of a model.
pub open spec fn with_model(lines: Seq<Seq<char>>, m: ModelInfo) -> Seq<Seq<char>> {
    let head = lines.push("── "@ + m.stem@ + " ──"@).push(
        "GLB  meshes:"@ + decimal_digits(m.meshes as nat) + " materials:"@ + decimal_digits(
            m.materials as nat,
        ) + " textures:"@ + decimal_digits(m.textures as nat) + " nodes:"@ + decimal_digits(
            m.nodes as nat,
        ) + " animations:"@ + decimal_digits(m.animations as nat),
    );
    match m.manifest {
        ManifestState::Missing => head.push("Drawable  (žádný manifest)"@),
        ManifestState::Pending => head,
        ManifestState::Loaded(info) => with_manifest(head, info),
    }
}

pub open spec fn with_models(lines: Seq<Seq<char>>, models: Seq<ModelInfo>) -> Seq<Seq<char>>
    decreases models.len(),
{
    if models.len() == 0 {
        lines
    } else {
        with_model(with_models(lines, models.drop_last()), models.last())
    }
}

/// Every number of the order is that of an entry.
spec fn in_range(order: Seq<(Seq<char>, u64)>, n: nat) -> bool {
    forall|i: int| 0 <= i < order.len() ==> (#[trigger] order[i]).1 < n
}

proof fn lemma_order_in_range(v: Seq<(Seq<char>, u64)>, n: nat)
    requires
        in_range(v, n),
    ensures
        in_range(sorted_tags(v), n),
        sorted_tags(v).len() == v.len(),
    decreases v.len(),
{
    if v.len() > 0 {
        let front = v.drop_last();
        assert forall|i: int| 0 <= i < front.len() implies (#[trigger] front[i]).1 < n by {
            assert(front[i] == v[i]);
        }
        lemma_order_in_range(front, n);
        crate::names::law_sorted(v);
        let sorted = sorted_tags(front);
        let p = crate::names::place_of(sorted, v.last().0);
        lemma_place_in_range(sorted, v.last().0);
        let all = sorted.insert(p, v.last());
        assert forall|i: int| 0 <= i < all.len() implies (#[trigger] all[i]).1 < n by {
            if i < p {
                assert(all[i] == sorted[i]);
            } else if i > p {
                assert(all[i] == sorted[i - 1]);
            }
        }
    }
}

proof fn lemma_place_in_range(v: Seq<(Seq<char>, u64)>, name: Seq<char>)
    ensures
        0 <= crate::names::place_of(v, name) <= v.len(),
    decreases v.len(),
{
    if v.len() > 0 {
        lemma_place_in_range(v.drop_last(), name);
    }
}

fn order_slots(textures: &Vec<TextureSlot>) -> (r: Vec<Tagged>)
    ensures
        tag_views(r@) == slot_order(textures@),
        forall|i: int| 0 <= i < r@.len() ==> (#[trigger] r@[i]).tag < textures.len(),
{
    let mut tagged: Vec<Tagged> = Vec::new();
    let mut i: usize = 0;
    let ghost all = Seq::new(textures@.len(), |i: int| (textures@[i].slot@, i as u64));
    while i < textures.len()
        invariant
            i <= textures@.len(),
            tagged@.len() == i,
            forall|j: int|
                0 <= j < i ==> (#[trigger] tagged@[j]).name@ == textures@[j].slot@ && tagged@[j].tag
                    == j,
        decreases textures@.len() - i,
    {
        tagged.push(Tagged { name: textures[i].slot.clone(), tag: i as u64 });
        i = i + 1;
    }
    assert(tag_views(tagged@) =~= all);
    let r = sort_tagged(tagged);
    proof {
        lemma_order_in_range(all, textures@.len());
        assert forall|i: int| 0 <= i < r@.len() implies (#[trigger] r@[i]).tag < textures.len() by {
            assert(tag_views(r@)[i] == (r@[i].name@, r@[i].tag));
        }
    }
    r
}

fn order_materials(materials: &Vec<MaterialInfo>) -> (r: Vec<Tagged>)
    ensures
        tag_views(r@) == material_order(materials@),
        forall|i: int| 0 <= i < r@.len() ==> (#[trigger] r@[i]).tag < materials.len(),
{
    let mut tagged: Vec<Tagged> = Vec::new();
    let mut i: usize = 0;
    let ghost all = Seq::new(materials@.len(), |i: int| (materials@[i].name@, i as u64));
    while i < materials.len()
        invariant
            i <= materials@.len(),
            tagged@.len() == i,
            forall|j: int|
                0 <= j < i ==> (#[trigger] tagged@[j]).name@ == materials@[j].name@
                    && tagged@[j].tag == j,
        decreases materials@.len() - i,
    {
        tagged.push(Tagged { name: materials[i].name.clone(), tag: i as u64 });
        i = i + 1;
    }
    assert(tag_views(tagged@) =~= all);
    let r = sort_tagged(tagged);
    proof {
        lemma_order_in_range(all, materials@.len());
        assert forall|i: int| 0 <= i < r@.len() implies (#[trigger] r@[i]).tag < materials.len() by {
            assert(tag_views(r@)[i] == (r@[i].name@, r@[i].tag));
        }
    }
    r
}

fn push_material(lines: &mut Vec<String>, m: &MaterialInfo)
    ensures
        views(final(lines)@) == with_material(views(old(lines)@), *m),
{
    let mut head = concat("  [", m.name.as_str());
    head.append("]  template:");
    head.append(m.template.as_str());
    push_line(lines, head);
    let ghost start = views(lines@);
    let order = order_slots(&m.textures);
    let ghost places = tag_views(order@);
    let mut i: usize = 0;
    assert(places.take(0) =~= Seq::<(Seq<char>, u64)>::empty());
    while i < order.len()
        invariant
            i <= order@.len(),
            places == tag_views(order@),
            forall|j: int| 0 <= j < order@.len() ==> (#[trigger] order@[j]).tag < m.textures.len(),
            views(lines@) == with_textures(start, m.textures@, places.take(i as int)),
        decreases order@.len() - i,
    {
        proof {
            lemma_take_next(places, i as int);
            assert(places.take(i + 1).last() == (order@[i as int].name@, order@[i as int].tag));
        }
        let t = &m.textures[order[i].tag as usize];
        let mut line = concat("    ", t.slot.as_str());
        line.append(" → ");
        line.append(t.info.name.as_str());
        line.append(if t.info.source == TextureSource::Embedded {
            " (embedded)"
        } else {
            " (shared)"
        });
        push_line(lines, line);
        i = i + 1;
    }
    assert(places.take(i as int) =~= places);
    let params = list_params(&m.params);
    assert(views(params@).len() == params@.len());
    if params.len() > 0 {
        let list = join(&params, "  ");
        push_line(lines, concat("    params: ", list.as_str()));
    }
}

fn push_manifest(lines: &mut Vec<String>, m: &ManifestInfo)
    ensures
        views(final(lines)@) == with_manifest(views(old(lines)@), *m),
{
    let mut head = concat("Drawable  asset:", m.asset_name.as_str());
    head.append(" v");
    head.append(m.version.as_str());
    push_line(lines, head);
    if !(m.meshes == 0 && m.collisions == 0) {
        let meshes = decimal(m.meshes as u64);
        let collisions = decimal(m.collisions as u64);
        let mut counts = concat("Entities  MESH:", meshes.as_str());
        counts.append(" COLLISION:");
        counts.append(collisions.as_str());
        push_line(lines, counts);
    }
    let ghost start = views(lines@);
    let order = order_materials(&m.materials);
    let ghost places = tag_views(order@);
    let mut i: usize = 0;
    assert(places.take(0) =~= Seq::<(Seq<char>, u64)>::empty());
    while i < order.len()
        invariant
            i <= order@.len(),
            places == tag_views(order@),
            forall|j: int| 0 <= j < order@.len() ==> (#[trigger] order@[j]).tag < m.materials.len(),
            views(lines@) == with_materials(start, m.materials@, places.take(i as int)),
        decreases order@.len() - i,
    {
        proof {
            lemma_take_next(places, i as int);
            assert(places.take(i + 1).last() == (order@[i as int].name@, order@[i as int].tag));
        }
        push_material(lines, &m.materials[order[i].tag as usize]);
        i = i + 1;
    }
    assert(places.take(i as int) =~= places);
}

fn push_model(lines: &mut Vec<String>, m: &ModelInfo)
    ensures
        views(final(lines)@) == with_model(views(old(lines)@), *m),
{
    let mut head = concat("── ", m.stem.as_str());
    head.append(" ──");
    push_line(lines, head);
    let meshes = decimal(m.meshes as u64);
    let materials = decimal(m.materials as u64);
    let textures = decimal(m.textures as u64);
    let nodes = decimal(m.nodes as u64);
    let animations = decimal(m.animations as u64);
    let mut counts = concat("GLB  meshes:", meshes.as_str());
    counts.append(" materials:");
    counts.append(materials.as_str());
    counts.append(" textures:");
    counts.append(textures.as_str());
    counts.append(" nodes:");
    counts.append(nodes.as_str());
    counts.append(" animations:");
    counts.append(animations.as_str());
    push_line(lines, counts);
    match &m.manifest {
        ManifestState::Missing => {
            push_line(lines, "Drawable  (žádný manifest)".to_string());
        },
        ManifestState::Pending => {},
        ManifestState::Loaded(info) => {
            push_manifest(lines, info);
        },
    }
}

/// Whether the text of the models can be written: some model or manifest is
/// there, and all models have been loaded.
pub fn info_ready(models: usize, models_ready: bool, manifests: usize) -> (r: bool)
    ensures
        r == (if models > 0 {
            models_ready
        } else {
            manifests > 0
        }),
{
    if models > 0 {
        models_ready
    } else {
        manifests > 0
    }
}

/// The text of the models.
pub fn update_info_overlay(models: &Vec<ModelInfo>) -> (r: String)
    ensures
        r@ == joined(with_models(Seq::empty(), models@), "\n"@),
{
    let mut lines: Vec<String> = Vec::new();
    assert(views(lines@) =~= Seq::<Seq<char>>::empty());
    let mut i: usize = 0;
    assert(models@.take(0) =~= Seq::<ModelInfo>::empty());
    while i < models.len()
        invariant
            i <= models.len(),
            views(lines@) == with_models(Seq::empty(), models@.take(i as int)),
        decreases models.len() - i,
    {
        proof {
            lemma_take_next(models@, i as int);
        }
        push_model(&mut lines, &models[i]);
        i = i + 1;
    }
    assert(models@.take(models.len() as int) =~= models@);
    join(&lines, "\n")
}

proof fn lemma_with_roots(lines: Seq<Seq<char>>, roots: Seq<RootInfo>, told: Seq<Seq<char>>)
    requires
        told.len() == roots.len(),
        forall|i: int| 0 <= i < roots.len() ==> told[i] == root_line(#[trigger] roots[i]),
    ensures
        with_roots(lines, roots) == lines + told,
    decreases roots.len(),
{
    if roots.len() > 0 {
        let front = roots.drop_last();
        let some = told.drop_last();
        assert forall|i: int| 0 <= i < front.len() implies some[i] == root_line(
            #[trigger] front[i],
        ) by {
            assert(front[i] == roots[i]);
        }
        lemma_with_roots(lines, front, some);
        assert(told[roots.len() - 1] == root_line(roots[roots.len() - 1]));
        assert((lines + some).push(told.last()) =~= lines + told);
    } else {
        assert(lines + told =~= lines);
    }
}

proof fn lemma_with_list(
    lines: Seq<Seq<char>>,
    names: Seq<Seq<char>>,
    chosen: int,
    badge: Seq<char>,
    told: Seq<Seq<char>>,
)
    requires
        lists(told, names, chosen, badge),
    ensures
        with_list(lines, names, chosen, badge) == lines + told,
    decreases names.len(),
{
    if names.len() > 0 {
        let front = names.drop_last();
        let some = told.drop_last();
        assert forall|i: int| 0 <= i < front.len() implies some[i] == listed(
            #[trigger] front[i],
            i == chosen,
            badge,
        ) by {
            assert(front[i] == names[i]);
        }
        lemma_with_list(lines, front, chosen, badge, some);
        let k = names.len() - 1;
        assert(told[k] == listed(names[k], k == chosen, badge));
        assert((lines + some).push(told.last()) =~= lines + told);
    } else {
        assert(lines + told =~= lines);
    }
}

/// A name of a list: marked in front where it is chosen, and a badge behind it.
pub open spec fn listed(name: Seq<char>, chosen: bool, badge: Seq<char>) -> Seq<char> {
    if chosen {
        "> "@ + name + badge
    } else {
        "  "@ + name + Seq::empty()
    }
}

/// `told` lists the names, one in each line.
pub open spec fn lists(
    told: Seq<Seq<char>>,
    names: Seq<Seq<char>>,
    chosen: int,
    badge: Seq<char>,
) -> bool {
    told.len() == names.len() && forall|i: int|
        0 <= i < names.len() ==> told[i] == listed(#[trigger] names[i], i == chosen, badge)
}

proof fn lemma_with_marks(
    lines: Seq<Seq<char>>,
    times: Seq<Seq<char>>,
    names: Seq<Seq<char>>,
    told: Seq<Seq<char>>,
)
    requires
        told.len() == names.len(),
        forall|i: int|
            0 <= i < names.len() ==> told[i] == "  "@ + times[i] + "s  "@ + #[trigger] names[i],
    ensures
        with_marks(lines, times, names) == lines + told,
    decreases names.len(),
{
    if names.len() > 0 {
        let front = names.drop_last();
        let some = told.drop_last();
        assert forall|i: int| 0 <= i < front.len() implies some[i] == "  "@ + times[i] + "s  "@
            + #[trigger] front[i] by {
            assert(front[i] == names[i]);
        }
        lemma_with_marks(lines, times, front, some);
        let k = names.len() - 1;
        assert(told[k] == "  "@ + times[k] + "s  "@ + names[k]);
        assert((lines + some).push(told.last()) =~= lines + told);
    } else {
        assert(lines + told =~= lines);
    }
}

/// `line` tells of a model that can be animated: how many sets it has and, where
/// these have clips, how many clips and dictionaries.
pub open spec fn tells_root(line: Seq<char>, r: RootInfo) -> bool {
    let start = "  root "@ + r.label@ + " model:"@ + r.model@ + " sets:"@;
    &&& r.sets is None ==> line == start + "0"@
    &&& r.sets matches Some(n) ==> (r.clips > 0 ==> line == start + decimal_digits(n as nat)
        + " clips:"@ + decimal_digits(r.clips as nat) + " dicts:"@ + decimal_digits(
        r.dicts as nat,
    ))
    &&& r.sets matches Some(n) ==> (r.clips == 0 ==> line == start + decimal_digits(n as nat)
        + " clips:0 (asset not ready or parse failed)"@)
}

proof fn lemma_counts(roots: Seq<RootInfo>, sets: Seq<nat>, clips: Seq<nat>)
    requires
        counts(roots, sets, clips),
    ensures
        with_sets(roots) == sets.last(),
        with_clips(roots) == clips.last(),
    decreases roots.len(),
{
    if roots.len() > 0 {
        let front = roots.drop_last();
        let a = sets.drop_last();
        let b = clips.drop_last();
        assert forall|i: int| 0 <= i < front.len() implies #[trigger] counted(
            front[i],
            a[i],
            a[i + 1],
            b[i],
            b[i + 1],
        ) by {
            assert(counted(roots[i], sets[i], sets[i + 1], clips[i], clips[i + 1]));
        }
        lemma_counts(front, a, b);
        let k = roots.len() - 1;
        assert(counted(roots[k], sets[k], sets[k + 1], clips[k], clips[k + 1]));
    }
}

/// One more model adds one to those with sets where it has any, and one to those
/// with clips where its sets have any.
pub open spec fn counted(r: RootInfo, sets: nat, more: nat, clips: nat, and: nat) -> bool {
    &&& more == sets + (if r.sets is Some {
        1int
    } else {
        0
    })
    &&& and == clips + (if r.sets is Some && r.clips > 0 {
        1int
    } else {
        0
    })
}

/// `sets` and `clips` are how many of the first models have them.
pub open spec fn counts(roots: Seq<RootInfo>, sets: Seq<nat>, clips: Seq<nat>) -> bool {
    &&& sets.len() == roots.len() + 1 && clips.len() == roots.len() + 1
    &&& sets[0] == 0 && clips[0] == 0
    &&& forall|i: int|
        0 <= i < roots.len() ==> #[trigger] counted(
            roots[i],
            sets[i],
            sets[i + 1],
            clips[i],
            clips[i + 1],
        )
}

/// While nothing is animated the panel tells how to start, and how many models
/// have sets and how many have clips.
pub proof fn law_idle_panel(
    b: &AdmAnimationBrowser,
    speed: &str,
    times: &Vec<String>,
    roots: &Vec<RootInfo>,
    r: String,
    sets: Seq<nat>,
    clips: Seq<nat>,
    lines: Seq<Seq<char>>,
)
    requires
        call_ensures(update_animation_overlay, (b, speed, times, roots), r),
        b.root is None,
        counts(roots@, sets, clips),
        lines.len() == 7,
        lines[0] == "── Animace ──"@,
        lines[1] == "Žádné aktivní animace."@,
        lines[2] == "Nahraj .adm a .ads_anim (s klipy)."@,
        lines[3] == "Ovládání: N/→ další clip, B/← předchozí, Space pauza."@,
        lines[4] == "PageUp/PageDown přepíná dictionary."@,
        lines[5] == "Roots s AttachedAnimSets: "@ + decimal_digits(sets.last()),
        lines[6] == "Roots s načtenými klipy: "@ + decimal_digits(clips.last()),
    ensures
        r@ == joined(lines, "\n"@),
{
    lemma_counts(roots@, sets, clips);
    assert(idle_lines(roots@) =~= lines);
}

/// The six lines at the top of the panel: the model, the chosen dictionary and
/// the chosen clip with their places from one on, how the clip plays, and the
/// keys.
pub open spec fn tells_head(head: Seq<Seq<char>>, b: BrowserView, speed: Seq<char>) -> bool {
    &&& head.len() == 6
    &&& head[0] == "── Animace ("@ + (match b.model {
        Some(m) => m,
        None => "ADM"@,
    }) + ") ──"@
    &&& head[1] == "Dict: "@ + (if b.dict < b.dicts.len() {
        b.dicts[b.dict as int]
    } else {
        "ALL"@
    }) + "  ["@ + decimal_digits((b.dict + 1) as nat) + "/"@ + decimal_digits(
        if b.dicts.len() == 0 {
            1
        } else {
            b.dicts.len()
        },
    ) + "]"@
    &&& head[2] == "Clip: "@ + (if b.clip < b.clips.len() {
        b.clips[b.clip as int]
    } else {
        "-"@
    }) + "  ["@ + decimal_digits((b.clip + 1) as nat) + "/"@ + decimal_digits(
        if b.clips.len() == 0 {
            1
        } else {
            b.clips.len()
        },
    ) + "]"@
    &&& head[3] == "Flags: "@ + decimal_digits(b.flags as nat) + "  Speed: "@ + speed + "  Loop: "@
        + truth(b.looping) + "  Paused: "@ + truth(b.paused)
    &&& head[4] == "PageUp/PageDown dict | N/→ next clip | B/← prev clip | Space pause"@
    &&& head[5] == "1 all | 2 lower body | 3 upper body | 4 right arm | 5 left arm | 6 ride+smoke"@
}

/// The panel of a model that is animated: what plays, the dictionaries, the marks
/// of the clip with their times, the clips with the number of marks behind the
/// chosen one, and all models.
pub proof fn law_animation_panel(
    b: &AdmAnimationBrowser,
    speed: &str,
    times: &Vec<String>,
    roots: &Vec<RootInfo>,
    r: String,
    head: Seq<Seq<char>>,
    dicts: Seq<Seq<char>>,
    marks: Seq<Seq<char>>,
    clips: Seq<Seq<char>>,
    models: Seq<Seq<char>>,
)
    requires
        call_ensures(update_animation_overlay, (b, speed, times, roots), r),
        b.root is Some,
        times@.len() == b.notifies@.len(),
        tells_head(head, b@, speed@),
        b.dictionaries@.len() == 0 ==> dicts.len() == 0,
        b.dictionaries@.len() > 0 ==> dicts.len() > 0 && dicts[0] == "Dicty:"@ && lists(
            dicts.skip(1),
            views(b.dictionaries@),
            b.selected_dict_idx as int,
            Seq::empty(),
        ),
        marks.len() == b.notifies@.len() + 1,
        b.notifies@.len() == 0 ==> marks[0] == "Notifies: žádné (ADS_ANIM bez markerů)"@,
        b.notifies@.len() > 0 ==> marks[0] == "Notifies: "@ + decimal_digits(b.notifies@.len())
            + "x"@,
        forall|i: int|
            0 <= i < b.notifies@.len() ==> marks[i + 1] == "  "@ + times@[i]@ + "s  "@
                + (#[trigger] b.notifies@[i]).name@,
        b.clips@.len() == 0 ==> clips.len() == 0,
        b.clips@.len() > 0 ==> clips.len() > 0 && clips[0] == "Clipy:"@ && lists(
            clips.skip(1),
            views(b.clips@),
            b.selected_idx as int,
            if b.notifies@.len() == 0 {
                Seq::empty()
            } else {
                " ["@ + decimal_digits(b.notifies@.len()) + "✱]"@
            },
        ),
        models.len() == roots@.len() + 3,
        models[0].len() == 0,
        models[1] == "Runtime debug:"@,
        models[2] == "Runtime roots with AnimationState: "@ + decimal_digits(roots@.len()),
        forall|i: int| 0 <= i < roots@.len() ==> tells_root(models[i + 3], #[trigger] roots@[i]),
    ensures
        r@ == joined(head + dicts + marks + clips + models, "\n"@),
{
    let v = b@;
    assert(v.dicts.len() == b.dictionaries@.len());
    assert(v.clips.len() == b.clips@.len());
    assert(v.marks.len() == b.notifies@.len());
    let h = head_lines(v, speed@);
    assert(h =~= head);
    let d = if v.dicts.len() == 0 {
        h
    } else {
        with_list(h.push("Dicty:"@), v.dicts, v.dict as int, Seq::empty())
    };
    assert(d =~= head + dicts) by {
        if v.dicts.len() > 0 {
            lemma_with_list(h.push("Dicty:"@), v.dicts, v.dict as int, Seq::empty(), dicts.skip(1));
            assert(h.push("Dicty:"@) + dicts.skip(1) =~= head + dicts);
        } else {
            assert(head + dicts =~= head);
        }
    }
    let m = if v.marks.len() == 0 {
        d.push("Notifies: žádné (ADS_ANIM bez markerů)"@)
    } else {
        with_marks(
            d.push("Notifies: "@ + decimal_digits(v.marks.len()) + "x"@),
            views(times@),
            mark_names(v),
        )
    };
    assert(m =~= head + dicts + marks) by {
        if v.marks.len() > 0 {
            let names = mark_names(v);
            let told = marks.skip(1);
            assert forall|i: int| 0 <= i < names.len() implies told[i] == "  "@ + views(times@)[i]
                + "s  "@ + #[trigger] names[i] by {
                assert(marks[i + 1] == "  "@ + times@[i]@ + "s  "@ + b.notifies@[i].name@);
            }
            lemma_with_marks(d.push(marks[0]), views(times@), names, told);
            assert(d.push(marks[0]) + told =~= d + marks);
        } else {
            assert(d.push(marks[0]) =~= d + marks);
        }
    }
    let c = if v.clips.len() == 0 {
        m
    } else {
        with_list(m.push("Clipy:"@), v.clips, v.clip as int, badge_of(v))
    };
    assert(c =~= head + dicts + marks + clips) by {
        if v.clips.len() > 0 {
            lemma_with_list(m.push("Clipy:"@), v.clips, v.clip as int, badge_of(v), clips.skip(1));
            assert(m.push("Clipy:"@) + clips.skip(1) =~= m + clips);
        } else {
            assert(m + clips =~= m);
        }
    }
    let told = models.skip(3);
    assert forall|i: int| 0 <= i < roots@.len() implies told[i] == root_line(
        #[trigger] roots@[i],
    ) by {
        assert(tells_root(models[i + 3], roots@[i]));
    }
    let top = c.push(Seq::empty()).push("Runtime debug:"@).push(
        "Runtime roots with AnimationState: "@ + decimal_digits(roots@.len()),
    );
    lemma_with_roots(top, roots@, told);
    assert(models[0] =~= Seq::empty());
    assert(top + told =~= c + models);
    assert(active_lines(v, speed@, views(times@), roots@) == c + models);
}

/// The text of the models can be written once all of them are loaded, and without
/// models once there is a manifest.
pub proof fn law_info_ready(models: usize, ready: bool, manifests: usize, r: bool)
    requires
        call_ensures(info_ready, (models, ready, manifests), r),
    ensures
        models > 0 ==> r == ready,
        models == 0 ==> (r <==> manifests > 0),
{
}

/// `params` are the parameters of a material in their order, each with its label,
/// those that it has.
pub open spec fn tells_params(params: Seq<Seq<char>>, p: ParamTexts) -> bool {
    params == told_if("tiling:"@, p.tiling) + told_if("l0_tiling:"@, p.l0_tiling) + told_if(
        "l1_tiling:"@,
        p.l1_tiling,
    ) + told_if("snow:"@, p.snow) + told_if("dirt:"@, p.dirt) + told_if("wet:"@, p.wet) + told_if(
        "porosity:"@,
        p.porosity,
    ) + (match p.tint {
        Some(t) => seq!["tint:["@ + t@ + "]"@],
        None => seq![],
    }) + (match (p.opacity_mode, p.alpha_threshold) {
        (Some(m), Some(t)) => seq!["alpha:"@ + m@ + ("@"@ + t@)],
        (Some(m), None) => seq!["alpha:"@ + m@ + Seq::empty()],
        (None, _) => seq![],
    })
}

pub open spec fn told_if(label: Seq<char>, value: Option<String>) -> Seq<Seq<char>> {
    match value {
        Some(v) => seq![label + v@],
        None => seq![],
    }
}

proof fn lemma_with_param(params: Seq<Seq<char>>, label: Seq<char>, value: Option<String>)
    ensures
        with_param(params, label, value) == params + told_if(label, value),
{
    assert(with_param(params, label, value) =~= params + told_if(label, value));
}

proof fn lemma_params(p: ParamTexts, params: Seq<Seq<char>>)
    requires
        tells_params(params, p),
    ensures
        param_list(p) == params,
{
    let none: Seq<Seq<char>> = Seq::empty();
    let a = told_if("tiling:"@, p.tiling);
    lemma_with_param(none, "tiling:"@, p.tiling);
    assert(none + a =~= a);
    lemma_with_param(a, "l0_tiling:"@, p.l0_tiling);
    let b = a + told_if("l0_tiling:"@, p.l0_tiling);
    lemma_with_param(b, "l1_tiling:"@, p.l1_tiling);
    let c = b + told_if("l1_tiling:"@, p.l1_tiling);
    lemma_with_param(c, "snow:"@, p.snow);
    let d = c + told_if("snow:"@, p.snow);
    lemma_with_param(d, "dirt:"@, p.dirt);
    let e = d + told_if("dirt:"@, p.dirt);
    lemma_with_param(e, "wet:"@, p.wet);
    let f = e + told_if("wet:"@, p.wet);
    lemma_with_param(f, "porosity:"@, p.porosity);
    let numbers = f + told_if("porosity:"@, p.porosity);
    lemma_params_end(numbers, p);
}

proof fn lemma_params_end(numbers: Seq<Seq<char>>, p: ParamTexts)
    ensures
        ({
            let tinted = match p.tint {
                Some(t) => numbers.push("tint:["@ + t@ + "]"@),
                None => numbers,
            };
            match p.opacity_mode {
                Some(m) => tinted.push(
                    "alpha:"@ + m@ + match p.alpha_threshold {
                        Some(t) => "@"@ + t@,
                        None => Seq::empty(),
                    },
                ),
                None => tinted,
            }
        }) == numbers + (match p.tint {
            Some(t) => seq!["tint:["@ + t@ + "]"@],
            None => seq![],
        }) + (match (p.opacity_mode, p.alpha_threshold) {
            (Some(m), Some(t)) => seq!["alpha:"@ + m@ + ("@"@ + t@)],
            (Some(m), None) => seq!["alpha:"@ + m@ + Seq::empty()],
            (None, _) => seq![],
        }),
{
}

/// `part` tells of a material: its name and template, its textures in the order of
/// their slots, and its parameters where it has any.
pub open spec fn tells_material(part: Seq<Seq<char>>, m: MaterialInfo, params: Seq<Seq<char>>) -> bool {
    let n = m.textures@.len() as int;
    &&& tells_params(params, m.params)
    &&& part.len() == 1 + n + (if params.len() > 0 {
        1int
    } else {
        0
    })
    &&& part[0] == "  ["@ + m.name@ + "]  template:"@ + m.template@
    &&& forall|i: int|
        0 <= i < n ==> ({
            let t = m.textures@[slot_order(m.textures@)[i].1 as int];
            #[trigger] part[1 + i] == "    "@ + t.slot@ + " → "@ + t.info.name@ + (
            if t.info.source is Embedded {
                " (embedded)"@
            } else {
                " (shared)"@
            })
        })
    &&& params.len() > 0 ==> part.last() == "    params: "@ + joined(params, "  "@)
}

proof fn lemma_with_textures(
    lines: Seq<Seq<char>>,
    textures: Seq<TextureSlot>,
    order: Seq<(Seq<char>, u64)>,
)
    ensures
        with_textures(lines, textures, order).len() == lines.len() + order.len(),
        forall|i: int|
            0 <= i < lines.len() ==> #[trigger] with_textures(lines, textures, order)[i]
                == lines[i],
        forall|i: int|
            0 <= i < order.len() ==> with_textures(lines, textures, order)[lines.len() + i]
                == texture_line(textures[(#[trigger] order[i]).1 as int]),
    decreases order.len(),
{
    if order.len() > 0 {
        let front = order.drop_last();
        lemma_with_textures(lines, textures, front);
        assert forall|i: int| 0 <= i < order.len() implies with_textures(
            lines,
            textures,
            order,
        )[lines.len() + i] == texture_line(textures[(#[trigger] order[i]).1 as int]) by {
            if i < front.len() {
                assert(front[i] == order[i]);
            }
        }
    }
}

proof fn lemma_with_material(
    lines: Seq<Seq<char>>,
    m: MaterialInfo,
    part: Seq<Seq<char>>,
    params: Seq<Seq<char>>,
)
    requires
        tells_material(part, m, params),
    ensures
        with_material(lines, m) == lines + part,
{
    lemma_params(m.params, params);
    let t = m.textures@;
    let order = slot_order(t);
    law_sorted(Seq::new(t.len(), |i: int| (t[i].slot@, i as u64)));
    let first = lines.push(part[0]);
    lemma_with_textures(first, t, order);
    let top = with_textures(first, t, order);
    let all = with_material(lines, m);
    assert(all.len() == lines.len() + part.len());
    assert forall|i: int| 0 <= i < all.len() implies all[i] == (lines + part)[i] by {
        if i <= lines.len() {
            assert(top[i] == first[i]);
        } else if i < lines.len() + 1 + t.len() {
            let k = i - lines.len() - 1;
            let slot = order[k];
            assert(top[first.len() + k] == texture_line(t[slot.1 as int]));
            assert(part[1 + k] == texture_line(t[slot.1 as int]));
        }
    }
    assert(all =~= lines + part);
}

proof fn lemma_with_materials(
    lines: Seq<Seq<char>>,
    materials: Seq<MaterialInfo>,
    order: Seq<(Seq<char>, u64)>,
    parts: Seq<Seq<Seq<char>>>,
    params: Seq<Seq<Seq<char>>>,
)
    requires
        parts.len() == order.len() && params.len() == order.len(),
        forall|i: int|
            0 <= i < order.len() ==> tells_material(
                parts[i],
                materials[(#[trigger] order[i]).1 as int],
                params[i],
            ),
    ensures
        with_materials(lines, materials, order) == lines + parts.flatten(),
    decreases order.len(),
{
    if order.len() == 0 {
        assert(parts.flatten() =~= Seq::empty());
        assert(lines + parts.flatten() =~= lines);
    } else {
        let front = order.drop_last();
        let some = parts.drop_last();
        let less = params.drop_last();
        assert forall|i: int| 0 <= i < front.len() implies tells_material(
            some[i],
            materials[(#[trigger] front[i]).1 as int],
            less[i],
        ) by {
            assert(front[i] == order[i]);
        }
        lemma_with_materials(lines, materials, front, some, less);
        let k = order.len() - 1;
        let m = materials[order[k].1 as int];
        lemma_with_material(lines + some.flatten(), m, parts[k], params[k]);
        assert(parts =~= some.push(parts[k]));
        some.lemma_flatten_push(parts[k]);
        assert(lines + some.flatten() + parts[k] =~= lines + (some.flatten() + parts[k]));
    }
}

/// `part` tells of a model: its counts, and its manifest with the materials in the
/// order of their names; `of` are the parts of the materials and `params` their
/// parameters.
pub open spec fn tells_model(
    part: Seq<Seq<char>>,
    m: ModelInfo,
    of: Seq<Seq<Seq<char>>>,
    params: Seq<Seq<Seq<char>>>,
) -> bool {
    let top = seq![
        "── "@ + m.stem@ + " ──"@,
        "GLB  meshes:"@ + decimal_digits(m.meshes as nat) + " materials:"@ + decimal_digits(
            m.materials as nat,
        ) + " textures:"@ + decimal_digits(m.textures as nat) + " nodes:"@ + decimal_digits(
            m.nodes as nat,
        ) + " animations:"@ + decimal_digits(m.animations as nat),
    ];
    match m.manifest {
        ManifestState::Missing => part == top + seq!["Drawable  (žádný manifest)"@],
        ManifestState::Pending => part == top,
        ManifestState::Loaded(info) => {
            let order = material_order(info.materials@);
            &&& of.len() == order.len() && params.len() == order.len()
            &&& forall|i: int|
                0 <= i < order.len() ==> tells_material(
                    of[i],
                    info.materials@[(#[trigger] order[i]).1 as int],
                    params[i],
                )
            &&& part == top + seq!["Drawable  asset:"@ + info.asset_name@ + " v"@ + info.version@]
                + (if info.meshes > 0 || info.collisions > 0 {
                seq![
                    "Entities  MESH:"@ + decimal_digits(info.meshes as nat) + " COLLISION:"@
                        + decimal_digits(info.collisions as nat),
                ]
            } else {
                seq![]
            }) + of.flatten()
        },
    }
}

proof fn lemma_with_model(
    lines: Seq<Seq<char>>,
    m: ModelInfo,
    part: Seq<Seq<char>>,
    of: Seq<Seq<Seq<char>>>,
    params: Seq<Seq<Seq<char>>>,
)
    requires
        tells_model(part, m, of, params),
    ensures
        with_model(lines, m) == lines + part,
{
    let head = lines.push("── "@ + m.stem@ + " ──"@).push(
        "GLB  meshes:"@ + decimal_digits(m.meshes as nat) + " materials:"@ + decimal_digits(
            m.materials as nat,
        ) + " textures:"@ + decimal_digits(m.textures as nat) + " nodes:"@ + decimal_digits(
            m.nodes as nat,
        ) + " animations:"@ + decimal_digits(m.animations as nat),
    );
    match m.manifest {
        ManifestState::Missing => {
            assert(head.push("Drawable  (žádný manifest)"@) =~= lines + part);
        },
        ManifestState::Pending => {
            assert(head =~= lines + part);
        },
        ManifestState::Loaded(info) => {
            let named = head.push("Drawable  asset:"@ + info.asset_name@ + " v"@ + info.version@);
            let counted = if info.meshes == 0 && info.collisions == 0 {
                named
            } else {
                named.push(
                    "Entities  MESH:"@ + decimal_digits(info.meshes as nat) + " COLLISION:"@
                        + decimal_digits(info.collisions as nat),
                )
            };
            lemma_with_materials(
                counted,
                info.materials@,
                material_order(info.materials@),
                of,
                params,
            );
            assert(counted + of.flatten() =~= lines + part);
        },
    }
}

proof fn lemma_with_models(
    models: Seq<ModelInfo>,
    parts: Seq<Seq<Seq<char>>>,
    of: Seq<Seq<Seq<Seq<char>>>>,
    params: Seq<Seq<Seq<Seq<char>>>>,
)
    requires
        parts.len() == models.len() && of.len() == models.len() && params.len() == models.len(),
        forall|i: int|
            0 <= i < models.len() ==> tells_model(
                parts[i],
                #[trigger] models[i],
                of[i],
                params[i],
            ),
    ensures
        with_models(Seq::empty(), models) == parts.flatten(),
    decreases models.len(),
{
    if models.len() == 0 {
        assert(parts.flatten() =~= Seq::empty());
    } else {
        let front = models.drop_last();
        let some = parts.drop_last();
        assert forall|i: int| 0 <= i < front.len() implies tells_model(
            some[i],
            #[trigger] front[i],
            of.drop_last()[i],
            params.drop_last()[i],
        ) by {
            assert(front[i] == models[i]);
        }
        lemma_with_models(front, some, of.drop_last(), params.drop_last());
        let k = models.len() - 1;
        assert(tells_model(parts[k], models[k], of[k], params[k]));
        lemma_with_model(some.flatten(), models[k], parts[k], of[k], params[k]);
        assert(parts =~= some.push(parts[k]));
        some.lemma_flatten_push(parts[k]);
    }
}

/// The text of the models tells of each in turn. `parts` are what is told of them,
/// `of` of their materials, and `params` the parameters of these.
pub proof fn law_model_texts(
    models: &Vec<ModelInfo>,
    r: String,
    parts: Seq<Seq<Seq<char>>>,
    of: Seq<Seq<Seq<Seq<char>>>>,
    params: Seq<Seq<Seq<Seq<char>>>>,
)
    requires
        call_ensures(update_info_overlay, (models,), r),
        parts.len() == models@.len() && of.len() == models@.len() && params.len() == models@.len(),
        forall|i: int|
            0 <= i < models@.len() ==> tells_model(
                parts[i],
                #[trigger] models@[i],
                of[i],
                params[i],
            ),
    ensures
        r@ == joined(parts.flatten(), "\n"@),
{
    lemma_with_models(models@, parts, of, params);
}

} // verus!
