//! Assets that ship with the client: which files of a directory are what.

use vstd::prelude::*;

use crate::folds::{lemma_push_contains, lemma_take_next};
use crate::names::{holds, views};
use crate::paths::{
    extension, extension_of, file_stem, has_extension, join_path, joined_path, stem_of,
};
use crate::text::{concat, drop_tails, ends_with, has_tail, same, strip_tails};

verus! {

/// The directory of the assets: below the project while developing, else beside
/// the program, else below the working directory.
pub fn asset_root(project: Option<String>, exe_dir: Option<String>) -> (r: String)
    ensures
        r@ == match (project, exe_dir) {
            (Some(p), _) => joined_path(p@, "assets"@),
            (None, Some(d)) => joined_path(d@, "assets"@),
            (None, None) => "assets"@,
        },
{
    match project {
        Some(p) => join_path(p.as_str(), "assets"),
        None => match exe_dir {
            Some(d) => join_path(d.as_str(), "assets"),
            None => "assets".to_string(),
        },
    }
}

/// The extension of a file name, empty where it has none.
pub open spec fn ext(name: Seq<char>) -> Seq<char> {
    if has_extension(name) {
        extension_of(name)
    } else {
        Seq::empty()
    }
}

/// An asset to load: its id and its path below the asset directory.
#[derive(Clone, Debug)]
pub struct NativeAsset {
    pub id: String,
    pub path: String,
}

/// An asset as the contracts see it.
pub struct AssetView {
    pub id: Seq<char>,
    pub path: Seq<char>,
}

pub open spec fn asset_views(v: Seq<NativeAsset>) -> Seq<AssetView> {
    v.map_values(|a: NativeAsset| AssetView { id: a.id@, path: a.path@ })
}

/// What a directory's files are looked at for.
#[derive(Clone, Copy, PartialEq, Eq, Structural, Debug)]
pub enum AssetKind {
    Font,
    Drawable,
    PedPhysics,
}

/// The asset that a file is, where it is one of that kind.
pub open spec fn asset_of(kind: AssetKind, name: Seq<char>) -> Option<AssetView> {
    match kind {
        AssetKind::Font => if ext(name) == "ttf"@ || ext(name) == "otf"@ {
            Some(
                AssetView {
                    id: stem_of(name),
                    path: "fonts/"@ + stem_of(name) + "."@ + ext(name),
                },
            )
        } else {
            None
        },
        AssetKind::Drawable => if ext(name) == "drawable"@ {
            Some(AssetView { id: stem_of(name), path: "models/"@ + stem_of(name) + ".drawable"@ })
        } else {
            None
        },
        AssetKind::PedPhysics => if ext(name) == "toml"@ && has_tail(stem_of(name), ".ped"@) {
            let id = drop_tails(stem_of(name), ".ped"@);
            Some(AssetView { id, path: "models/"@ + id + ".ped.toml"@ })
        } else {
            None
        },
    }
}

/// The assets among the files of a directory, in their order.
pub open spec fn assets_of(kind: AssetKind, files: Seq<Seq<char>>) -> Seq<AssetView>
    decreases files.len(),
{
    if files.len() == 0 {
        Seq::empty()
    } else {
        let front = assets_of(kind, files.drop_last());
        match asset_of(kind, files.last()) {
            Some(a) => front.push(a),
            None => front,
        }
    }
}

fn asset(kind: AssetKind, name: &str) -> (r: Option<NativeAsset>)
    ensures
        match (r, asset_of(kind, name@)) {
            (Some(a), Some(v)) => a.id@ == v.id && a.path@ == v.path,
            (None, None) => true,
            _ => false,
        },
{
    let e = extension(name);
    let stem = file_stem(name);
    assert(e@ =~= ext(name@));
    match kind {
        AssetKind::Font => {
            if same(e.as_str(), "ttf") || same(e.as_str(), "otf") {
                let mut path = concat("fonts/", stem.as_str());
                path.append(".");
                path.append(e.as_str());
                Some(NativeAsset { id: stem, path })
            } else {
                None
            }
        },
        AssetKind::Drawable => {
            if same(e.as_str(), "drawable") {
                let mut path = concat("models/", stem.as_str());
                path.append(".drawable");
                Some(NativeAsset { id: stem, path })
            } else {
                None
            }
        },
        AssetKind::PedPhysics => {
            if same(e.as_str(), "toml") && ends_with(stem.as_str(), ".ped") {
                let id = strip_tails(stem.as_str(), ".ped");
                let mut path = concat("models/", id.as_str());
                path.append(".ped.toml");
                Some(NativeAsset { id, path })
            } else {
                None
            }
        },
    }
}

fn collect(kind: AssetKind, files: &Vec<String>) -> (r: Vec<NativeAsset>)
    ensures
        asset_views(r@) == assets_of(kind, views(files@)),
{
    let mut r: Vec<NativeAsset> = Vec::new();
    let mut i: usize = 0;
    assert(views(files@).take(0) =~= Seq::<Seq<char>>::empty());
    assert(asset_views(r@) =~= Seq::<AssetView>::empty());
    while i < files.len()
        invariant
            i <= files.len(),
            asset_views(r@) == assets_of(kind, views(files@).take(i as int)),
        decreases files.len() - i,
    {
        let ghost before = r@;
        proof {
            let next = views(files@).take(i + 1);
            assert(next.drop_last() =~= views(files@).take(i as int));
            assert(next.last() == files@[i as int]@);
        }
        match asset(kind, files[i].as_str()) {
            Some(a) => {
                r.push(a);
                assert(asset_views(r@) =~= asset_views(before).push(
                    AssetView { id: a.id@, path: a.path@ },
                ));
            },
            None => {},
        }
        i = i + 1;
    }
    assert(views(files@).take(files.len() as int) =~= views(files@));
    r
}

/// The fonts among the files of the font directory.
pub fn load_native_fonts(files: &Vec<String>) -> (r: Vec<NativeAsset>)
    ensures
        asset_views(r@) == assets_of(AssetKind::Font, views(files@)),
{
    collect(AssetKind::Font, files)
}

/// The manifests among the files of the model directory.
pub fn load_native_drawables(files: &Vec<String>) -> (r: Vec<NativeAsset>)
    ensures
        asset_views(r@) == assets_of(AssetKind::Drawable, views(files@)),
{
    collect(AssetKind::Drawable, files)
}

/// The profiles of characters among the files of the model directory.
pub fn load_native_ped_physics(files: &Vec<String>) -> (r: Vec<NativeAsset>)
    ensures
        asset_views(r@) == assets_of(AssetKind::PedPhysics, views(files@)),
{
    collect(AssetKind::PedPhysics, files)
}

/// A model to register.
#[derive(Clone, Debug)]
pub struct NativeModel {
    pub id: String,
    pub path: String,
    /// In the native format, not in that of glTF.
    pub adm: bool,
}

pub struct ModelView {
    pub id: Seq<char>,
    pub path: Seq<char>,
    pub adm: bool,
}

pub open spec fn model_views(v: Seq<NativeModel>) -> Seq<ModelView> {
    v.map_values(|m: NativeModel| ModelView { id: m.id@, path: m.path@, adm: m.adm })
}

/// The model that a file is. One in the native format goes before one of the
/// same name in another.
pub open spec fn model_of(name: Seq<char>, files: Seq<Seq<char>>) -> Option<ModelView> {
    if ext(name) == "adm"@ {
        Some(ModelView { id: stem_of(name), path: "models/"@ + stem_of(name) + ".adm"@, adm: true })
    } else if (ext(name) == "glb"@ || ext(name) == "gltf"@) && !files.contains(
        stem_of(name) + ".adm"@,
    ) {
        Some(
            ModelView {
                id: stem_of(name),
                path: "models/"@ + stem_of(name) + "."@ + ext(name),
                adm: false,
            },
        )
    } else {
        None
    }
}

/// The models among the first files of a directory, in their order.
pub open spec fn models_of(some: Seq<Seq<char>>, files: Seq<Seq<char>>) -> Seq<ModelView>
    decreases some.len(),
{
    if some.len() == 0 {
        Seq::empty()
    } else {
        let front = models_of(some.drop_last(), files);
        match model_of(some.last(), files) {
            Some(m) => front.push(m),
            None => front,
        }
    }
}

/// The models among the files of the model directory.
pub fn register_native_models(files: &Vec<String>) -> (r: Vec<NativeModel>)
    ensures
        model_views(r@) == models_of(views(files@), views(files@)),
{
    let mut r: Vec<NativeModel> = Vec::new();
    let mut i: usize = 0;
    assert(views(files@).take(0) =~= Seq::<Seq<char>>::empty());
    assert(model_views(r@) =~= Seq::<ModelView>::empty());
    while i < files.len()
        invariant
            i <= files.len(),
            model_views(r@) == models_of(views(files@).take(i as int), views(files@)),
        decreases files.len() - i,
    {
        let ghost before = r@;
        let ghost name = files@[i as int]@;
        proof {
            let next = views(files@).take(i + 1);
            assert(next.drop_last() =~= views(files@).take(i as int));
            assert(next.last() == name);
        }
        let e = extension(files[i].as_str());
        assert(e@ =~= ext(name));
        let stem = file_stem(files[i].as_str());
        if same(e.as_str(), "adm") {
            let mut path = concat("models/", stem.as_str());
            path.append(".adm");
            let m = NativeModel { id: stem, path, adm: true };
            r.push(m);
            assert(model_views(r@) =~= model_views(before).push(model_of(name, views(files@))->0));
        } else if same(e.as_str(), "glb") || same(e.as_str(), "gltf") {
            let native = concat(stem.as_str(), ".adm");
            if !holds(files, native.as_str()) {
                let mut path = concat("models/", stem.as_str());
                path.append(".");
                path.append(e.as_str());
                let m = NativeModel { id: stem, path, adm: false };
                r.push(m);
                assert(model_views(r@) =~= model_views(before).push(
                    model_of(name, views(files@))->0,
                ));
            }
        }
        i = i + 1;
    }
    assert(views(files@).take(files.len() as int) =~= views(files@));
    r
}

/// A model that is there in the native format is registered in no other.
pub proof fn law_native_format_first(some: Seq<Seq<char>>, files: Seq<Seq<char>>, i: int)
    requires
        0 <= i < models_of(some, files).len(),
        !models_of(some, files)[i].adm,
    ensures
        !files.contains(models_of(some, files)[i].id + ".adm"@),
    decreases some.len(),
{
    if some.len() > 0 {
        let front = models_of(some.drop_last(), files);
        if i < front.len() {
            law_native_format_first(some.drop_last(), files, i);
        }
    }
}

/// A profile in the registry: the model that it is for, and its handle.
#[derive(Clone, Debug)]
pub struct PedEntry {
    pub model: String,
    pub handle: u64,
}

pub open spec fn ped_views(v: Seq<PedEntry>) -> Seq<(Seq<char>, u64)> {
    v.map_values(|e: PedEntry| (e.model@, e.handle))
}

pub open spec fn has_handle(reg: Seq<(Seq<char>, u64)>, handle: u64) -> bool {
    exists|i: int| 0 <= i < reg.len() && (#[trigger] reg[i]).1 == handle
}

pub open spec fn has_model(reg: Seq<(Seq<char>, u64)>, model: Seq<char>) -> bool {
    exists|i: int| 0 <= i < reg.len() && (#[trigger] reg[i]).0 == model
}

/// A profile that is being loaded: its handle and, once it is there, the model
/// that it is for.
#[derive(Clone, Debug)]
pub struct PedHandle {
    pub handle: u64,
    pub model: Option<String>,
}

/// The registry after a look at one handle.
pub open spec fn with_ped(reg: Seq<(Seq<char>, u64)>, h: PedHandle) -> Seq<(Seq<char>, u64)> {
    match h.model {
        Some(model) => if !has_handle(reg, h.handle) && !has_model(reg, model@) {
            reg.push((model@, h.handle))
        } else {
            reg
        },
        None => reg,
    }
}

/// The registry after a look at all handles.
pub open spec fn with_peds(reg: Seq<(Seq<char>, u64)>, handles: Seq<PedHandle>) -> Seq<
    (Seq<char>, u64),
>
    decreases handles.len(),
{
    if handles.len() == 0 {
        reg
    } else {
        with_ped(with_peds(reg, handles.drop_last()), handles.last())
    }
}

/// Moves the profiles that are there into the registry, the first one for each
/// model.
pub fn sync_ped_physics_registry(registry: &mut Vec<PedEntry>, handles: &Vec<PedHandle>)
    ensures
        ped_views(final(registry)@) == with_peds(ped_views(old(registry)@), handles@),
{
    let mut i: usize = 0;
    assert(handles@.take(0) =~= Seq::<PedHandle>::empty());
    while i < handles.len()
        invariant
            i <= handles.len(),
            ped_views(registry@) == with_peds(ped_views(old(registry)@), handles@.take(i as int)),
        decreases handles.len() - i,
    {
        proof {
            lemma_take_next(handles@, i as int);
        }
        let ghost reg = ped_views(registry@);
        let ghost before = registry@;
        match &handles[i].model {
            Some(model) => {
                let mut known = false;
                let mut j: usize = 0;
                while j < registry.len()
                    invariant
                        j <= registry.len(),
                        i < handles.len(),
                        reg == ped_views(registry@),
                        registry@ == before,
                        *model == handles@[i as int].model->0,
                        known == exists|k: int|
                            0 <= k < j && ((#[trigger] reg[k]).1 == handles@[i as int].handle
                                || reg[k].0 == model@),
                    decreases registry.len() - j,
                {
                    assert(reg[j as int] == (registry@[j as int].model@, registry@[j as int].handle));
                    if registry[j].handle == handles[i].handle || same(
                        registry[j].model.as_str(),
                        model.as_str(),
                    ) {
                        known = true;
                    }
                    j = j + 1;
                }
                if !known {
                    registry.push(PedEntry { model: model.clone(), handle: handles[i].handle });
                    assert(ped_views(registry@) =~= reg.push((model@, handles@[i as int].handle)));
                }
            },
            None => {},
        }
        i = i + 1;
    }
    assert(handles@.take(handles.len() as int) =~= handles@);
}

/// What stands in the registry stays in it.
pub proof fn law_registered_peds_stay(reg: Seq<(Seq<char>, u64)>, handles: Seq<PedHandle>)
    ensures
        with_peds(reg, handles).len() >= reg.len(),
        with_peds(reg, handles).take(reg.len() as int) == reg,
    decreases handles.len(),
{
    if handles.len() == 0 {
        assert(reg.take(reg.len() as int) =~= reg);
    } else {
        let before = with_peds(reg, handles.drop_last());
        law_registered_peds_stay(reg, handles.drop_last());
        assert(with_ped(before, handles.last()).take(reg.len() as int) =~= before.take(
            reg.len() as int,
        ));
    }
}

/// Each model has at most one profile.
pub proof fn law_one_ped_per_model(reg: Seq<(Seq<char>, u64)>, handles: Seq<PedHandle>)
    requires
        forall|i: int, j: int|
            0 <= i < j < reg.len() ==> (#[trigger] reg[i]).0 != (#[trigger] reg[j]).0,
    ensures
        forall|i: int, j: int|
            0 <= i < j < with_peds(reg, handles).len() ==> (#[trigger] with_peds(
                reg,
                handles,
            )[i]).0 != (#[trigger] with_peds(reg, handles)[j]).0,
    decreases handles.len(),
{
    if handles.len() > 0 {
        law_one_ped_per_model(reg, handles.drop_last());
        let before = with_peds(reg, handles.drop_last());
        let after = with_peds(reg, handles);
        assert forall|i: int, j: int| 0 <= i < j < after.len() implies (#[trigger] after[i]).0 != (
        #[trigger] after[j]).0 by {
            assert(after[i] == before[i]);
            if j < before.len() {
                assert(after[j] == before[j]);
            }
        }
    }
}

/// The assets of a client: below the project while it is developed, else beside
/// the program, else below the working directory.
pub proof fn law_asset_root(project: Option<String>, exe_dir: Option<String>, r: String)
    requires
        call_ensures(asset_root, (project, exe_dir), r),
    ensures
        project is Some ==> r@ == joined_path(project->0@, "assets"@),
        project is None && exe_dir is Some ==> r@ == joined_path(exe_dir->0@, "assets"@),
        project is None && exe_dir is None ==> r@ == "assets"@,
{
}

/// The asset that one more file adds to those of a directory.
pub open spec fn adds(r: Seq<NativeAsset>, s: Seq<NativeAsset>, id: Seq<char>, path: Seq<char>) -> bool {
    asset_views(s) == asset_views(r).push(AssetView { id, path })
}

proof fn lemma_one_more_file(kind: AssetKind, files: Seq<Seq<char>>, name: Seq<char>)
    ensures
        assets_of(kind, files.push(name)) == match asset_of(kind, name) {
            Some(a) => assets_of(kind, files).push(a),
            None => assets_of(kind, files),
        },
{
    assert(files.push(name).drop_last() =~= files);
}

/// A font is a file with the extension `ttf` or `otf`, a manifest one with
/// `drawable`, and each is known by its stem; any other file adds nothing.
pub proof fn law_fonts_and_manifests(
    files: &Vec<String>,
    more: &Vec<String>,
    name: &str,
    stem: String,
    e: String,
    r: Vec<NativeAsset>,
    s: Vec<NativeAsset>,
    d: Vec<NativeAsset>,
    f: Vec<NativeAsset>,
)
    requires
        call_ensures(load_native_fonts, (files,), r),
        call_ensures(load_native_fonts, (more,), s),
        call_ensures(load_native_drawables, (files,), d),
        call_ensures(load_native_drawables, (more,), f),
        views(more@) == views(files@).push(name@),
        call_ensures(file_stem, (name,), stem),
        call_ensures(extension, (name,), e),
    ensures
        e@ == "ttf"@ || e@ == "otf"@ ==> adds(r@, s@, stem@, "fonts/"@ + stem@ + "."@ + e@),
        e@ != "ttf"@ && e@ != "otf"@ ==> asset_views(s@) == asset_views(r@),
        e@ == "drawable"@ ==> adds(d@, f@, stem@, "models/"@ + stem@ + ".drawable"@),
        e@ != "drawable"@ ==> asset_views(f@) == asset_views(d@),
{
    lemma_one_more_file(AssetKind::Font, views(files@), name@);
    lemma_one_more_file(AssetKind::Drawable, views(files@), name@);
}

/// A profile of a character is a file that ends in `.ped.toml`: it is known by
/// what comes before, without any further `.ped`.
pub proof fn law_ped_profiles(
    files: &Vec<String>,
    more: &Vec<String>,
    name: &str,
    stem: String,
    bare: &str,
    tail: &str,
    id: String,
    e: String,
    r: Vec<NativeAsset>,
    s: Vec<NativeAsset>,
    base: Seq<char>,
)
    requires
        call_ensures(load_native_ped_physics, (files,), r),
        call_ensures(load_native_ped_physics, (more,), s),
        views(more@) == views(files@).push(name@),
        call_ensures(file_stem, (name,), stem),
        call_ensures(extension, (name,), e),
        bare@ == stem@,
        tail@ == ".ped"@,
        call_ensures(strip_tails, (bare, tail), id),
    ensures
        e@ == "toml"@ && stem@ == base + ".ped"@ ==> adds(
            r@,
            s@,
            id@,
            "models/"@ + id@ + ".ped.toml"@,
        ),
        e@ != "toml"@ ==> asset_views(s@) == asset_views(r@),
        (forall|b: Seq<char>| stem@ != #[trigger] (b + ".ped"@)) ==> asset_views(s@) == asset_views(
            r@,
        ),
{
    lemma_one_more_file(AssetKind::PedPhysics, views(files@), name@);
    let t = ".ped"@;
    if stem@ == base + t {
        assert(stem@.skip(stem@.len() - t.len()) =~= t);
    }
    if has_tail(stem@, t) {
        assert(stem@ =~= stem@.take(stem@.len() - t.len()) + t);
    }
}

proof fn lemma_models(some: Seq<Seq<char>>, files: Seq<Seq<char>>, m: ModelView)
    ensures
        models_of(some, files).contains(m) <==> exists|i: int|
            0 <= i < some.len() && model_of(#[trigger] some[i], files) == Some(m),
    decreases some.len(),
{
    if some.len() > 0 {
        let front = some.drop_last();
        lemma_models(front, files, m);
        if model_of(some.last(), files) is Some {
            lemma_push_contains(models_of(front, files), model_of(some.last(), files)->0, m);
        }
        if exists|i: int| 0 <= i < front.len() && model_of(#[trigger] front[i], files) == Some(m) {
            let i = choose|i: int|
                0 <= i < front.len() && model_of(#[trigger] front[i], files) == Some(m);
            assert(some[i] == front[i]);
        }
        if exists|i: int| 0 <= i < some.len() && model_of(#[trigger] some[i], files) == Some(m) {
            let i = choose|i: int|
                0 <= i < some.len() && model_of(#[trigger] some[i], files) == Some(m);
            if i < front.len() {
                assert(front[i] == some[i]);
            }
        }
        if model_of(some.last(), files) == Some(m) {
            assert(model_of(some[some.len() - 1], files) == Some(m));
        }
    }
}

/// A file of a model is registered under its stem: a native one always, one in
/// the glTF format where no native one has that stem. No other file is.
pub proof fn law_models_registered(
    files: &Vec<String>,
    r: Vec<NativeModel>,
    name: &str,
    stem: String,
    e: String,
    k: int,
    m: ModelView,
)
    requires
        call_ensures(register_native_models, (files,), r),
        0 <= k < files@.len(),
        files@[k]@ == name@,
        call_ensures(file_stem, (name,), stem),
        call_ensures(extension, (name,), e),
    ensures
        e@ == "adm"@ ==> model_views(r@).contains(
            ModelView { id: stem@, path: "models/"@ + stem@ + ".adm"@, adm: true },
        ),
        (e@ == "glb"@ || e@ == "gltf"@) && !views(files@).contains(stem@ + ".adm"@) ==> model_views(
            r@,
        ).contains(ModelView { id: stem@, path: "models/"@ + stem@ + "."@ + e@, adm: false }),
        model_views(r@).contains(m) && !m.adm ==> !views(files@).contains(m.id + ".adm"@),
{
    reveal_strlit("adm");
    reveal_strlit("glb");
    reveal_strlit("gltf");
    assert("adm"@.len() == 3 && "glb"@.len() == 3 && "gltf"@.len() == 4);
    assert("adm"@[0] == 'a' && "glb"@[0] == 'g');
    let all = views(files@);
    assert(all[k] == name@);
    if model_of(name@, all) is Some {
        lemma_models(all, all, model_of(name@, all)->0);
    }
    if model_views(r@).contains(m) && !m.adm {
        let i = choose|i: int| 0 <= i < model_views(r@).len() && model_views(r@)[i] == m;
        law_native_format_first(all, all, i);
    }
}

/// One look at the profiles: what is registered stays, a profile that is there
/// joins unless its handle or its model is registered already, and one that is
/// not there waits.
pub proof fn law_profiles_registered(
    registry: &mut Vec<PedEntry>,
    longer: &mut Vec<PedEntry>,
    handles: &Vec<PedHandle>,
    more: &Vec<PedHandle>,
    h: PedHandle,
)
    requires
        call_ensures(sync_ped_physics_registry, (registry, handles), ()),
        call_ensures(sync_ped_physics_registry, (longer, more), ()),
        old(longer)@ == old(registry)@,
        more@ == handles@.push(h),
    ensures
        final(registry)@.len() >= old(registry)@.len(),
        ped_views(final(registry)@).take(old(registry)@.len() as int) == ped_views(old(registry)@),
        handles@.len() == 0 ==> ped_views(final(registry)@) == ped_views(old(registry)@),
        ({
            let known = ped_views(final(registry)@);
            let joins = h.model is Some && (forall|i: int|
                0 <= i < known.len() ==> (#[trigger] known[i]).1 != h.handle && known[i].0
                    != h.model->0@);
            &&& joins ==> ped_views(final(longer)@) == known.push((h.model->0@, h.handle))
            &&& !joins ==> ped_views(final(longer)@) == known
        }),
{
    assert(more@.drop_last() =~= handles@);
    law_registered_peds_stay(ped_views(old(registry)@), handles@);
    assert(ped_views(final(registry)@).len() == final(registry)@.len());
    let known = ped_views(final(registry)@);
    if h.model is Some {
        if has_handle(known, h.handle) {
            let i = choose|i: int| 0 <= i < known.len() && (#[trigger] known[i]).1 == h.handle;
            assert(known[i].1 == h.handle);
        }
        if has_model(known, h.model->0@) {
            let i = choose|i: int| 0 <= i < known.len() && (#[trigger] known[i]).0 == h.model->0@;
            assert(known[i].0 == h.model->0@);
        }
    }
}

} // verus!
