//! What the model viewer loads: its arguments, the files beside a model, and
//! animation sets.

use vstd::prelude::*;

use crate::folds::{lemma_push_contains, lemma_take_next};
use crate::names::{
    add_name, add_names, copy_names, lemma_with_names_contains, views, with_name, with_names,
};
use crate::paths::{
    extension, extension_of, file_name, file_stem, find_stem, has_extension, leads_to,
    lemma_leads_to, name_of, plain_name, sibling, sibling_of, stem_in,
};
use crate::text::{
    ascii_lower_all, ascii_lowercase, concat, decimal, decimal_digits, has_head, join, joined,
    replace_char, replaced, same, starts_with,
};

verus! {

/// The models that the arguments name: options are passed over, and with
/// `--features` or `-F` the argument behind it.
pub open spec fn model_args(args: Seq<Seq<char>>, skip: bool) -> Seq<Seq<char>>
    decreases args.len(),
{
    if args.len() == 0 {
        Seq::empty()
    } else {
        let rest = args.drop_first();
        if skip {
            model_args(rest, false)
        } else if args[0] == "--features"@ || args[0] == "-F"@ {
            model_args(rest, true)
        } else if has_head(args[0], "-"@) {
            model_args(rest, false)
        } else {
            seq![args[0]] + model_args(rest, false)
        }
    }
}

pub fn parse_args(args: &Vec<String>) -> (r: Vec<String>)
    ensures
        views(r@) == model_args(views(args@), false),
{
    let ghost all = views(args@);
    let mut r: Vec<String> = Vec::new();
    let mut skip = false;
    let mut i: usize = 0;
    assert(all.skip(0) =~= all);
    assert(views(r@) + model_args(all, false) =~= model_args(all, false));
    while i < args.len()
        invariant
            i <= args.len(),
            all == views(args@),
            model_args(all, false) == views(r@) + model_args(all.skip(i as int), skip),
        decreases args.len() - i,
    {
        let a = args[i].as_str();
        let ghost rest = all.skip(i as int);
        let ghost before = views(r@);
        proof {
            assert(rest[0] == a@);
            assert(rest.drop_first() =~= all.skip(i + 1));
        }
        if skip {
            skip = false;
        } else if same(a, "--features") || same(a, "-F") {
            skip = true;
        } else if !starts_with(a, "-") {
            r.push(a.to_string());
            proof {
                assert(views(r@) =~= before.push(a@));
                let tail = model_args(all.skip(i + 1), false);
                assert(before + (seq![a@] + tail) =~= views(r@) + tail);
            }
        }
        i = i + 1;
    }
    assert(all.skip(i as int) =~= Seq::<Seq<char>>::empty());
    assert(views(r@) + Seq::<Seq<char>>::empty() =~= views(r@));
    r
}

/// The title of the window: the model, or how many there are.
pub open spec fn title_of(paths: Seq<Seq<char>>) -> Seq<char> {
    if paths.len() == 0 {
        "ADS Model Viewer"@
    } else if paths.len() == 1 {
        "ADS Viewer — "@ + stem_or_model(paths[0])
    } else {
        "ADS Viewer — "@ + decimal_digits(paths.len()) + " modelů"@
    }
}

/// The stem of a path, or `model`.
pub open spec fn stem_or_model(path: Seq<char>) -> Seq<char> {
    match stem_in(path) {
        Some(s) => s,
        None => "model"@,
    }
}

fn stem_of_path(path: &str) -> (r: String)
    ensures
        r@ == stem_or_model(path@),
{
    match find_stem(path) {
        Some(s) => s,
        None => "model".to_string(),
    }
}

pub fn window_title(paths: &Vec<String>) -> (r: String)
    ensures
        r@ == title_of(views(paths@)),
{
    assert(views(paths@).len() == paths@.len());
    if paths.len() == 0 {
        "ADS Model Viewer".to_string()
    } else if paths.len() == 1 {
        let stem = stem_of_path(paths[0].as_str());
        concat("ADS Viewer — ", stem.as_str())
    } else {
        let n = decimal(paths.len() as u64);
        let mut r = concat("ADS Viewer — ", n.as_str());
        r.append(" modelů");
        r
    }
}

/// The directory of the assets: that of the client, that of the viewer, that
/// beside the program, or one below the working directory. Those that do not
/// exist are missing.
pub fn viewer_asset_root(
    client: Option<String>,
    local: Option<String>,
    exe: Option<String>,
) -> (r: String)
    ensures
        r@ == match (client, local, exe) {
            (Some(c), _, _) => c@,
            (None, Some(l), _) => l@,
            (None, None, Some(e)) => e@,
            (None, None, None) => "assets"@,
        },
{
    match client {
        Some(c) => c,
        None => match local {
            Some(l) => l,
            None => match exe {
                Some(e) => e,
                None => "assets".to_string(),
            },
        },
    }
}

/// The path of an asset with forward slashes.
pub fn canonical_bevy_path(path: &str) -> (r: String)
    ensures
        r@ == replaced(path@, '\\', "/"@),
{
    replace_char(path, '\\', "/")
}

/// The extension of a path in lower case, empty where it has none.
pub open spec fn lower_extension(path: Seq<char>) -> Seq<char> {
    if has_extension(name_of(path)) {
        ascii_lower_all(extension_of(name_of(path)))
    } else {
        Seq::empty()
    }
}

fn extension_in_lower_case(path: &str) -> (r: String)
    ensures
        r@ == lower_extension(path@),
{
    let name = file_name(path);
    let e = extension(name.as_str());
    let r = ascii_lowercase(e.as_str());
    assert(r@ =~= lower_extension(path@));
    r
}

/// A path of the arguments, and the real path where there is such a file.
#[derive(Clone, Debug)]
pub struct InputPath {
    pub path: String,
    pub resolved: Option<String>,
}

pub open spec fn is_anim_set(p: InputPath) -> bool {
    lower_extension(p.path@) == "ads_anim"@
}

/// The animation sets among the arguments, each once.
pub open spec fn anim_sets_in(paths: Seq<InputPath>) -> Seq<Seq<char>>
    decreases paths.len(),
{
    if paths.len() == 0 {
        Seq::empty()
    } else {
        let front = anim_sets_in(paths.drop_last());
        match paths.last().resolved {
            Some(found) if is_anim_set(paths.last()) => with_name(
                front,
                replaced(found@, '\\', "/"@),
            ),
            _ => front,
        }
    }
}

/// The models among the arguments: all that are no animation set.
pub open spec fn models_in(paths: Seq<InputPath>) -> Seq<Seq<char>>
    decreases paths.len(),
{
    if paths.len() == 0 {
        Seq::empty()
    } else {
        let front = models_in(paths.drop_last());
        if is_anim_set(paths.last()) {
            front
        } else {
            front.push(paths.last().path@)
        }
    }
}

/// The stems of paths, of those that have one.
pub open spec fn stems_of(paths: Seq<Seq<char>>) -> Seq<Seq<char>>
    decreases paths.len(),
{
    if paths.len() == 0 {
        Seq::empty()
    } else {
        let front = stems_of(paths.drop_last());
        match stem_in(paths.last()) {
            Some(s) => front.push(s),
            None => front,
        }
    }
}

/// What the user is told as the viewer starts.
pub open spec fn start_text(models: Seq<Seq<char>>, sets: nat) -> Seq<char> {
    if models.len() == 0 {
        "Žádný model.\nSpusť: model_viewer cesta/k/modelu.adm [cesta/k/setu.ads_anim]"@
    } else if sets == 0 {
        "Modely: "@ + joined(stems_of(models), ", "@)
    } else {
        "Modely: "@ + joined(stems_of(models), ", "@) + "\nAnimSety: "@ + decimal_digits(sets)
    }
}

/// What is loaded at the start, and what the user is told.
#[derive(Clone, Debug)]
pub struct StartLoad {
    pub models: Vec<String>,
    pub anim_sets: Vec<String>,
    pub text: String,
}

fn list_stems(paths: &Vec<String>) -> (r: Vec<String>)
    ensures
        views(r@) == stems_of(views(paths@)),
{
    let ghost all = views(paths@);
    let mut r: Vec<String> = Vec::new();
    let mut i: usize = 0;
    assert(all.take(0) =~= Seq::<Seq<char>>::empty());
    assert(views(r@) =~= Seq::<Seq<char>>::empty());
    while i < paths.len()
        invariant
            i <= paths.len(),
            all == views(paths@),
            views(r@) == stems_of(all.take(i as int)),
        decreases paths.len() - i,
    {
        let ghost before = r@;
        proof {
            lemma_take_next(all, i as int);
            assert(all.take(i + 1).last() == paths@[i as int]@);
        }
        if let Some(s) = find_stem(paths[i].as_str()) {
            r.push(s);
            assert(views(r@) =~= views(before).push(s@));
        }
        i = i + 1;
    }
    assert(all.take(i as int) =~= all);
    r
}

/// Sorts the arguments into models and animation sets.
pub fn load_models(paths: &Vec<InputPath>) -> (r: StartLoad)
    ensures
        views(r.models@) == models_in(paths@),
        views(r.anim_sets@) == anim_sets_in(paths@),
        r.text@ == start_text(models_in(paths@), anim_sets_in(paths@).len()),
{
    let mut models: Vec<String> = Vec::new();
    let mut anim_sets: Vec<String> = Vec::new();
    let mut i: usize = 0;
    assert(paths@.take(0) =~= Seq::<InputPath>::empty());
    assert(views(models@) =~= Seq::<Seq<char>>::empty());
    assert(views(anim_sets@) =~= Seq::<Seq<char>>::empty());
    while i < paths.len()
        invariant
            i <= paths.len(),
            views(models@) == models_in(paths@.take(i as int)),
            views(anim_sets@) == anim_sets_in(paths@.take(i as int)),
        decreases paths.len() - i,
    {
        let ghost before = models@;
        proof {
            lemma_take_next(paths@, i as int);
        }
        let e = extension_in_lower_case(paths[i].path.as_str());
        if same(e.as_str(), "ads_anim") {
            if let Some(found) = &paths[i].resolved {
                let p = canonical_bevy_path(found.as_str());
                let _ = add_name(&mut anim_sets, p.as_str());
            }
        } else {
            models.push(paths[i].path.clone());
            assert(views(models@) =~= views(before).push(paths@[i as int].path@));
        }
        i = i + 1;
    }
    assert(paths@.take(paths.len() as int) =~= paths@);
    assert(views(models@).len() == models@.len());
    assert(views(anim_sets@).len() == anim_sets@.len());
    let text = if models.len() == 0 {
        "Žádný model.\nSpusť: model_viewer cesta/k/modelu.adm [cesta/k/setu.ads_anim]".to_string()
    } else {
        let stems = list_stems(&models);
        let list = join(&stems, ", ");
        let mut t = concat("Modely: ", list.as_str());
        if anim_sets.len() > 0 {
            let n = decimal(anim_sets.len() as u64);
            t.append("\nAnimSety: ");
            t.append(n.as_str());
        }
        t
    };
    StartLoad { models, anim_sets, text }
}

/// How a model is loaded.
#[derive(Clone, Debug)]
pub struct ModelLoad {
    pub stem: String,
    pub path: String,
    /// In the native format; else the scene to spawn.
    pub adm: bool,
    pub scene: Option<String>,
    pub anim_sets: Vec<String>,
    pub manifest: Option<String>,
}

/// The files beside a model that may go with it.
#[derive(Clone, Debug)]
pub struct ModelSiblings {
    pub anim_set: String,
    pub manifest: String,
    pub ik: String,
}

pub fn model_siblings(path: &str) -> (r: ModelSiblings)
    ensures
        r.anim_set@ == sibling_of(path@, "ads_anim"@),
        r.manifest@ == sibling_of(path@, "drawable"@),
        r.ik@ == sibling_of(path@, "ik.toml"@),
{
    ModelSiblings {
        anim_set: sibling(path, "ads_anim"),
        manifest: sibling(path, "drawable"),
        ik: sibling(path, "ik.toml"),
    }
}

/// Decides how the model at a real path is loaded. `anim_set` is the real path
/// of the animation set beside it, `manifest` the path of the manifest, where
/// there are such files; `explicit` are the sets of the arguments.
pub fn load_one_model(
    path: &str,
    explicit: &Vec<String>,
    anim_set: &Option<String>,
    manifest: &Option<String>,
) -> (r: ModelLoad)
    ensures
        r.stem@ == stem_or_model(path@),
        r.path@ == replaced(path@, '\\', "/"@),
        r.adm == (lower_extension(path@) == "adm"@),
        match r.scene {
            Some(s) => !r.adm && s@ == r.path@ + "#Scene0"@,
            None => r.adm,
        },
        views(r.anim_sets@) == (if !r.adm {
            Seq::empty()
        } else {
            match *anim_set {
                Some(s) => with_name(views(explicit@), replaced(s@, '\\', "/"@)),
                None => views(explicit@),
            }
        }),
        match (r.manifest, *manifest) {
            (Some(m), Some(p)) => m@ == replaced(p@, '\\', "/"@),
            (None, None) => true,
            _ => false,
        },
{
    let stem = stem_of_path(path);
    let asset = canonical_bevy_path(path);
    let e = extension_in_lower_case(path);
    let adm = same(e.as_str(), "adm");
    let manifest = match manifest {
        Some(p) => Some(canonical_bevy_path(p.as_str())),
        None => None,
    };
    if adm {
        let mut anim_sets = copy_names(explicit);
        if let Some(s) = anim_set {
            let p = canonical_bevy_path(s.as_str());
            let _ = add_name(&mut anim_sets, p.as_str());
        }
        ModelLoad { stem, path: asset, adm, scene: None, anim_sets, manifest }
    } else {
        let scene = concat(asset.as_str(), "#Scene0");
        let anim_sets: Vec<String> = Vec::new();
        assert(views(anim_sets@) =~= Seq::<Seq<char>>::empty());
        ModelLoad { stem, path: asset, adm, scene: Some(scene), anim_sets, manifest }
    }
}

/// The sets that a model has after more were picked for it: those it has stay
/// first, and none comes twice among them.
pub fn attach_sets(attached: &Option<Vec<String>>, added: &Vec<String>) -> (r: Vec<String>)
    ensures
        views(r@) == match *attached {
            Some(sets) => with_names(views(sets@), views(added@)),
            None => views(added@),
        },
{
    match attached {
        Some(sets) => {
            let mut r = copy_names(sets);
            add_names(&mut r, added);
            r
        },
        None => copy_names(added),
    }
}

/// A chain of bones that ends in a target, as a file beside a model names it.
#[derive(Clone, Debug)]
pub struct IkTomlChain {
    pub name: String,
    pub enabled: bool,
    pub parent_bone: String,
    pub ik_target: String,
    pub effector_bone: String,
    pub pole_bone: Option<String>,
}

/// A chain that can be used.
#[derive(Clone, Debug)]
pub struct ViewerIkChainDef {
    pub name: String,
    pub enabled: bool,
    pub parent_bone: String,
    pub ik_target: String,
    pub effector_bone: String,
    pub pole_bone: Option<String>,
}

/// The three bones of the chain are named.
pub open spec fn usable(c: IkTomlChain) -> bool {
    c.parent_bone@.len() > 0 && c.ik_target@.len() > 0 && c.effector_bone@.len() > 0
}

/// `d` is the chain `c`; an empty pole counts as none.
pub open spec fn is_chain(d: ViewerIkChainDef, c: IkTomlChain) -> bool {
    &&& d.name@ == c.name@
    &&& d.enabled == c.enabled
    &&& d.parent_bone@ == c.parent_bone@
    &&& d.ik_target@ == c.ik_target@
    &&& d.effector_bone@ == c.effector_bone@
    &&& match (d.pole_bone, c.pole_bone) {
        (Some(p), Some(q)) => p@ == q@ && q@.len() > 0,
        (None, Some(q)) => q@.len() == 0,
        (None, None) => true,
        (Some(_), None) => false,
    }
}

/// The usable chains, in their order.
pub open spec fn usable_chains(chains: Seq<IkTomlChain>) -> Seq<IkTomlChain>
    decreases chains.len(),
{
    if chains.len() == 0 {
        chains
    } else if usable(chains.last()) {
        usable_chains(chains.drop_last()).push(chains.last())
    } else {
        usable_chains(chains.drop_last())
    }
}

/// Adds the usable chains of a file to those that there are.
pub fn load_ik_sidecar(known: &mut Vec<ViewerIkChainDef>, chains: &Vec<IkTomlChain>) -> (added: usize)
    ensures
        ({
            let new = usable_chains(chains@);
            let n = old(known)@.len();
            &&& added == new.len()
            &&& final(known)@.len() == n + new.len()
            &&& final(known)@.take(n as int) == old(known)@
            &&& forall|i: int| 0 <= i < new.len() ==> is_chain(final(known)@[n + i], #[trigger] new[i])
        }),
{
    let ghost start = known@;
    let mut added: usize = 0;
    let mut i: usize = 0;
    assert(chains@.take(0) =~= Seq::<IkTomlChain>::empty());
    assert(known@.take(start.len() as int) =~= start);
    while i < chains.len()
        invariant
            i <= chains.len(),
            start == old(known)@,
            added == usable_chains(chains@.take(i as int)).len(),
            added <= i,
            known@.len() == start.len() + added,
            known@.take(start.len() as int) == start,
            forall|j: int|
                0 <= j < added ==> is_chain(
                    known@[start.len() + j],
                    #[trigger] usable_chains(chains@.take(i as int))[j],
                ),
        decreases chains.len() - i,
    {
        let c = &chains[i];
        let ghost before = known@;
        let ghost list = usable_chains(chains@.take(i as int));
        proof {
            lemma_take_next(chains@, i as int);
        }
        if !(c.parent_bone.as_str().is_empty() || c.ik_target.as_str().is_empty()
            || c.effector_bone.as_str().is_empty()) {
            let pole_bone = match &c.pole_bone {
                Some(p) => if p.as_str().is_empty() {
                    None
                } else {
                    Some(p.clone())
                },
                None => None,
            };
            known.push(
                ViewerIkChainDef {
                    name: c.name.clone(),
                    enabled: c.enabled,
                    parent_bone: c.parent_bone.clone(),
                    ik_target: c.ik_target.clone(),
                    effector_bone: c.effector_bone.clone(),
                    pole_bone,
                },
            );
            added = added + 1;
            proof {
                assert(known@.take(start.len() as int) =~= before.take(start.len() as int));
                let next = usable_chains(chains@.take(i + 1));
                assert forall|j: int| 0 <= j < added implies is_chain(
                    known@[start.len() + j],
                    #[trigger] next[j],
                ) by {
                    if j < list.len() {
                        assert(next[j] == list[j]);
                        assert(known@[start.len() + j] == before[start.len() + j]);
                    }
                }
            }
        }
        i = i + 1;
    }
    assert(chains@.take(chains.len() as int) =~= chains@);
    added
}

/// The arguments from the front: an option is passed over, `--features` and `-F`
/// with the argument behind them, and any other argument is a model. `rest` are
/// the arguments behind the first one and `after` those behind the second.
pub proof fn law_model_arguments(
    args: &Vec<String>,
    rest: &Vec<String>,
    after: &Vec<String>,
    of_args: Vec<String>,
    of_rest: Vec<String>,
    of_after: Vec<String>,
)
    requires
        call_ensures(parse_args, (args,), of_args),
        call_ensures(parse_args, (rest,), of_rest),
        call_ensures(parse_args, (after,), of_after),
        args@.len() > 0 ==> rest@ == args@.skip(1),
        args@.len() > 1 ==> after@ == args@.skip(2),
    ensures
        args@.len() == 0 ==> of_args@.len() == 0,
        args@.len() > 0 && (args@[0]@ == "--features"@ || args@[0]@ == "-F"@) ==> {
            &&& args@.len() == 1 ==> of_args@.len() == 0
            &&& args@.len() > 1 ==> views(of_args@) == views(of_after@)
        },
        args@.len() > 0 && args@[0]@ != "--features"@ && args@[0]@ != "-F"@ && args@[0]@.len() > 0
            && args@[0]@[0] == '-' ==> views(of_args@) == views(of_rest@),
        args@.len() > 0 && (args@[0]@.len() == 0 || args@[0]@[0] != '-') ==> views(of_args@)
            == seq![args@[0]@] + views(of_rest@),
{
    reveal_strlit("--features");
    reveal_strlit("-F");
    reveal_strlit("-");
    let v = views(args@);
    if args@.len() > 0 {
        assert(v[0] == args@[0]@);
        assert(v.drop_first() =~= views(rest@));
        assert("--features"@[0] == '-');
        assert("-F"@[0] == '-');
        let first = args@[0]@;
        if has_head(first, "-"@) {
            assert(first.take(1)[0] == "-"@[0]);
        } else if first.len() > 0 && first[0] == '-' {
            assert(first.take(1) =~= "-"@);
        }
        if args@.len() > 1 {
            assert(v.drop_first().drop_first() =~= views(after@));
        }
        reveal_with_fuel(model_args, 3);
    } else {
        assert(views(of_args@).len() == of_args@.len());
    }
}

/// The title names the only model by its stem, and else how many there are.
pub proof fn law_window_title(paths: &Vec<String>, path: &str, stem: Option<String>, r: String)
    requires
        call_ensures(window_title, (paths,), r),
        call_ensures(find_stem, (path,), stem),
        paths@.len() == 1 ==> path@ == paths@[0]@,
    ensures
        paths@.len() == 0 ==> r@ == "ADS Model Viewer"@,
        paths@.len() == 1 ==> r@ == "ADS Viewer — "@ + (match stem {
            Some(s) => s@,
            None => "model"@,
        }),
        paths@.len() > 1 ==> r@ == "ADS Viewer — "@ + decimal_digits(paths@.len())
            + " modelů"@,
{
    assert(views(paths@).len() == paths@.len());
    if paths@.len() == 1 {
        assert(views(paths@)[0] == paths@[0]@);
    }
}

/// The directory of the assets is the first that is there, and a path of an asset
/// has a slash wherever it had one or a backslash.
pub proof fn law_assets(
    client: Option<String>,
    local: Option<String>,
    exe: Option<String>,
    root: String,
    path: &str,
    bevy: String,
    i: int,
)
    requires
        call_ensures(viewer_asset_root, (client, local, exe), root),
        call_ensures(canonical_bevy_path, (path,), bevy),
        0 <= i < path@.len(),
    ensures
        client matches Some(c) ==> root@ == c@,
        client is None ==> (local matches Some(l) ==> root@ == l@),
        client is None && local is None ==> (exe matches Some(e) ==> root@ == e@),
        client is None && local is None && exe is None ==> root@ == "assets"@,
        bevy@.len() == path@.len(),
        bevy@[i] == (if path@[i] == '\\' {
            '/'
        } else {
            path@[i]
        }),
{
    lemma_slashes(path@);
}

proof fn lemma_slashes(s: Seq<char>)
    ensures
        replaced(s, '\\', "/"@).len() == s.len(),
        forall|i: int|
            0 <= i < s.len() ==> #[trigger] replaced(s, '\\', "/"@)[i] == (if s[i] == '\\' {
                '/'
            } else {
                s[i]
            }),
    decreases s.len(),
{
    reveal_strlit("/");
    if s.len() > 0 {
        lemma_slashes(s.drop_last());
    }
}

/// One more argument: an animation set joins the sets where its file is there and
/// not among them yet, with forward slashes; anything else joins the models as it
/// is. Which it is the ending of its name tells, in any case of letters.
pub proof fn law_sorted_argument(
    paths: &Vec<InputPath>,
    more: &Vec<InputPath>,
    of_paths: StartLoad,
    of_more: StartLoad,
    name: &str,
    end: String,
    found: &str,
    slashed: String,
)
    requires
        call_ensures(load_models, (paths,), of_paths),
        call_ensures(load_models, (more,), of_more),
        more@.len() == paths@.len() + 1,
        more@.drop_last() == paths@,
        plain_name(name@),
        leads_to(more@.last().path@, name@),
        call_ensures(extension, (name,), end),
        more@.last().resolved matches Some(f) ==> found@ == f@,
        call_ensures(canonical_bevy_path, (found,), slashed),
    ensures
        ascii_lower_all(end@) != "ads_anim"@ ==> views(of_more.models@) == views(
            of_paths.models@,
        ).push(more@.last().path@) && views(of_more.anim_sets@) == views(of_paths.anim_sets@),
        ascii_lower_all(end@) == "ads_anim"@ ==> views(of_more.models@) == views(of_paths.models@),
        ascii_lower_all(end@) == "ads_anim"@ && more@.last().resolved is None ==> views(
            of_more.anim_sets@,
        ) == views(of_paths.anim_sets@),
        ascii_lower_all(end@) == "ads_anim"@ && more@.last().resolved is Some ==> views(
            of_more.anim_sets@,
        ) == (if views(of_paths.anim_sets@).contains(slashed@) {
            views(of_paths.anim_sets@)
        } else {
            views(of_paths.anim_sets@).push(slashed@)
        }),
{
    reveal_strlit("ads_anim");
    assert("ads_anim"@.len() == 8);
    lemma_leads_to(more@.last().path@, name@);
    assert(name_of(more@.last().path@) == name@);
}

/// Without arguments nothing is loaded, and the user is told how to start; else
/// they are told the stems of the models, and the number of sets where there are
/// any.
pub proof fn law_start_text(paths: &Vec<InputPath>, r: StartLoad, stems: Seq<Seq<char>>)
    requires
        call_ensures(load_models, (paths,), r),
        stems.len() == r.models@.len(),
        forall|i: int| 0 <= i < stems.len() ==> stem_in(r.models@[i]@) == Some(#[trigger] stems[i]),
    ensures
        paths@.len() == 0 ==> r.models@.len() == 0 && r.anim_sets@.len() == 0,
        r.models@.len() == 0 ==> r.text@
            == "Žádný model.\nSpusť: model_viewer cesta/k/modelu.adm [cesta/k/setu.ads_anim]"@,
        r.models@.len() > 0 ==> r.text@ == "Modely: "@ + joined(stems, ", "@) + (
        if r.anim_sets@.len() == 0 {
            Seq::empty()
        } else {
            "\nAnimSety: "@ + decimal_digits(r.anim_sets@.len())
        }),
{
    let models = views(r.models@);
    assert(models.len() == r.models@.len());
    assert(views(r.anim_sets@).len() == r.anim_sets@.len());
    assert forall|i: int| 0 <= i < stems.len() implies stem_in(models[i]) == Some(
        #[trigger] stems[i],
    ) by {
        assert(models[i] == r.models@[i]@);
    }
    lemma_all_stems(models, stems);
    let head = "Modely: "@ + joined(stems, ", "@);
    assert(head + Seq::<char>::empty() =~= head);
    assert(head + "\nAnimSety: "@ + decimal_digits(r.anim_sets@.len()) =~= head + (
    "\nAnimSety: "@ + decimal_digits(r.anim_sets@.len())));
}

proof fn lemma_all_stems(paths: Seq<Seq<char>>, stems: Seq<Seq<char>>)
    requires
        stems.len() == paths.len(),
        forall|i: int| 0 <= i < stems.len() ==> stem_in(paths[i]) == Some(#[trigger] stems[i]),
    ensures
        stems_of(paths) == stems,
    decreases paths.len(),
{
    if paths.len() > 0 {
        let front = stems.drop_last();
        assert forall|i: int| 0 <= i < front.len() implies stem_in(paths.drop_last()[i]) == Some(
            #[trigger] front[i],
        ) by {
            assert(front[i] == stems[i]);
        }
        lemma_all_stems(paths.drop_last(), front);
        assert(stems[stems.len() - 1] == stems.last());
        assert(front.push(stems.last()) =~= stems);
    }
}

/// A model: a file in the native format is loaded with the sets of the arguments
/// and then the one beside it, each once; any other one by its first scene and
/// without sets. The files beside it that may go with it are called like it.
pub proof fn law_model_load(
    path: &str,
    name: &str,
    stem: String,
    end: String,
    explicit: &Vec<String>,
    anim_set: &Option<String>,
    manifest: &Option<String>,
    r: ModelLoad,
    bevy: String,
    x: Seq<char>,
)
    requires
        call_ensures(load_one_model, (path, explicit, anim_set, manifest), r),
        plain_name(name@),
        leads_to(path@, name@),
        call_ensures(file_stem, (name,), stem),
        call_ensures(extension, (name,), end),
        call_ensures(canonical_bevy_path, (path,), bevy),
    ensures
        r.stem@ == stem@,
        r.path@ == bevy@,
        r.adm <==> ascii_lower_all(end@) == "adm"@,
        r.adm ==> r.scene is None,
        !r.adm ==> r.scene is Some && r.scene->0@ == bevy@ + "#Scene0"@ && r.anim_sets@.len() == 0,
        r.adm && anim_set is None ==> views(r.anim_sets@) == views(explicit@),
        r.adm && anim_set is Some ==> (views(r.anim_sets@).contains(x) <==> views(
            explicit@,
        ).contains(x) || x == replaced(anim_set->0@, '\\', "/"@)),
        r.adm && anim_set is Some ==> r.anim_sets@.len() >= explicit@.len() && views(
            r.anim_sets@,
        ).take(explicit@.len() as int) == views(explicit@),
        r.manifest is Some <==> manifest is Some,
        manifest is Some ==> r.manifest->0@ == replaced(manifest->0@, '\\', "/"@),
{
    reveal_strlit("adm");
    assert("adm"@.len() == 3);
    lemma_leads_to(path@, name@);
    assert(name_of(path@) == name@);
    assert(views(r.anim_sets@).len() == r.anim_sets@.len());
    assert(views(explicit@).len() == explicit@.len());
    if r.adm && anim_set is Some {
        let set = replaced(anim_set->0@, '\\', "/"@);
        lemma_push_contains(views(explicit@), set, x);
        assert(views(explicit@).push(set).take(explicit@.len() as int) =~= views(explicit@));
        assert(views(explicit@).take(explicit@.len() as int) =~= views(explicit@));
    }
}

/// The files beside a model: its animations, its manifest and its chains.
pub proof fn law_model_siblings(
    path: &str,
    r: ModelSiblings,
    anims: &str,
    drawable: &str,
    ik: &str,
    a: String,
    b: String,
    c: String,
)
    requires
        call_ensures(model_siblings, (path,), r),
        anims@ == "ads_anim"@ && drawable@ == "drawable"@ && ik@ == "ik.toml"@,
        call_ensures(sibling, (path, anims), a),
        call_ensures(sibling, (path, drawable), b),
        call_ensures(sibling, (path, ik), c),
    ensures
        r.anim_set@ == a@,
        r.manifest@ == b@,
        r.ik@ == c@,
{
}

/// Sets that were picked for a model join those it has, which stay first; of a
/// model without sets they are the sets.
pub proof fn law_attached_sets(
    attached: &Option<Vec<String>>,
    added: &Vec<String>,
    r: Vec<String>,
    x: Seq<char>,
)
    requires
        call_ensures(attach_sets, (attached, added), r),
    ensures
        attached is None ==> views(r@) == views(added@),
        attached matches Some(sets) ==> (views(r@).contains(x) <==> views(sets@).contains(x)
            || views(added@).contains(x)),
        attached matches Some(sets) ==> r@.len() >= sets@.len() && views(r@).take(
            sets@.len() as int,
        ) == views(sets@),
{
    assert(views(r@).len() == r@.len());
    if attached is Some {
        let sets = views(attached->0@);
        assert(sets.len() == attached->0@.len());
        lemma_with_names_contains(sets, views(added@), x);
        lemma_names_stay_first(sets, views(added@));
    }
}

proof fn lemma_names_stay_first(names: Seq<Seq<char>>, more: Seq<Seq<char>>)
    ensures
        with_names(names, more).len() >= names.len(),
        with_names(names, more).take(names.len() as int) == names,
    decreases more.len(),
{
    if more.len() > 0 {
        lemma_names_stay_first(names, more.drop_last());
        let front = with_names(names, more.drop_last());
        assert(front.push(more.last()).take(names.len() as int) =~= front.take(names.len() as int));
    } else {
        assert(names.take(names.len() as int) =~= names);
    }
}

proof fn lemma_usable(chains: Seq<IkTomlChain>, k: int)
    requires
        0 <= k < chains.len(),
        usable(chains[k]),
    ensures
        usable_chains(chains.take(k)).len() < usable_chains(chains).len(),
        usable_chains(chains)[usable_chains(chains.take(k)).len() as int] == chains[k],
    decreases chains.len(),
{
    let front = chains.drop_last();
    if k < front.len() {
        lemma_usable(front, k);
        assert(front.take(k) =~= chains.take(k));
        assert(front[k] == chains[k]);
    } else {
        assert(chains.take(k) =~= front);
    }
}

proof fn lemma_usable_count(chains: Seq<IkTomlChain>)
    ensures
        usable_chains(chains).len() <= chains.len(),
        forall|i: int| 0 <= i < usable_chains(chains).len() ==> usable(#[trigger] usable_chains(chains)[i]),
    decreases chains.len(),
{
    if chains.len() > 0 {
        lemma_usable_count(chains.drop_last());
    }
}

/// The chains of a file join those that there are, which stay as they are: each
/// chain whose three bones are named, with all that it says but for a pole
/// without a name.
pub proof fn law_chains_loaded(
    known: &mut Vec<ViewerIkChainDef>,
    chains: &Vec<IkTomlChain>,
    added: usize,
    k: int,
    i: int,
)
    requires
        call_ensures(load_ik_sidecar, (known, chains), added),
        0 <= k < chains@.len(),
        0 <= i < old(known)@.len(),
    ensures
        final(known)@.len() == old(known)@.len() + added,
        added <= chains@.len(),
        final(known)@[i] == old(known)@[i],
        chains@[k].parent_bone@.len() > 0 && chains@[k].ik_target@.len() > 0
            && chains@[k].effector_bone@.len() > 0 ==> exists|j: int|
            0 <= j < added && #[trigger] is_chain(
                final(known)@[old(known)@.len() + j],
                chains@[k],
            ),
        forall|j: int|
            old(known)@.len() <= j < final(known)@.len() ==> (#[trigger] final(known)@[j]).parent_bone@.len()
                > 0 && final(known)@[j].ik_target@.len() > 0 && final(known)@[j].effector_bone@.len()
                > 0 && (final(known)@[j].pole_bone matches Some(p) ==> p@.len() > 0),
{
    let new = usable_chains(chains@);
    let n = old(known)@.len();
    lemma_usable_count(chains@);
    assert(final(known)@.take(n as int)[i] == old(known)@[i]);
    if usable(chains@[k]) {
        lemma_usable(chains@, k);
        let j = usable_chains(chains@.take(k)).len() as int;
        assert(new[j] == chains@[k]);
        assert(is_chain(final(known)@[n + j], new[j]));
        assert(is_chain(final(known)@[n + j], chains@[k]));
    }
    assert forall|j: int| n <= j < final(known)@.len() implies (#[trigger] final(known)@[j]).parent_bone@.len() > 0 && final(known)@[j].ik_target@.len() > 0 && final(known)@[j].effector_bone@.len() > 0 && (final(known)@[j].pole_bone matches Some(p) ==> p@.len()
        > 0) by {
        let m = j - n;
        assert(is_chain(final(known)@[n + m], new[m]));
        assert(usable(new[m]));
    }
}

} // verus!
