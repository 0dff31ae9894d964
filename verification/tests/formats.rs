use bevy_game::adm::{extract_adm, AdmError, AdmExtract};
use bevy_game::ads::{diagnose_anim_set, diagnose_anim_set_file, AnimDiag, AnimDiagBody};
use bevy_game::anim_sets::{
    clip_marks, clips_of, collect_clip_names, merge_dictionaries, normalize_anim_set_path,
    AnimClip, AnimDictionary, AnimSet, Notify,
};
use bevy_game::bytes::{ByteCursor, TextFault};
use bevy_game::glb::{extract_glb, textures_of_document, GlbError, GlbExtract};
use bevy_game::json::{parse_json, Json};
use bevy_game::scalar::{scalar, Scalar};

fn f(x: f32) -> Scalar {
    scalar(x.to_bits())
}

fn text(out: &mut Vec<u8>, s: &str) {
    out.extend((s.len() as u16).to_le_bytes());
    out.extend(s.as_bytes());
}

fn word(out: &mut Vec<u8>, n: u32) {
    out.extend(n.to_le_bytes());
}

fn adm_head(version: u32, meshes: u32, nodes: u32, textures: u32) -> Vec<u8> {
    let mut b = b"ADM\0".to_vec();
    word(&mut b, version);
    word(&mut b, meshes);
    word(&mut b, nodes);
    word(&mut b, textures);
    b
}

fn adm_file() -> Vec<u8> {
    let mut b = adm_head(3, 1, 1, 1);
    text(&mut b, "mesh");
    word(&mut b, 2);
    word(&mut b, 3);
    word(&mut b, 0b0100001);
    b.extend(vec![9u8; 2 * 12 + 2 * 4 + 3 * 4]);
    text(&mut b, "node");
    b.push(0);
    b.extend(vec![9u8; 8]);
    text(&mut b, "mat");
    b.extend(vec![9u8; 64]);
    word(&mut b, 2);
    text(&mut b, "skin.dds");
    b.push(2);
    b.push(1);
    word(&mut b, 3);
    b.extend([1, 2, 3]);
    text(&mut b, "čelo.png");
    b.push(1);
    b.push(0);
    word(&mut b, 1);
    b.push(7);
    b
}

#[test]
fn cursors_read_little_endian() {
    let data = vec![1u8, 2, 3, 4, 5, 6, 7];
    let mut cur = ByteCursor::new(&data);
    assert_eq!(cur.read_u8(), Some(1));
    assert_eq!(cur.read_u16(), Some(0x0302));
    assert_eq!(cur.read_u32(), Some(0x07060504));
    assert_eq!(cur.read_u8(), None);
    assert_eq!(cur.left(), 0);
    let mut cur = ByteCursor::new(&data);
    assert_eq!(cur.read_bytes(3), Some(vec![1, 2, 3]));
    assert!(!cur.pass(5));
    assert!(cur.seek(100));
    assert_eq!(cur.left(), 0);
}

#[test]
fn cursors_read_texts() {
    let mut data = Vec::new();
    text(&mut data, "žluť");
    let mut cur = ByteCursor::new(&data);
    assert_eq!(cur.read_text().unwrap(), "žluť");
    assert!(matches!(cur.read_text(), Err(TextFault::Length)));
    let short = vec![3u8, 0, b'a'];
    assert!(matches!(ByteCursor::new(&short).read_text(), Err(TextFault::Short)));
    let bad = vec![1u8, 0, 0xff];
    assert!(matches!(ByteCursor::new(&bad).read_text(), Err(TextFault::Utf8)));
}

#[test]
fn textures_of_native_models() {
    match extract_adm(&adm_file()) {
        AdmExtract::Textures { textures, error } => {
            assert!(error.is_none());
            assert_eq!(textures.len(), 2);
            assert_eq!(textures[0].file_name, "skin.dds");
            assert_eq!(textures[0].data, vec![1, 2, 3]);
            assert_eq!(textures[1].file_name, "čelo.png");
            assert_eq!(textures[1].data, vec![7]);
        }
        other => panic!("{:?}", other),
    }
    assert!(matches!(extract_adm(&adm_head(1, 5, 5, 0)), AdmExtract::NoTextures));
}

#[test]
fn native_models_say_what_is_wrong() {
    let refused = |b: Vec<u8>| match extract_adm(&b) {
        AdmExtract::Refused(e) => e.message(),
        other => panic!("{:?}", other),
    };
    assert_eq!(refused(vec![1]), "čtení magic");
    assert_eq!(refused(b"GLTF\0\0\0\0".to_vec()), "není ADM soubor");
    assert_eq!(refused(adm_head(9, 0, 0, 1)), "nepodporovaná verze ADM: 9");
    assert_eq!(refused(b"ADM\0\x01".to_vec()), "čtení u32");
    assert_eq!(refused(adm_head(1, 1, 0, 1)), "čtení u16");
    let mut b = adm_head(1, 1, 0, 1);
    b.extend([5, 0, b'a']);
    assert_eq!(refused(b), "čtení string");
    let mut b = adm_head(1, 1, 0, 1);
    b.extend([1, 0, 0xff]);
    assert_eq!(refused(b), "invalid UTF-8");
    let mut b = adm_head(1, 0, 1, 1);
    text(&mut b, "n");
    assert_eq!(refused(b), "čtení u8");
    assert_eq!(AdmError::Seek.message(), "seek");
}

#[test]
fn textures_before_a_broken_one_are_kept() {
    let mut b = adm_file();
    b.pop();
    match extract_adm(&b) {
        AdmExtract::Textures { textures, error } => {
            assert_eq!(textures.len(), 1);
            assert_eq!(error.unwrap().message(), "čtení textury 'čelo.png'");
        }
        other => panic!("{:?}", other),
    }
}

fn chunk(out: &mut Vec<u8>, kind: u32, data: &[u8]) {
    word(out, data.len() as u32);
    word(out, kind);
    out.extend(data);
}

fn glb_file(json: &str, bin: &[u8]) -> Vec<u8> {
    let mut b = Vec::new();
    word(&mut b, 0x46546C67);
    word(&mut b, 2);
    word(&mut b, 0);
    chunk(&mut b, 0x4E4F534A, json.as_bytes());
    chunk(&mut b, 0x004E4942, bin);
    b
}

#[test]
fn textures_of_foreign_models() {
    let json = r#"{
        "images": [
            {"name": "wood.old.tga", "mimeType": "image/jpeg", "bufferView": 1},
            {"bufferView": 0},
            {"name": "uri only"},
            {"bufferView": 7},
            {"bufferView": 2}
        ],
        "bufferViews": [
            {"byteLength": 2},
            {"byteOffset": 2, "byteLength": 3},
            {"byteOffset": 4, "byteLength": 9}
        ]
    }"#;
    match extract_glb(&glb_file(json, &[1, 2, 3, 4, 5])) {
        GlbExtract::Textures(textures) => {
            assert_eq!(textures.len(), 2);
            assert_eq!(textures[0].file_name, "wood.old.jpg");
            assert_eq!(textures[0].data, vec![3, 4, 5]);
            assert_eq!(textures[1].file_name, "image_1.png");
            assert_eq!(textures[1].data, vec![1, 2]);
        }
        other => panic!("{:?}", other),
    }
    assert!(matches!(extract_glb(&glb_file("{}", &[])), GlbExtract::NoImages));
    assert!(matches!(extract_glb(&glb_file(r#"{"images": 3}"#, &[])), GlbExtract::NoImages));
}

#[test]
fn foreign_models_say_what_is_wrong() {
    let refused = |b: Vec<u8>| match extract_glb(&b) {
        GlbExtract::Refused(e) => e.message(),
        other => panic!("{:?}", other),
    };
    assert_eq!(refused(vec![0; 11]), "soubor příliš krátký");
    assert_eq!(refused(vec![0; 12]), "není GLB soubor");
    let mut b = Vec::new();
    word(&mut b, 0x46546C67);
    b.extend([0u8; 8]);
    assert_eq!(refused(b), "chybí JSON chunk");
    let message = refused(glb_file("{", &[]));
    let expected = serde_json::from_slice::<serde_json::Value>(b"{").unwrap_err().to_string();
    assert_eq!(message, format!("JSON: {expected}"));
    assert_eq!(GlbError::NoJson.message(), "chybí JSON chunk");
}

#[test]
fn documents_are_read_into_trees() {
    let doc = parse_json(
        &br#"{"a": [1, -1, 2.5, "x", true, null], "b": {"c": 18446744073709551615}, "a2": "y"}"#
            .to_vec(),
    )
    .unwrap();
    let list = doc.get("a").unwrap().as_array().unwrap();
    assert_eq!(list.len(), 6);
    assert_eq!(list[0].as_u64(), Some(1));
    assert_eq!(list[1].as_u64(), None);
    assert_eq!(list[2].as_u64(), None);
    assert_eq!(list[3].as_str(), Some("x"));
    assert!(matches!(list[4], Json::Bool(true)));
    assert!(matches!(list[5], Json::Null));
    assert_eq!(doc.get("b").unwrap().number_of("c"), Some(u64::MAX));
    assert_eq!(doc.text_of("a2"), Some("y"));
    assert!(doc.get("z").is_none());
    assert!(list[0].get("a").is_none());
    assert!(parse_json(&b"[1".to_vec()).is_err());
}

#[test]
fn spans_outside_the_buffer_are_skipped() {
    let doc = parse_json(
        &br#"{"images": [{"bufferView": 0}], "bufferViews": [
            {"byteOffset": 18446744073709551615, "byteLength": 18446744073709551615}]}"#
            .to_vec(),
    )
    .unwrap();
    assert_eq!(textures_of_document(&doc, &vec![1, 2, 3]).unwrap().len(), 0);
}

fn ads_file() -> Vec<u8> {
    let mut b = b"ADSA".to_vec();
    word(&mut b, 1);
    word(&mut b, 1);
    text(&mut b, "walk");
    word(&mut b, 1.5f32.to_bits());
    word(&mut b, 1);
    text(&mut b, "hip");
    word(&mut b, 2);
    b.extend(vec![0u8; 80]);
    b.extend([1, 2, 3]);
    b
}

#[test]
fn animation_sets_are_diagnosed() {
    let bytes = ads_file();
    let diag = diagnose_anim_set(&bytes);
    if let AnimDiag::Read { version, .. } = &diag {
        assert_eq!(*version, 1);
    }
    let durations = match &diag {
        AnimDiag::Read { body: AnimDiagBody::Report(r), .. } => {
            assert_eq!(r.clips.len(), 1);
            assert_eq!(r.clips[0].name, "walk");
            assert_eq!(f32::from_bits(r.clips[0].duration.bits), 1.5);
            assert_eq!(r.remaining, 3);
            vec!["1.500".to_string()]
        }
        _ => Vec::new(),
    };
    let report = diagnose_anim_set_file(&diag, "a.ads_anim", bytes.len() as u64, "ADSA", &durations);
    assert!(report.contains("a.ads_anim"));
    assert!(matches!(diagnose_anim_set(&vec![1]), AnimDiag::NoMagic(_)));
}

fn dictionary(name: &str, clips: &[&str]) -> AnimDictionary {
    AnimDictionary {
        name: name.to_string(),
        clip_names: clips.iter().map(|s| s.to_string()).collect(),
    }
}

fn clip(name: &str, marks: &[(f32, &str)]) -> AnimClip {
    AnimClip {
        name: name.to_string(),
        notifies: marks.iter().map(|(t, n)| Notify { time: f(*t), name: n.to_string() }).collect(),
    }
}

#[test]
fn animation_sets_are_merged() {
    let sets = vec![
        AnimSet {
            clips: vec![clip("walk", &[(0.5, "step")]), clip("run", &[])],
            dictionaries: vec![dictionary("move", &["walk", "run"])],
        },
        AnimSet {
            clips: vec![clip("walk", &[(0.9, "step")]), clip("wave", &[])],
            dictionaries: vec![dictionary("move", &["walk", "jog"]), dictionary("social", &["wave"])],
        },
    ];
    assert_eq!(collect_clip_names(&sets), vec!["walk", "run", "wave"]);
    let merged = merge_dictionaries(&sets, true);
    assert_eq!(merged.len(), 2);
    assert_eq!(clips_of(&merged, "move").unwrap(), vec!["walk", "run", "jog"]);
    assert_eq!(clips_of(&merged, "none"), None);
    let marks = clip_marks(&sets, "walk");
    assert_eq!((marks.len(), marks[0].time), (1, f(0.5)));
    assert!(clip_marks(&sets, "run").is_empty());
    assert_eq!(normalize_anim_set_path("a/b.ads_anim"), "a/b.ads_anim");
    assert_eq!(normalize_anim_set_path("a/b"), "a/b.ads_anim");
}
