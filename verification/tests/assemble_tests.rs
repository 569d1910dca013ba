use std::io::Write;

use helixlauncher_core::artifact::{Artifact, ArtifactId};
use helixlauncher_core::assemble::{asset_index_path, asset_unpack_dir, plan_asset_downloads, Asset};
use helixlauncher_core::config::Config;
use helixlauncher_core::error::LaunchError;
use helixlauncher_core::hashing::HashVal;
use helixlauncher_core::merge::merge_components;
use helixlauncher_core::meta::{ComponentMeta, ConditionalClasspathEntry, DownloadEntry, MetaNative, Platform};
use helixlauncher_core::ziputil::{extract_native_entries, plan_jar_merge};

fn make_zip(entries: &[(&str, &[u8])]) -> Vec<u8> {
    let mut writer = zip::ZipWriter::new(std::io::Cursor::new(Vec::new()));
    let options = zip::write::FileOptions::default();
    for (name, data) in entries {
        writer.start_file(*name, options).unwrap();
        writer.write_all(data).unwrap();
    }
    writer.finish().unwrap().into_inner()
}

#[test]
fn jar_merge_earlier_jarmod_wins_collisions() {
    // Two jarmods both containing data/config.txt: the merged jar carries
    // the first one's copy, and any files unique to the second survive.
    let mod_a = make_zip(&[("data/config.txt", b"from A"), ("a_only.txt", b"a")]);
    let mod_b = make_zip(&[("data/config.txt", b"from B"), ("b_only.txt", b"b")]);
    let plan = plan_jar_merge(&vec![mod_a, mod_b]).unwrap();
    let picks: Vec<(usize, usize, &str)> =
        plan.iter().map(|(j, i, n)| (*j, *i, n.as_str())).collect();
    assert_eq!(
        picks,
        vec![
            (0, 0, "data/config.txt"),
            (0, 1, "a_only.txt"),
            (1, 1, "b_only.txt"),
        ]
    );
}

#[test]
fn jar_merge_single_archive_keeps_all() {
    let only = make_zip(&[("x.txt", b"x"), ("y.txt", b"y")]);
    let plan = plan_jar_merge(&vec![only]).unwrap();
    assert_eq!(plan.len(), 2);
    assert_eq!(plan[0].2, "x.txt");
    assert_eq!(plan[1].2, "y.txt");
}

#[test]
fn native_extraction_filters_and_extracts() {
    let archive = make_zip(&[
        ("META-INF/MANIFEST.MF", b"m"),
        ("liblwjgl.so", b"ELF"),
        ("docs/readme.txt", b"hello"),
    ]);
    let out = extract_native_entries(&archive, &vec!["META-INF/".to_owned()]).unwrap();
    let names: Vec<&str> = out.iter().map(|(n, _)| n.as_str()).collect();
    assert_eq!(names, vec!["liblwjgl.so", "docs/readme.txt"]);
    assert_eq!(out[0].1, b"ELF");
    assert_eq!(out[1].1, b"hello");
}

#[test]
fn native_extraction_rejects_unsafe_names() {
    let archive = make_zip(&[("ok.so", b"x"), ("../evil.so", b"y")]);
    match extract_native_entries(&archive, &vec![]) {
        Err(LaunchError::InvalidFilename { name }) => assert_eq!(name, "../evil.so"),
        other => panic!("expected InvalidFilename, got {:?}", other),
    }
}

#[test]
fn native_extraction_unreadable_bytes() {
    let garbage = b"this is not a zip file".to_vec();
    assert!(matches!(
        extract_native_entries(&garbage, &vec![]),
        Err(LaunchError::IoError { .. })
    ));
}

#[test]
fn runtime_jar_choice() {
    let mut with_mods = ComponentMeta {
        traits: vec![],
        natives: vec![],
        jarmods: vec![ArtifactId {
            group: "mods".to_owned(),
            artifact: "m".to_owned(),
            version: "1".to_owned(),
            classifier: None,
            extension: "jar".to_owned(),
        }],
        classpath: vec![],
        downloads: vec![],
        game_jar: Some(ArtifactId {
            group: "net.minecraft".to_owned(),
            artifact: "mc".to_owned(),
            version: "1.0".to_owned(),
            classifier: None,
            extension: "jar".to_owned(),
        }),
        assets: None,
        main_class: Some("M".to_owned()),
        game_arguments: vec![],
    };
    let merged = merge_components(&vec![with_mods], "x86_64", "linux");
    assert_eq!(
        merged.get_jar("/libs/mc.jar".to_owned(), "/game"),
        "/game/bin/minecraft.jar"
    );

    with_mods = ComponentMeta {
        traits: vec![],
        natives: vec![],
        jarmods: vec![],
        classpath: vec![],
        downloads: vec![],
        game_jar: Some(ArtifactId {
            group: "net.minecraft".to_owned(),
            artifact: "mc".to_owned(),
            version: "1.0".to_owned(),
            classifier: None,
            extension: "jar".to_owned(),
        }),
        assets: None,
        main_class: Some("M".to_owned()),
        game_arguments: vec![],
    };
    let merged2 = merge_components(&vec![with_mods], "x86_64", "linux");
    assert_eq!(merged2.get_jar("/libs/mc.jar".to_owned(), "/game"), "/libs/mc.jar");
}

#[test]
fn get_all_resolves_needed_artifacts() {
    let id_lib = ArtifactId {
        group: "org.lwjgl".to_owned(),
        artifact: "lwjgl".to_owned(),
        version: "3.3.1".to_owned(),
        classifier: None,
        extension: "jar".to_owned(),
    };
    let id_mc = ArtifactId {
        group: "net.minecraft".to_owned(),
        artifact: "mc".to_owned(),
        version: "1.20".to_owned(),
        classifier: None,
        extension: "jar".to_owned(),
    };
    let meta = ComponentMeta {
        traits: vec![],
        natives: vec![MetaNative {
            name: id_lib.clone(),
            platform: Platform { arch: None, os: vec![] },
            exclusions: vec![],
        }],
        jarmods: vec![],
        classpath: vec![ConditionalClasspathEntry::All(id_lib.clone())],
        downloads: vec![
            DownloadEntry {
                name: id_lib.clone(),
                url: "https://cdn.example/lwjgl.jar".to_owned(),
                size: 5,
                hash: HashVal::Sha1("aa".to_owned()),
            },
            DownloadEntry {
                name: id_mc.clone(),
                url: "https://cdn.example/mc.jar".to_owned(),
                size: 7,
                hash: HashVal::Sha1("bb".to_owned()),
            },
        ],
        game_jar: Some(id_mc),
        assets: None,
        main_class: Some("M".to_owned()),
        game_arguments: vec![],
    };
    let merged = merge_components(&vec![meta], "x86_64", "linux");
    let config = Config::default_config("/data".to_owned());
    let resolved = merged.get_all(&config);
    // The classpath entry, the game jar, and the native all refer to only
    // two distinct artifacts (the native reuses the classpath one).
    assert_eq!(resolved.len(), 2);
    assert_eq!(resolved[0].0.artifact, "lwjgl");
    let Artifact::Download { url, .. } = &resolved[0].1;
    assert_eq!(url, "https://cdn.example/lwjgl.jar");
    assert_eq!(resolved[0].2, "/data/libraries/org/lwjgl/lwjgl/3.3.1/lwjgl-3.3.1.jar");
    assert_eq!(resolved[1].0.artifact, "mc");
    assert_eq!(resolved[1].2, "/data/libraries/net/minecraft/mc/1.20/mc-1.20.jar");
}

#[test]
fn asset_plan_pool_and_unpack() {
    let objects = vec![
        (
            "icons/icon_16x16.png".to_owned(),
            Asset { hash: "31f2af23efe01d0c89e5e7d2aa04d4d0d9b50a58".to_owned(), size: 7 },
        ),
    ];
    let plan = plan_asset_downloads(&objects, "/data/assets", &Some("/game/resources".to_owned()))
        .unwrap();
    assert_eq!(plan.len(), 1);
    assert_eq!(
        plan[0].pool_path,
        "/data/assets/objects/31/31f2af23efe01d0c89e5e7d2aa04d4d0d9b50a58"
    );
    assert_eq!(
        plan[0].url,
        "https://resources.download.minecraft.net/31/31f2af23efe01d0c89e5e7d2aa04d4d0d9b50a58"
    );
    assert_eq!(plan[0].size, 7);
    assert_eq!(plan[0].unpack_to.as_deref(), Some("/game/resources/icons/icon_16x16.png"));

    // Pool-only when no unpack target is set: no name checking, no copies.
    let pool_only = plan_asset_downloads(&objects, "/data/assets", &None).unwrap();
    assert_eq!(pool_only[0].unpack_to, None);
}

#[test]
fn asset_plan_rejects_unsafe_logical_names() {
    let objects = vec![
        (
            "../escape".to_owned(),
            Asset { hash: "31f2af23efe01d0c89e5e7d2aa04d4d0d9b50a58".to_owned(), size: 1 },
        ),
    ];
    match plan_asset_downloads(&objects, "/a", &Some("/up".to_owned())) {
        Err(LaunchError::InvalidFilename { name }) => assert_eq!(name, "../escape"),
        other => panic!("expected InvalidFilename, got {:?}", other),
    }
}

#[test]
fn asset_locations() {
    assert_eq!(asset_index_path("/data/assets", "5"), "/data/assets/indexes/5.json");
    assert_eq!(
        asset_unpack_dir("/game", "5", true, false),
        Some("/game/resources".to_owned())
    );
    assert_eq!(
        asset_unpack_dir("/game", "5", false, true),
        Some("/game/assets/virtual/5".to_owned())
    );
    assert_eq!(asset_unpack_dir("/game", "5", false, false), None);
}
