use helixlauncher_core::artifact::ArtifactId;
use helixlauncher_core::hashing::HashVal;
use helixlauncher_core::merge::merge_components;
use helixlauncher_core::meta::{
    AssetsMeta, ComponentMeta, ConditionalClasspathEntry, DownloadEntry, MetaNative,
    MinecraftArgument, Platform,
};

fn aid(group: &str, artifact: &str, version: &str) -> ArtifactId {
    ArtifactId {
        group: group.to_owned(),
        artifact: artifact.to_owned(),
        version: version.to_owned(),
        classifier: None,
        extension: "jar".to_owned(),
    }
}

fn empty_meta() -> ComponentMeta {
    ComponentMeta {
        traits: vec![],
        natives: vec![],
        jarmods: vec![],
        classpath: vec![],
        downloads: vec![],
        game_jar: None,
        assets: None,
        main_class: None,
        game_arguments: vec![],
    }
}

fn base_meta() -> ComponentMeta {
    let mut m = empty_meta();
    m.game_jar = Some(aid("net.minecraft", "minecraft", "1.20"));
    m.main_class = Some("net.minecraft.Main".to_owned());
    m
}

#[test]
fn main_class_first_wins_both_orders() {
    let mut a = base_meta();
    a.main_class = Some("AMain".to_owned());
    let mut b = base_meta();
    b.main_class = Some("BMain".to_owned());

    let ab = merge_components(&vec![a, b], "x86_64", "linux");
    assert_eq!(ab.main_class, "AMain");

    let mut a2 = base_meta();
    a2.main_class = Some("AMain".to_owned());
    let mut b2 = base_meta();
    b2.main_class = Some("BMain".to_owned());
    let ba = merge_components(&vec![b2, a2], "x86_64", "linux");
    assert_eq!(ba.main_class, "BMain");
}

#[test]
fn classpath_dedup_first_version_wins() {
    let mut a = base_meta();
    a.classpath = vec![ConditionalClasspathEntry::All(aid("org.lwjgl", "lwjgl", "3.3.1"))];
    let mut b = base_meta();
    b.classpath = vec![ConditionalClasspathEntry::All(aid("org.lwjgl", "lwjgl", "3.2.0"))];

    let merged = merge_components(&vec![a, b], "x86_64", "linux");
    assert_eq!(merged.classpath.len(), 1);
    assert_eq!(merged.classpath[0].version, "3.3.1");

    let mut a2 = base_meta();
    a2.classpath = vec![ConditionalClasspathEntry::All(aid("org.lwjgl", "lwjgl", "3.3.1"))];
    let mut b2 = base_meta();
    b2.classpath = vec![ConditionalClasspathEntry::All(aid("org.lwjgl", "lwjgl", "3.2.0"))];
    let merged2 = merge_components(&vec![b2, a2], "x86_64", "linux");
    assert_eq!(merged2.classpath.len(), 1);
    assert_eq!(merged2.classpath[0].version, "3.2.0");
}

#[test]
fn loader_before_vanilla_end_to_end() {
    // instance components [{"org.example.loader","1.0"}, {"net.minecraft","1.20"}]
    let mut loader = empty_meta();
    loader.main_class = Some("LoaderMain".to_owned());
    let mut vanilla = empty_meta();
    vanilla.game_jar = Some(aid("net.minecraft", "mc", "1.20"));
    vanilla.main_class = Some("net.minecraft.Main".to_owned());

    let merged = merge_components(&vec![loader, vanilla], "x86_64", "linux");
    assert_eq!(merged.main_class, "LoaderMain");
    assert_eq!(merged.game_jar.artifact, "mc");
    assert_eq!(merged.game_jar.version, "1.20");
}

#[test]
fn traits_union_without_duplicates() {
    let mut a = base_meta();
    a.traits = vec!["SupportsQuickPlayWorld".to_owned(), "X".to_owned()];
    let mut b = base_meta();
    b.traits = vec!["X".to_owned(), "Y".to_owned()];
    let merged = merge_components(&vec![a, b], "x86_64", "linux");
    assert_eq!(merged.traits, vec!["SupportsQuickPlayWorld", "X", "Y"]);
    assert!(merged.has_trait("SupportsQuickPlayWorld"));
    assert!(!merged.has_trait("Z"));
}

#[test]
fn natives_platform_filtered() {
    let mut a = base_meta();
    a.natives = vec![
        MetaNative {
            name: aid("org.lwjgl", "lwjgl-glfw", "3.3.1"),
            platform: Platform { arch: None, os: vec!["linux".to_owned()] },
            exclusions: vec!["META-INF/".to_owned()],
        },
        MetaNative {
            name: aid("org.lwjgl", "lwjgl-glfw", "3.3.1"),
            platform: Platform { arch: None, os: vec!["windows".to_owned()] },
            exclusions: vec![],
        },
        MetaNative {
            name: aid("org.lwjgl", "lwjgl-stb", "3.3.1"),
            platform: Platform { arch: Some("aarch64".to_owned()), os: vec![] },
            exclusions: vec![],
        },
    ];
    let merged = merge_components(&vec![a], "x86_64", "linux");
    assert_eq!(merged.natives.len(), 1);
    assert_eq!(merged.natives[0].name.artifact, "lwjgl-glfw");
    assert_eq!(merged.natives[0].exclusions, vec!["META-INF/"]);
}

#[test]
fn classpath_platform_specific_entry_skipped() {
    let mut a = base_meta();
    a.classpath = vec![
        ConditionalClasspathEntry::PlatformSpecific {
            name: aid("g", "only-mac", "1"),
            platform: Platform { arch: None, os: vec!["osx".to_owned()] },
        },
        ConditionalClasspathEntry::All(aid("g", "all", "1")),
    ];
    let merged = merge_components(&vec![a], "x86_64", "linux");
    assert_eq!(merged.classpath.len(), 1);
    assert_eq!(merged.classpath[0].artifact, "all");
}

#[test]
fn artifacts_first_registration_wins() {
    let mut a = base_meta();
    a.downloads = vec![DownloadEntry {
        name: aid("g", "lib", "1"),
        url: "https://a.example/lib.jar".to_owned(),
        size: 10,
        hash: HashVal::Sha1("aa".to_owned()),
    }];
    let mut b = base_meta();
    b.downloads = vec![DownloadEntry {
        name: aid("g", "lib", "1"),
        url: "https://b.example/lib.jar".to_owned(),
        size: 20,
        hash: HashVal::Sha1("bb".to_owned()),
    }];
    let merged = merge_components(&vec![a, b], "x86_64", "linux");
    assert_eq!(merged.artifacts.len(), 1);
    let helixlauncher_core::artifact::Artifact::Download { url, size, .. } = &merged.artifacts[0].1;
    assert_eq!(url, "https://a.example/lib.jar");
    assert_eq!(*size, 10);
}

#[test]
fn arguments_concatenated_in_order() {
    let mut a = base_meta();
    a.game_arguments = vec![MinecraftArgument::Always("--one".to_owned())];
    let mut b = base_meta();
    b.game_arguments = vec![MinecraftArgument::Always("--two".to_owned())];
    let merged = merge_components(&vec![a, b], "x86_64", "linux");
    assert_eq!(merged.arguments.len(), 2);
    assert!(matches!(&merged.arguments[0], MinecraftArgument::Always(s) if s == "--one"));
    assert!(matches!(&merged.arguments[1], MinecraftArgument::Always(s) if s == "--two"));
}

#[test]
fn jarmods_ignored_after_game_jar_fixed() {
    let mut a = empty_meta();
    a.jarmods = vec![aid("mods", "moda", "1")];
    a.game_jar = Some(aid("net.minecraft", "mc", "1.0"));
    a.main_class = Some("M".to_owned());
    let mut b = empty_meta();
    b.jarmods = vec![aid("mods", "modb", "1")];
    let merged = merge_components(&vec![a, b], "x86_64", "linux");
    // a defines the game jar, so b's jarmods target a superseded jar and
    // are dropped; a's own jarmods still count.
    assert_eq!(merged.jarmods.len(), 1);
    assert_eq!(merged.jarmods[0].artifact, "moda");
}

#[test]
fn assets_first_definition_wins() {
    let mut a = base_meta();
    a.assets = Some(AssetsMeta {
        id: "5".to_owned(),
        url: "https://meta.example/5.json".to_owned(),
        size: 100,
        sha1: "aa".to_owned(),
    });
    let mut b = base_meta();
    b.assets = Some(AssetsMeta {
        id: "6".to_owned(),
        url: "https://meta.example/6.json".to_owned(),
        size: 200,
        sha1: "bb".to_owned(),
    });
    let merged = merge_components(&vec![a, b], "x86_64", "linux");
    assert_eq!(merged.assets.as_ref().unwrap().id, "5");
}
