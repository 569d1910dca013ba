use helixlauncher_core::account::{Account, AccountConfig};
use helixlauncher_core::addon::{AddonKind, AddonLocation, ApiKind};
use helixlauncher_core::configjson::{read_config, write_config};
use helixlauncher_core::error::ComponentMetaRetrievalError;
use helixlauncher_core::instance::{
    new_instance_config, Component, Instance, InstanceConfig, InstanceLaunchConfig, Modloader,
    RamAllocation,
};
use helixlauncher_core::meta::{
    meta_cache_rel_path, meta_document_url, select_index_source, select_meta_source,
    version_exists, FetchOutcome, IndexEntry,
};

fn sample_config() -> InstanceConfig {
    InstanceConfig {
        name: "My \"best\" instance \\ test".to_owned(),
        components: vec![
            Component { id: "org.quiltmc.quilt-loader".to_owned(), version: "0.20.0".to_owned() },
            Component { id: "net.minecraft".to_owned(), version: "1.20".to_owned() },
        ],
        launch: InstanceLaunchConfig {
            args: Some(vec!["--demo".to_owned()]),
            jvm_args: Some(vec!["-ea".to_owned(), "-Xss2M".to_owned()]),
            prelaunch_command: None,
            postlaunch_command: Some("echo done".to_owned()),
            allocation: Some(RamAllocation { min: 512, max: 4096 }),
            javapath: None,
        },
    }
}

#[test]
fn config_round_trip_reproduces_everything() {
    let config = sample_config();
    let text = write_config(&config);
    let back = read_config(text.as_str()).unwrap();
    assert_eq!(back.name, config.name);
    assert_eq!(back.components.len(), 2);
    assert_eq!(back.components[0].id, "org.quiltmc.quilt-loader");
    assert_eq!(back.components[0].version, "0.20.0");
    assert_eq!(back.components[1].id, "net.minecraft");
    assert_eq!(back.components[1].version, "1.20");
    assert_eq!(back.launch.args, Some(vec!["--demo".to_owned()]));
    assert_eq!(back.launch.jvm_args, Some(vec!["-ea".to_owned(), "-Xss2M".to_owned()]));
    assert_eq!(back.launch.prelaunch_command, None);
    assert_eq!(back.launch.postlaunch_command, Some("echo done".to_owned()));
    let alloc = back.launch.allocation.unwrap();
    assert_eq!((alloc.min, alloc.max), (512, 4096));
    assert_eq!(back.launch.javapath, None);
}

#[test]
fn config_round_trip_of_empty_overrides() {
    let config = InstanceConfig {
        name: "plain".to_owned(),
        components: vec![],
        launch: InstanceLaunchConfig::default(),
    };
    let text = write_config(&config);
    assert_eq!(
        text,
        "{\"name\":\"plain\",\"components\":[],\"launch\":{\"args\":null,\"jvm_args\":null,\
         \"prelaunch_command\":null,\"postlaunch_command\":null,\"allocation\":null,\
         \"javapath\":null}}"
    );
    let back = read_config(text.as_str()).unwrap();
    assert_eq!(back.name, "plain");
    assert!(back.components.is_empty());
    assert_eq!(back.launch.args, None);
    assert_eq!(back.launch.allocation.map(|a| (a.min, a.max)), None);
}

#[test]
fn config_round_trip_allocation_bounds() {
    let config = InstanceConfig {
        name: "big".to_owned(),
        components: vec![],
        launch: InstanceLaunchConfig {
            args: None,
            jvm_args: None,
            prelaunch_command: None,
            postlaunch_command: None,
            allocation: Some(RamAllocation { min: 0, max: u32::MAX }),
            javapath: Some("/usr/bin/java".to_owned()),
        },
    };
    let back = read_config(write_config(&config).as_str()).unwrap();
    let alloc = back.launch.allocation.unwrap();
    assert_eq!((alloc.min, alloc.max), (0, u32::MAX));
    assert_eq!(back.launch.javapath, Some("/usr/bin/java".to_owned()));
}

#[test]
fn config_round_trip_with_control_characters() {
    // Control characters in strings are escaped as \u00XX on the way out
    // and decoded on the way back.
    let config = InstanceConfig {
        name: "tab\tbell\u{7}end".to_owned(),
        components: vec![],
        launch: InstanceLaunchConfig::default(),
    };
    let text = write_config(&config);
    assert!(text.contains("\\u0009"));
    assert!(text.contains("\\u0007"));
    let back = read_config(text.as_str()).unwrap();
    assert_eq!(back.name, "tab\tbell\u{7}end");
}

#[test]
fn config_reader_accepts_whitespace_and_standard_escapes() {
    // A pretty-printed document with standard JSON escapes reads back
    // exactly; only the member order is fixed.
    let text = "{\n  \"name\": \"a\\nb\\u0041 c\\/d\",\n  \"components\": [\n    {\"id\": \"net.minecraft\", \"version\": \"1.20\"}\n  ],\n  \"launch\": {\n    \"args\": null,\n    \"jvm_args\": null,\n    \"prelaunch_command\": null,\n    \"postlaunch_command\": null,\n    \"allocation\": {\"min\": 512, \"max\": 1024},\n    \"javapath\": null\n  }\n}";
    let back = read_config(text).unwrap();
    assert_eq!(back.name, "a\nbA c/d");
    assert_eq!(back.components.len(), 1);
    assert_eq!(back.components[0].id, "net.minecraft");
    assert_eq!(back.components[0].version, "1.20");
    let alloc = back.launch.allocation.unwrap();
    assert_eq!((alloc.min, alloc.max), (512, 1024));

    // Whitespace inside strings is content, not noise.
    let spaced = InstanceConfig {
        name: "two  spaces".to_owned(),
        components: vec![],
        launch: InstanceLaunchConfig::default(),
    };
    let back2 = read_config(write_config(&spaced).as_str()).unwrap();
    assert_eq!(back2.name, "two  spaces");
}

#[test]
fn config_reader_rejects_trailing_garbage() {
    let config = InstanceConfig {
        name: "x".to_owned(),
        components: vec![],
        launch: InstanceLaunchConfig::default(),
    };
    let mut text = write_config(&config);
    text.push('x');
    assert!(read_config(text.as_str()).is_none());
    assert!(read_config("not json").is_none());
}

#[test]
fn meta_policy_network_first() {
    // Success: the fresh bytes are used and must be persisted.
    let r = select_meta_source("net.minecraft", "1.20", FetchOutcome::Success(b"fresh".to_vec()), None);
    assert_eq!(r.unwrap(), (b"fresh".to_vec(), true));

    // Network failure with a cache: the cache is used silently.
    let r = select_meta_source(
        "net.minecraft",
        "1.20",
        FetchOutcome::Transport { message: "timed out".to_owned() },
        Some(b"cached".to_vec()),
    );
    assert_eq!(r.unwrap(), (b"cached".to_vec(), false));

    // A not-found status with no cache: the targeted error.
    let r = select_meta_source("net.minecraft", "9.99", FetchOutcome::NotFound, None);
    match r {
        Err(ComponentMetaRetrievalError::VersionNotFound { id, version }) => {
            assert_eq!(id, "net.minecraft");
            assert_eq!(version, "9.99");
        }
        other => panic!("expected VersionNotFound, got {:?}", other),
    }

    // Any other failure with no cache is surfaced as it is.
    let r = select_meta_source("a", "1", FetchOutcome::HttpError { status: 503 }, None);
    match r {
        Err(ComponentMetaRetrievalError::IoError { message }) => {
            assert_eq!(message, "http status 503");
        }
        other => panic!("expected IoError, got {:?}", other),
    }
}

#[test]
fn index_policy_not_found_names_component() {
    let r = select_index_source("com.example", FetchOutcome::NotFound, None);
    match r {
        Err(ComponentMetaRetrievalError::IndexNotFound { id }) => assert_eq!(id, "com.example"),
        other => panic!("expected IndexNotFound, got {:?}", other),
    }
    let r = select_index_source("a", FetchOutcome::Success(b"[]".to_vec()), None);
    assert_eq!(r.unwrap(), (b"[]".to_vec(), true));
}

#[test]
fn version_lookup_in_index() {
    let index = vec![
        IndexEntry { version: "1.16.5".to_owned() },
        IndexEntry { version: "23w18a".to_owned() },
    ];
    assert!(version_exists(&index, "23w18a"));
    assert!(!version_exists(&index, "1.20"));
}

#[test]
fn meta_locations() {
    assert_eq!(
        meta_document_url("https://meta.example.dev/", "net.minecraft", "1.20"),
        "https://meta.example.dev/net.minecraft/1.20.json"
    );
    assert_eq!(meta_cache_rel_path("net.minecraft", "1.20"), "meta/net.minecraft/1.20.json");
}

#[test]
fn instance_paths_and_versions() {
    let instance = Instance {
        path: "/data/instances/main".to_owned(),
        config: InstanceConfig {
            name: "main".to_owned(),
            components: vec![
                Component { id: "org.quiltmc.quilt-loader".to_owned(), version: "0.20".to_owned() },
                Component { id: "net.minecraft".to_owned(), version: "1.20".to_owned() },
                Component { id: "net.minecraft".to_owned(), version: "9.99".to_owned() },
            ],
            launch: InstanceLaunchConfig::default(),
        },
    };
    assert_eq!(instance.get_game_dir(), "/data/instances/main/.minecraft");
    // The first matching component wins.
    assert_eq!(instance.get_component_version("net.minecraft"), Some("1.20".to_owned()));
    assert_eq!(instance.get_component_version("missing"), None);
}

#[test]
fn new_instance_component_lists() {
    let vanilla = new_instance_config(
        "v".to_owned(),
        "1.20".to_owned(),
        InstanceLaunchConfig::default(),
        Modloader::Vanilla,
        None,
    );
    assert_eq!(vanilla.components.len(), 1);
    assert_eq!(vanilla.components[0].id, "net.minecraft");
    assert_eq!(vanilla.components[0].version, "1.20");

    let quilt = new_instance_config(
        "q".to_owned(),
        "1.20".to_owned(),
        InstanceLaunchConfig::default(),
        Modloader::Quilt,
        Some("0.20.0".to_owned()),
    );
    assert_eq!(quilt.components.len(), 2);
    assert_eq!(quilt.components[0].id, "org.quiltmc.quilt-loader");
    assert_eq!(quilt.components[0].version, "0.20.0");
    assert_eq!(quilt.components[1].id, "net.minecraft");

    let fabric = new_instance_config(
        "f".to_owned(),
        "1.20".to_owned(),
        InstanceLaunchConfig::default(),
        Modloader::Fabric,
        Some("0.15.0".to_owned()),
    );
    assert_eq!(fabric.components[0].id, "net.fabricmc.fabric-loader");

    let forge = new_instance_config(
        "g".to_owned(),
        "1.20".to_owned(),
        InstanceLaunchConfig::default(),
        Modloader::Forge,
        Some("47.0".to_owned()),
    );
    assert_eq!(forge.components[0].id, "net.minecraftforge.forge");
}

fn account(uuid: &str, name: &str) -> Account {
    Account {
        uuid: uuid.to_owned(),
        username: name.to_owned(),
        refresh_token: String::new(),
        token: String::new(),
    }
}

#[test]
fn selected_account_rules() {
    // A default UUID picks the matching account.
    let cfg = AccountConfig {
        accounts: vec![account("u1", "A"), account("u2", "B")],
        default: Some("u2".to_owned()),
        path: "accounts.helix.json".to_owned(),
    };
    assert_eq!(cfg.selected().unwrap().username, "B");

    // No default: a single stored account is selected.
    let single = AccountConfig {
        accounts: vec![account("u1", "A")],
        default: None,
        path: String::new(),
    };
    assert_eq!(single.selected().unwrap().username, "A");

    // No default among several: nothing is selected.
    let several = AccountConfig {
        accounts: vec![account("u1", "A"), account("u2", "B")],
        default: None,
        path: String::new(),
    };
    assert!(several.selected().is_none());

    // A default that matches nothing selects nothing.
    let missing = AccountConfig {
        accounts: vec![account("u1", "A")],
        default: Some("zz".to_owned()),
        path: String::new(),
    };
    assert!(missing.selected().is_none());
}

#[test]
fn addon_folders_and_locations() {
    assert_eq!(AddonKind::Mod.get_folder(), "mods");
    assert_eq!(AddonKind::CoreMod.get_folder(), "coremods");
    assert_eq!(AddonKind::Resource.get_folder(), "resourcepacks");
    assert_eq!(AddonKind::Texture.get_folder(), "texturepacks");
    assert_eq!(AddonKind::Shader.get_folder(), "shaderpacks");

    let c = AddonLocation::curseforge("123".to_owned());
    assert_eq!(c.api, ApiKind::Curseforge);
    assert_eq!(c.version_id, "123");
    let m = AddonLocation::modrinth("abc".to_owned());
    assert_eq!(m.api, ApiKind::Modrinth);
    assert_eq!(m.version_id, "abc");
}
