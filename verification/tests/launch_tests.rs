use helixlauncher_core::account::Account;
use helixlauncher_core::artifact::ArtifactId;
use helixlauncher_core::config::Config;
use helixlauncher_core::error::LaunchError;
use helixlauncher_core::instance::{Instance, InstanceConfig, InstanceLaunchConfig, RamAllocation};
use helixlauncher_core::instance::Component;
use helixlauncher_core::merge::merge_components;
use helixlauncher_core::meta::{ComponentMeta, ConditionFeature, MinecraftArgument};
use helixlauncher_core::prepared::{
    build_jvm_args, filter_arguments, generate_classpath, prepare_launch, substitute,
    validate_launch_options, LaunchOptions,
};

fn aid(group: &str, artifact: &str, version: &str) -> ArtifactId {
    ArtifactId {
        group: group.to_owned(),
        artifact: artifact.to_owned(),
        version: version.to_owned(),
        classifier: None,
        extension: "jar".to_owned(),
    }
}

fn base_meta() -> ComponentMeta {
    ComponentMeta {
        traits: vec![],
        natives: vec![],
        jarmods: vec![],
        classpath: vec![],
        downloads: vec![],
        game_jar: Some(aid("net.minecraft", "minecraft", "1.20")),
        assets: None,
        main_class: Some("net.minecraft.Main".to_owned()),
        game_arguments: vec![],
    }
}

fn demo_account() -> Account {
    Account {
        uuid: "11111111-2222-3333-4444-555555555555".to_owned(),
        username: "Steve".to_owned(),
        refresh_token: "SECRET-REDACTED".to_owned(),
        token: "SECRET-REDACTED".to_owned(),
    }
}

#[test]
fn conditional_demo_argument_depends_on_account() {
    let args = vec![
        MinecraftArgument::Conditional { value: "--demo".to_owned(), feature: ConditionFeature::Demo },
        MinecraftArgument::Always("--version".to_owned()),
    ];
    // No account: the demo feature holds, the argument appears.
    let no_account = filter_arguments(&args, false, false);
    assert_eq!(no_account, vec!["--demo", "--version"]);
    // An account: the demo argument is absent.
    let with_account = filter_arguments(&args, true, false);
    assert_eq!(with_account, vec!["--version"]);
}

#[test]
fn conditional_quick_play_argument_depends_on_world() {
    let args = vec![MinecraftArgument::Conditional {
        value: "--quickPlayMultiplayer".to_owned(),
        feature: ConditionFeature::QuickPlayWorld,
    }];
    assert_eq!(filter_arguments(&args, false, true), vec!["--quickPlayMultiplayer"]);
    assert_eq!(filter_arguments(&args, false, false), Vec::<String>::new());
}

#[test]
fn unrecognized_feature_is_dropped_silently() {
    let args = vec![MinecraftArgument::Conditional {
        value: "--mystery".to_owned(),
        feature: ConditionFeature::Other,
    }];
    assert_eq!(filter_arguments(&args, false, true), Vec::<String>::new());
    assert_eq!(filter_arguments(&args, true, false), Vec::<String>::new());
}

#[test]
fn world_without_trait_fails_before_any_download() {
    let merged = merge_components(&vec![base_meta()], "x86_64", "linux");
    let options = LaunchOptions::default().world(Some("base".to_owned()));
    let r = validate_launch_options(&merged, &options);
    match r {
        Err(LaunchError::UnsupportedFeature { name }) => {
            assert_eq!(name, "Launching into world");
        }
        other => panic!("expected UnsupportedFeature, got {:?}", other),
    }

    // With the trait present the same request validates.
    let mut m = base_meta();
    m.traits = vec!["SupportsQuickPlayWorld".to_owned()];
    let merged2 = merge_components(&vec![m], "x86_64", "linux");
    let options2 = LaunchOptions::default().world(Some("base".to_owned()));
    assert!(validate_launch_options(&merged2, &options2).is_ok());
}

#[test]
fn account_or_default_offline_identity() {
    let options = LaunchOptions::default();
    let (name, uuid, token) = options.account_or_default();
    assert_eq!(name, "Player");
    assert_eq!(uuid, "00000000-0000-0000-0000-000000000000");
    assert_eq!(token, "");

    let options = LaunchOptions::default().account(Some(demo_account()));
    assert!(!options.has_world());
    let (name, uuid, _) = options.account_or_default();
    assert_eq!(name, "Steve");
    assert_eq!(uuid, "11111111-2222-3333-4444-555555555555");
}

#[test]
fn substitution_replaces_known_and_rejects_unknown() {
    let props = vec![
        ("user.name".to_owned(), "Steve".to_owned()),
        ("instance.game_dir".to_owned(), "/g".to_owned()),
    ];
    assert_eq!(substitute("--username=${user.name}", &props).unwrap(), "--username=Steve");
    assert_eq!(substitute("${user.name}${user.name}", &props).unwrap(), "SteveSteve");
    // Text that only looks like a placeholder passes through.
    assert_eq!(substitute("$5 and ${} and ${un-closed", &props).unwrap(), "$5 and ${} and ${un-closed");
    match substitute("--dir=${instance.other_dir}", &props) {
        Err(LaunchError::UnknownVariable { name }) => assert_eq!(name, "instance.other_dir"),
        other => panic!("expected UnknownVariable, got {:?}", other),
    }
}

#[test]
fn jvm_args_with_allocation_and_overrides() {
    let launch = InstanceLaunchConfig {
        args: None,
        jvm_args: Some(vec!["-ea".to_owned()]),
        prelaunch_command: None,
        postlaunch_command: None,
        allocation: Some(RamAllocation { min: 512, max: 4096 }),
        javapath: None,
    };
    let args = build_jvm_args(&launch, "/inst/natives");
    assert_eq!(
        args,
        vec![
            "-Duser.language=en",
            "-Djava.library.path=/inst/natives",
            "-Xms512M",
            "-Xmx4096M",
            "-ea",
        ]
    );
}

#[test]
fn classpath_joined_with_separator() {
    let cp = vec!["/a.jar".to_owned(), "/b.jar".to_owned(), "/c.jar".to_owned()];
    assert_eq!(generate_classpath(&cp, ':'), "/a.jar:/b.jar:/c.jar");
    assert_eq!(generate_classpath(&vec!["/solo.jar".to_owned()], ':'), "/solo.jar");
    assert_eq!(generate_classpath(&Vec::new(), ':'), "");
}

#[test]
fn prepare_launch_composes_everything() {
    let mut m = base_meta();
    m.game_arguments = vec![
        MinecraftArgument::Always("--username".to_owned()),
        MinecraftArgument::Always("${user.name}".to_owned()),
        MinecraftArgument::Conditional { value: "--demo".to_owned(), feature: ConditionFeature::Demo },
    ];
    let merged = merge_components(&vec![m], "x86_64", "linux");
    let config = Config::default_config("/data".to_owned());
    let instance = Instance {
        path: "/data/instances/test".to_owned(),
        config: InstanceConfig {
            name: "test".to_owned(),
            components: vec![Component { id: "net.minecraft".to_owned(), version: "1.20".to_owned() }],
            launch: InstanceLaunchConfig::default(),
        },
    };
    let options = LaunchOptions::default();
    let prepared = prepare_launch(
        &config,
        &instance,
        &merged,
        &options,
        "/data/libraries/mc.jar".to_owned(),
        &vec!["/data/libraries/lib.jar".to_owned()],
        &None,
    )
    .unwrap();
    assert_eq!(prepared.working_directory, "/data/instances/test/.minecraft");
    assert_eq!(prepared.java_path, "java");
    assert_eq!(prepared.main_class, "net.minecraft.Main");
    assert_eq!(prepared.classpath, vec!["/data/libraries/mc.jar", "/data/libraries/lib.jar"]);
    assert_eq!(prepared.args, vec!["--username", "Player", "--demo"]);
    assert_eq!(
        prepared.jvm_args,
        vec!["-Duser.language=en", "-Djava.library.path=/data/instances/test/natives"]
    );
}

#[test]
fn prepare_launch_unknown_placeholder_is_an_error() {
    let mut m = base_meta();
    m.game_arguments = vec![MinecraftArgument::Always("${no.such.prop}".to_owned())];
    let merged = merge_components(&vec![m], "x86_64", "linux");
    let config = Config::default_config("/data".to_owned());
    let instance = Instance {
        path: "/i".to_owned(),
        config: InstanceConfig {
            name: "i".to_owned(),
            components: vec![],
            launch: InstanceLaunchConfig::default(),
        },
    };
    let r = prepare_launch(
        &config,
        &instance,
        &merged,
        &LaunchOptions::default(),
        "/mc.jar".to_owned(),
        &vec![],
        &None,
    );
    match r {
        Err(LaunchError::UnknownVariable { name }) => assert_eq!(name, "no.such.prop"),
        other => panic!("expected UnknownVariable, got {:?}", other),
    }
}
