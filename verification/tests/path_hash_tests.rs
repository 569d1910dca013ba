use helixlauncher_core::artifact::{Artifact, ArtifactId};
use helixlauncher_core::config::Config;
use helixlauncher_core::error::LaunchError;
use helixlauncher_core::hashing::{check_file, check_hash, verify_download, HashVal};
use helixlauncher_core::pathsafe::check_path;

#[test]
fn path_safety_rejects_dangerous_names() {
    assert!(!check_path(""));
    assert!(!check_path(".."));
    assert!(!check_path("../evil.so"));
    assert!(!check_path("a/../b"));
    assert!(!check_path("/etc/passwd"));
    assert!(!check_path("a:b"));
    assert!(!check_path("price$"));
    assert!(!check_path("a\u{0001}b"));
    assert!(!check_path("a\u{0000}"));
    assert!(!check_path("dir\\file"));
    assert!(!check_path("con"));
    assert!(!check_path("CON"));
    assert!(!check_path("com1.txt"));
    assert!(!check_path("sub/LPT9.dat"));
    assert!(!check_path("aux.tar.gz"));
    assert!(!check_path("."));
    assert!(!check_path("a/./b"));
}

#[test]
fn path_safety_accepts_ordinary_names() {
    assert!(check_path("org/lwjgl/natives/libfoo.so"));
    assert!(check_path("data/config.txt"));
    assert!(check_path("icons/icon_16x16.png"));
    assert!(check_path("conny.txt"));
    assert!(check_path("command.txt"));
    assert!(check_path("lpt.txt"));
    assert!(check_path("minecraft/textures/block/stone.png"));
    // Collapsed and trailing separators are skipped, as normalization
    // would; they do not make a name dangerous.
    assert!(check_path("a//b"));
    assert!(check_path("dir/"));
}

#[test]
fn sha1_known_vector() {
    let data = b"abc".to_vec();
    let expected = HashVal::Sha1("a9993e364706816aba3e25717850c26c9cd0d89d".to_owned());
    let (ok, actual) = check_hash(&data, &expected);
    assert!(ok);
    assert_eq!(actual, "a9993e364706816aba3e25717850c26c9cd0d89d");
}

#[test]
fn sha256_known_vector() {
    let data = b"abc".to_vec();
    let expected = HashVal::Sha256(
        "ba7816bf8f01cfea414140de5dae2223b00361a396177a9cb410ff61f20015ad".to_owned(),
    );
    let (ok, actual) = check_hash(&data, &expected);
    assert!(ok);
    assert_eq!(
        actual,
        "ba7816bf8f01cfea414140de5dae2223b00361a396177a9cb410ff61f20015ad"
    );
}

#[test]
fn scheme_mismatch_never_matches() {
    // The SHA-1 digest of "abc" declared under the SHA-256 scheme must not
    // validate: equality is scheme-aware.
    let data = b"abc".to_vec();
    let wrong_scheme = HashVal::Sha256("a9993e364706816aba3e25717850c26c9cd0d89d".to_owned());
    let (ok, _) = check_hash(&data, &wrong_scheme);
    assert!(!ok);
}

#[test]
fn corrupted_cached_file_is_invalid() {
    let hash = HashVal::Sha1("a9993e364706816aba3e25717850c26c9cd0d89d".to_owned());
    let good = Some(b"abc".to_vec());
    assert!(check_file(&good, 3, &hash));
    // One corrupted byte: the size still matches, the digest no longer does,
    // so the next resolution treats the file as invalid and re-downloads.
    let corrupt = Some(b"abd".to_vec());
    assert!(!check_file(&corrupt, 3, &hash));
    // A missing file is likewise invalid.
    assert!(!check_file(&None, 3, &hash));
}

#[test]
fn verify_download_reports_mismatch_exactly() {
    let hash = HashVal::Sha1("a9993e364706816aba3e25717850c26c9cd0d89d".to_owned());
    let ok = verify_download("https://cdn.example/abc", &b"abc".to_vec(), 3, &hash);
    assert!(ok.is_ok());

    let bad = verify_download("https://cdn.example/abc", &b"abd".to_vec(), 3, &hash);
    match bad {
        Err(LaunchError::InvalidFile { url, expected_hash, expected_size, actual_hash, actual_size }) => {
            assert_eq!(url, "https://cdn.example/abc");
            assert_eq!(expected_hash, hash);
            assert_eq!(expected_size, 3);
            assert_eq!(actual_size, 3);
            assert_ne!(actual_hash, "a9993e364706816aba3e25717850c26c9cd0d89d");
        }
        other => panic!("expected InvalidFile, got {:?}", other),
    }
}

#[test]
fn clean_name_replaces_unsafe_characters() {
    assert_eq!(Artifact::clean_name("lwjgl-glfw"), "lwjgl-glfw");
    assert_eq!(Artifact::clean_name(".hidden"), "__hidden");
    assert_eq!(Artifact::clean_name("a/b"), "a__b");
    assert_eq!(Artifact::clean_name("a b"), "a__b");
    assert_eq!(Artifact::clean_name("version_1.2.3"), "version_1.2.3");
}

#[test]
fn artifact_cache_path_layout() {
    let config = Config::default_config("/data".to_owned());
    let id = ArtifactId {
        group: "org.lwjgl".to_owned(),
        artifact: "lwjgl".to_owned(),
        version: "3.3.1".to_owned(),
        classifier: None,
        extension: "jar".to_owned(),
    };
    let art = Artifact::Download {
        url: "https://cdn.example/lwjgl.jar".to_owned(),
        size: 1,
        hash: HashVal::Sha1("aa".to_owned()),
    };
    assert_eq!(
        art.get_path(&id, &config),
        "/data/libraries/org/lwjgl/lwjgl/3.3.1/lwjgl-3.3.1.jar"
    );
}

#[test]
fn artifact_cache_path_with_classifier_and_hostile_version() {
    let config = Config::default_config("/data".to_owned());
    let id = ArtifactId {
        group: "com.example".to_owned(),
        artifact: "thing".to_owned(),
        version: "../1.0".to_owned(),
        classifier: Some("natives-linux".to_owned()),
        extension: "jar".to_owned(),
    };
    let art = Artifact::Download {
        url: "u".to_owned(),
        size: 1,
        hash: HashVal::Sha1("aa".to_owned()),
    };
    // Sanitization keeps the path inside the libraries root: the leading
    // dot and the separator are both replaced.
    assert_eq!(
        art.get_path(&id, &config),
        "/data/libraries/com/example/thing/__.__1.0/thing-..__1.0-natives-linux.jar"
    );
}

#[test]
fn config_paths() {
    let config = Config::default_config("/home/u/.local/share/launcher".to_owned());
    assert_eq!(config.get_base_path().as_str(), "/home/u/.local/share/launcher");
    assert_eq!(config.get_instances_path(), "/home/u/.local/share/launcher/instances");
    assert_eq!(config.get_libraries_path(), "/home/u/.local/share/launcher/libraries");
    assert_eq!(config.get_assets_path(), "/home/u/.local/share/launcher/assets");
}
