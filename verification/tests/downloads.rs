use mc_cli::checksum::{check_digest, sha256_hex, to_hex, verify_sha1, verify_sha256};
use mc_cli::launch::{
    java_launch_args, cached_jar_version, is_jar_file_name, jar_file_name, server_properties_content,
    version_list_lines, EULA_CONTENT,
};
use mc_cli::provider::fabric::{fabric_server_jar_url, first_stable, stable_versions, FabricVersion};
use mc_cli::provider::paper::{
    application_download, latest_build, paper_versions_newest_first, paper_build_url, paper_download_url, paper_version_url,
    PaperDownload,
};
use mc_cli::provider::vanilla::{find_version, release_ids, VanillaVersion};

const ABC_SHA256: &str = "ba7816bf8f01cfea414140de5dae2223b00361a396177a9cb410ff61f20015ad";
const ABC_SHA1: &str = "a9993e364706816aba3e25717850c26c9cd0d89d";

#[test]
fn hex_encoding_is_lower_case_two_digits() {
    assert_eq!(to_hex(&[]), "");
    assert_eq!(to_hex(&[0x00, 0x0f, 0xa0, 0xff]), "000fa0ff");
}

#[test]
fn sha256_of_known_input() {
    assert_eq!(sha256_hex(b"abc"), ABC_SHA256);
    assert_eq!(
        sha256_hex(b""),
        "e3b0c44298fc1c149afbf4c8996fb92427ae41e4649b934ca495991b7852b855"
    );
}

#[test]
fn sha256_verification() {
    assert!(verify_sha256(b"abc", ABC_SHA256).is_ok());
    let err = verify_sha256(b"abd", ABC_SHA256).unwrap_err();
    assert_eq!(err.expected, ABC_SHA256);
    assert_ne!(err.actual, ABC_SHA256);
    assert_eq!(err.actual.len(), 64);
    // upper case is not what `{:02x}` gives
    assert!(verify_sha256(b"abc", &ABC_SHA256.to_uppercase()).is_err());
}

#[test]
fn sha1_verification() {
    assert!(verify_sha1(b"abc", ABC_SHA1).is_ok());
    let err = verify_sha1(b"abc", ABC_SHA256).unwrap_err();
    assert_eq!(err.actual, ABC_SHA1);
    assert_eq!(err.expected, ABC_SHA256);
}

#[test]
fn digest_comparison() {
    assert!(check_digest(&[0xde, 0xad], "dead").is_ok());
    let err = check_digest(&[0xde, 0xad], "beef").unwrap_err();
    assert_eq!(err.actual, "dead");
    assert_eq!(err.expected, "beef");
}

#[test]
fn jar_names() {
    assert_eq!(jar_file_name("paper", "1.21.1"), "paper-1.21.1.jar");
    assert!(is_jar_file_name("paper-1.21.1.jar"));
    assert!(is_jar_file_name("..jar"));
    assert!(!is_jar_file_name(".jar"));
    assert!(!is_jar_file_name("server.JAR"));
    assert!(!is_jar_file_name("eula.txt"));
}

#[test]
fn jar_name_round_trip() {
    let name = jar_file_name("fabric", "1.20.4");
    assert_eq!(cached_jar_version("fabric", &name), Some("1.20.4".to_string()));
    assert_eq!(cached_jar_version("paper", "custom.jar"), Some("custom".to_string()));
    assert_eq!(cached_jar_version("paper", "paper-a-paper-b.jar"), Some("a-b".to_string()));
    assert_eq!(cached_jar_version("paper", "notes.txt"), None);
}

#[test]
fn generated_files() {
    assert_eq!(server_properties_content(false), "online-mode=false\n");
    assert_eq!(server_properties_content(true), "online-mode=true\n");
    assert_eq!(EULA_CONTENT, "eula=true\n");
}

#[test]
fn short_version_listing() {
    let versions = vec!["1.21.1".to_string(), "1.21".to_string()];
    assert_eq!(version_list_lines(&versions), vec!["- 1.21.1 ★ latest", "- 1.21"]);
    assert!(version_list_lines(&Vec::new()).is_empty());
}

#[test]
fn long_version_listing() {
    let versions: Vec<String> = (0..25).map(|i| format!("v{}", i)).collect();
    let lines = version_list_lines(&versions);
    assert_eq!(lines.len(), 21);
    assert_eq!(lines[0], "- v0 ★ latest");
    assert_eq!(lines[19], "- v19");
    assert_eq!(lines[20], "... and 5 more (use --provider to filter)");
}

#[test]
fn paper_builds_and_urls() {
    assert_eq!(latest_build(&vec![3, 117, 42]), Some(117));
    assert_eq!(latest_build(&vec![]), None);
    assert_eq!(
        paper_version_url("1.21.1"),
        "https://api.papermc.io/v2/projects/paper/versions/1.21.1"
    );
    let build = paper_build_url("1.21.1", 123);
    assert_eq!(build, "https://api.papermc.io/v2/projects/paper/versions/1.21.1/builds/123");
    assert_eq!(
        paper_download_url(&build, "paper-1.21.1-123.jar"),
        "https://api.papermc.io/v2/projects/paper/versions/1.21.1/builds/123/downloads/paper-1.21.1-123.jar"
    );
}

#[test]
fn paper_application_download() {
    let downloads = vec![
        ("mojang-mappings".to_string(), PaperDownload { name: "m.jar".to_string(), sha256: "aa".to_string() }),
        ("application".to_string(), PaperDownload { name: "a.jar".to_string(), sha256: "bb".to_string() }),
    ];
    let d = application_download(&downloads).unwrap();
    assert_eq!(d.name, "a.jar");
    assert_eq!(d.sha256, "bb");
    let without = vec![(
        "mojang-mappings".to_string(),
        PaperDownload { name: "m.jar".to_string(), sha256: "aa".to_string() },
    )];
    assert!(application_download(&without).is_none());
}

fn vv(id: &str, ty: &str) -> VanillaVersion {
    VanillaVersion { id: id.to_string(), version_type: ty.to_string(), url: format!("https://x/{}.json", id) }
}

#[test]
fn vanilla_releases_keep_order() {
    let versions = vec![vv("24w14a", "snapshot"), vv("1.21.1", "release"), vv("1.21", "release"), vv("b1.7", "old_beta")];
    assert_eq!(release_ids(&versions), vec!["1.21.1", "1.21"]);
    assert_eq!(find_version(&versions, "1.21").unwrap().url, "https://x/1.21.json");
    assert!(find_version(&versions, "1.0").is_none());
}

fn fv(v: &str, stable: bool) -> FabricVersion {
    FabricVersion { version: v.to_string(), stable }
}

#[test]
fn fabric_stable_versions() {
    let versions = vec![fv("24w14a", false), fv("1.21.1", true), fv("1.21", true)];
    assert_eq!(stable_versions(&versions), vec!["1.21.1", "1.21"]);
    assert_eq!(first_stable(&versions).unwrap().version, "1.21.1");
    assert!(first_stable(&vec![fv("0.16.0-beta", false)]).is_none());
    assert_eq!(
        fabric_server_jar_url("1.21.1", "0.16.5", "1.0.1"),
        "https://meta.fabricmc.net/v2/versions/loader/1.21.1/0.16.5/1.0.1/server/jar"
    );
}

#[test]
fn java_command_line() {
    assert_eq!(java_launch_args("2G", "paper-1.21.1.jar"), vec!["-Xmx2G", "-jar", "paper-1.21.1.jar", "nogui"]);
}

#[test]
fn paper_versions_are_listed_newest_first() {
    let listed = vec!["1.8.8".to_string(), "1.20.4".to_string(), "1.21.1".to_string()];
    assert_eq!(paper_versions_newest_first(listed), vec!["1.21.1", "1.20.4", "1.8.8"]);
    assert!(paper_versions_newest_first(Vec::new()).is_empty());
    let lines = version_list_lines(&paper_versions_newest_first(vec!["1.20".to_string(), "1.21".to_string()]));
    assert_eq!(lines[0], "- 1.21 ★ latest");
}
