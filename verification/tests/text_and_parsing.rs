use mc_cli::java::{java_requirement, parse_java_major_version, required_java_major, JavaCheck};
use mc_cli::provider::GameProvider;
use mc_cli::ram::{validate_ram, RamError};
use mc_cli::text::decimal_string;

#[test]
fn ram_accepts_number_and_unit() {
    assert_eq!(validate_ram("2G"), Ok(()));
    assert_eq!(validate_ram("512M"), Ok(()));
    assert_eq!(validate_ram("1024k"), Ok(()));
    assert_eq!(validate_ram("4g"), Ok(()));
    assert_eq!(validate_ram("+4G"), Ok(()));
    assert_eq!(validate_ram("18446744073709551615M"), Ok(()));
}

#[test]
fn ram_rejects_bad_amounts() {
    assert_eq!(validate_ram(""), Err(RamError::Empty));
    assert_eq!(validate_ram("G"), Err(RamError::InvalidFormat));
    assert_eq!(validate_ram("2"), Err(RamError::InvalidFormat));
    assert_eq!(validate_ram("2T"), Err(RamError::InvalidFormat));
    assert_eq!(validate_ram("two G"), Err(RamError::InvalidFormat));
    assert_eq!(validate_ram("-2G"), Err(RamError::InvalidFormat));
    assert_eq!(validate_ram("+G"), Err(RamError::InvalidFormat));
    assert_eq!(validate_ram("18446744073709551616M"), Err(RamError::InvalidFormat));
    assert_eq!(validate_ram("2 G"), Err(RamError::InvalidFormat));
}

#[test]
fn provider_names_in_any_case() {
    assert_eq!(GameProvider::from_str("paper"), Some(GameProvider::Paper));
    assert_eq!(GameProvider::from_str("PAPER"), Some(GameProvider::Paper));
    assert_eq!(GameProvider::from_str("Vanilla"), Some(GameProvider::Vanilla));
    assert_eq!(GameProvider::from_str("fAbRiC"), Some(GameProvider::Fabric));
    assert_eq!(GameProvider::from_str("forge"), None);
    assert_eq!(GameProvider::from_str(""), None);
    assert_eq!(GameProvider::from_str(" paper"), None);
    assert_eq!(GameProvider::from_str("paperr"), None);
}

#[test]
fn java_version_from_modern_output() {
    let text = "openjdk version \"21.0.3\" 2024-04-16\nOpenJDK Runtime Environment (build 21.0.3+9)\n";
    assert_eq!(parse_java_major_version(text), Some(21));
}

#[test]
fn java_version_from_old_output() {
    let text = "java version \"1.8.0_392\"\nJava(TM) SE Runtime Environment (build 1.8.0_392-b08)\n";
    assert_eq!(parse_java_major_version(text), Some(8));
}

#[test]
fn java_version_absent() {
    assert_eq!(parse_java_major_version(""), None);
    assert_eq!(parse_java_major_version("   \n\t "), None);
    assert_eq!(parse_java_major_version("command not found"), None);
    assert_eq!(parse_java_major_version("version \"0.1\""), None);
}

#[test]
fn java_version_first_numeric_token_wins() {
    assert_eq!(parse_java_major_version("openjdk 17.0.2 2022-01-18"), Some(17));
    assert_eq!(parse_java_major_version("\"\"11\"\""), Some(11));
    assert_eq!(parse_java_major_version("x 99999999999 17"), Some(17));
}

#[test]
fn java_needed_for_server_versions() {
    assert_eq!(required_java_major("1.21.1"), 21);
    assert_eq!(required_java_major("1.21"), 21);
    assert_eq!(required_java_major("1.20.4"), 17);
    assert_eq!(required_java_major("1.17"), 17);
    assert_eq!(required_java_major("1.16.5"), 8);
    assert_eq!(required_java_major("1.8.9"), 8);
    assert_eq!(required_java_major("24w14a"), 8);
    assert_eq!(required_java_major("1.x.2"), 8);
    assert_eq!(required_java_major(""), 8);
}

#[test]
fn java_requirement_outcomes() {
    assert!(matches!(java_requirement(17, Some(21)), JavaCheck::Satisfied));
    assert!(matches!(java_requirement(17, Some(17)), JavaCheck::Satisfied));
    assert!(matches!(java_requirement(21, Some(17)), JavaCheck::TooOld(17)));
    assert!(matches!(java_requirement(8, None), JavaCheck::Unknown));
}

#[test]
fn decimal_rendering() {
    assert_eq!(decimal_string(0), "0");
    assert_eq!(decimal_string(7), "7");
    assert_eq!(decimal_string(10), "10");
    assert_eq!(decimal_string(1234567890), "1234567890");
    assert_eq!(decimal_string(u64::MAX), "18446744073709551615");
}
