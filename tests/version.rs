use capsule::checker::{BinDep, CheckError, Checker, ProbeOutput, Version as CliVersion};
use capsule::version::Version;

#[test]
fn test_version_compatible() {
    assert!("0.9.1"
        .parse::<Version>()
        .unwrap()
        .is_compatible(&"0.9.1".parse().unwrap()));
    assert!("0.9.1"
        .parse::<Version>()
        .unwrap()
        .is_compatible(&"0.9.0".parse().unwrap()));
    assert!(!"0.9.1"
        .parse::<Version>()
        .unwrap()
        .is_compatible(&"0.9.2".parse().unwrap()));
    assert!(!"0.9.1"
        .parse::<Version>()
        .unwrap()
        .is_compatible(&"1.2.0".parse().unwrap()));
    assert!(!"0.9.1"
        .parse::<Version>()
        .unwrap()
        .is_compatible(&"0.8.0".parse().unwrap()));
    assert!(!"0.9.1"
        .parse::<Version>()
        .unwrap()
        .is_compatible(&"0.10.0".parse().unwrap()));

    assert!("1.0.2"
        .parse::<Version>()
        .unwrap()
        .is_compatible(&"1.0.2".parse().unwrap()));
    assert!("1.0.2"
        .parse::<Version>()
        .unwrap()
        .is_compatible(&"1.0.1".parse().unwrap()));
    assert!("1.1.0"
        .parse::<Version>()
        .unwrap()
        .is_compatible(&"1.0.9".parse().unwrap()));
    assert!(!"1.2.2"
        .parse::<Version>()
        .unwrap()
        .is_compatible(&"1.3.0".parse().unwrap()));
    assert!(!"1.2.2"
        .parse::<Version>()
        .unwrap()
        .is_compatible(&"1.3.3".parse().unwrap()));
    assert!(!"1.2.2"
        .parse::<Version>()
        .unwrap()
        .is_compatible(&"2.0.0".parse().unwrap()));
}

#[test]
fn version_parts_and_text() {
    let v: Version = "0.10.5-rc1 abc1234".parse().unwrap();
    assert_eq!((v.major, v.minor, v.patch), (0, 10, 5));
    assert_eq!(v.pre, "rc1");
    assert_eq!(v.commit_id, "abc1234");
    assert_eq!(v.to_string(), "0.10.5-rc1 abc1234");
    let plain: Version = "1.2.3".parse().unwrap();
    assert_eq!(plain.to_string(), "1.2.3");
    assert!("1.2".parse::<Version>().is_err());
    assert!("1.2.3.4".parse::<Version>().is_err());
    assert!("1.2.x".parse::<Version>().is_err());
    assert!("256.0.0".parse::<Version>().is_err());
    assert!("1.0.0 a b".parse::<Version>().is_err());
    assert!("".parse::<Version>().is_err());
}

#[test]
fn ckb_cli_release_is_read_after_prefix() {
    assert_eq!(
        CliVersion::parse_with_prefix("ckb-cli", "ckb-cli 1.4.0 (77a1a9f 2021-06-30)\n"),
        Some(CliVersion(1, 4, 0))
    );
    assert_eq!(CliVersion::parse_with_prefix("ckb-cli", "ckb-cli 1.4"), None);
    assert_eq!(CliVersion::parse_with_prefix("ckb-cli", "ckb-cli"), None);
}

fn probe(success: bool, out: &str) -> ProbeOutput {
    ProbeOutput { success, stdout: out.to_string() }
}

#[test]
fn ckb_cli_check() {
    let ok = Checker::build("ckb-cli", &probe(true, ""), &probe(true, ""), &probe(false, ""), &probe(true, "ckb-cli 1.2.0"));
    assert_eq!(ok.check_ckb_cli(), Ok(()));
    assert!(!ok.cross.installed);
    let old = Checker::build("ckb-cli", &probe(true, ""), &probe(true, ""), &probe(true, ""), &probe(true, "ckb-cli 1.1.9"));
    assert_eq!(old.check_ckb_cli(), Err(CheckError::TooOld(Some(CliVersion(1, 1, 9)))));
    let missing = Checker::build("ckb-cli", &probe(true, ""), &probe(true, ""), &probe(true, ""), &probe(false, "ckb-cli 1.4.0"));
    assert_eq!(missing.check_ckb_cli(), Err(CheckError::NotFound));
    let unknown = BinDep::build("ckb-cli", &probe(true, "garbage"), Some("ckb-cli"), Some(CliVersion(1, 2, 0)));
    assert_eq!(unknown.version, None);
    assert!(unknown.meet_required_version());
}
