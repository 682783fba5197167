use capsule::config::TemplateType;
use capsule::human_capacity::HumanCapacity;
use capsule::manage::{snapshot_name, SnapshotTime};
use capsule::project_context::{BuildEnv, DeployEnv};

#[test]
fn human_capacity_text() {
    assert_eq!(HumanCapacity(100_000_000).to_human(false), "1.0");
    assert_eq!(HumanCapacity(123_456_789).to_human(false), "1.23456789");
    assert_eq!(HumanCapacity(150_000_000).to_human(true), "1.5 (CKB)");
    assert_eq!(HumanCapacity(0).to_human(false), "0.0");
    assert_eq!(HumanCapacity(1).to_human(false), "0.00000001");
    assert_eq!(HumanCapacity(u64::MAX).to_human(true), "184467440737.09551615 (CKB)");
}

#[test]
fn snapshot_names_sort_as_time() {
    let t = SnapshotTime { year: 2021, month: 3, day: 4, hour: 5, minute: 6, second: 7 };
    assert_eq!(snapshot_name(&t), "2021-03-04-050607.json");
    let later = SnapshotTime { year: 2021, month: 11, day: 4, hour: 0, minute: 0, second: 0 };
    assert!(snapshot_name(&t) < snapshot_name(&later));
}

#[test]
fn names_in_any_case() {
    assert_eq!("Rust".parse::<TemplateType>(), Ok(TemplateType::Rust));
    assert_eq!("C-SharedLib".parse::<TemplateType>(), Ok(TemplateType::CSharedLib));
    assert!("go".parse::<TemplateType>().is_err());
    assert_eq!("RELEASE".parse::<BuildEnv>(), Ok(BuildEnv::Release));
    assert_eq!("dev".parse::<DeployEnv>(), Ok(DeployEnv::Dev));
    assert_eq!("Production".parse::<DeployEnv>().unwrap().dir_name(), "production");
    assert!("staging".parse::<DeployEnv>().is_err());
}
