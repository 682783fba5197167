use capsule::deployment_process::{check_pre_inputs_unlockable, DeployError, TYPE_ID_CODE_HASH};
use capsule::docker::DockerCommand;
use capsule::human_capacity::HumanCapacity;
use capsule::manage::latest_snapshot;
use capsule::plan::Plan;
use capsule::transaction::{CellDep, CellOutput, LiveCell, OutPoint, Script, Transaction};
use capsule::tx_check::{tx_check, GenesisTx};

#[test]
fn human_capacity_parse() {
    assert_eq!("1.5".parse::<HumanCapacity>(), Ok(HumanCapacity(150_000_000)));
    assert_eq!("42 (CKB)".parse::<HumanCapacity>(), Ok(HumanCapacity(4_200_000_000)));
    assert_eq!(" 0.00000001(CKB)".parse::<HumanCapacity>(), Ok(HumanCapacity(1)));
    assert_eq!("12.34567890".parse::<HumanCapacity>(), Ok(HumanCapacity(1_234_567_890)));
    assert!("1.123456789".parse::<HumanCapacity>().is_err());
    assert!("x".parse::<HumanCapacity>().is_err());
    assert!("".parse::<HumanCapacity>().is_err());
    assert!("184467440738".parse::<HumanCapacity>().is_err());
    let v = HumanCapacity(98_765_432_100);
    assert_eq!(v.to_human(true).parse::<HumanCapacity>(), Ok(v));
}

#[test]
fn plan_text() {
    let recipe = capsule::recipe::DeploymentRecipe {
        cell_recipes: vec![capsule::recipe::CellRecipe { name: "X".to_string(), tx_hash: [1; 32], index: 0, occupied_capacity: 123_400_000_000, data_hash: [2; 32], type_id: None }],
        dep_group_recipes: vec![],
    };
    let p = Plan::new(100_000_000, 250_000_000, 350_000_000, 2000, &recipe);
    assert_eq!(p.recipe.cells.len(), 1);
    assert_eq!(p.recipe.cells[0].occupied_capacity, "1234.0 (CKB)");
    assert_eq!(p.recipe.cells[0].name, "X");
    assert_eq!(p.migrated_capacity, "1.0 (CKB)");
    assert_eq!(p.new_occupied_capacity, "2.5 (CKB)");
    assert_eq!(p.total_occupied_capacity, "3.5 (CKB)");
    assert_eq!(p.txs_fee_capacity, "0.00002 (CKB)");
}

#[test]
fn latest_snapshot_is_the_last_name() {
    let names: Vec<String> = vec!["2021-03-04-050607.json", "2022-01-01-000000.json", "2021-12-31-235959.json"]
        .into_iter()
        .map(String::from)
        .collect();
    assert_eq!(latest_snapshot(&names), Some(1));
    assert_eq!(latest_snapshot(&vec![]), None);
}

fn script(h: u8, hash_type: u8) -> Script {
    Script { code_hash: [h; 32], hash_type, args: vec![] }
}

#[test]
fn prior_cells_must_be_unlockable() {
    let pre = vec![
        ("A".to_string(), LiveCell { tx_hash: [1; 32], index: 0, capacity: 1, mature: true }, vec![]),
        ("B".to_string(), LiveCell { tx_hash: [1; 32], index: 1, capacity: 1, mature: true }, vec![]),
    ];
    assert_eq!(check_pre_inputs_unlockable(&pre, &vec![script(5, 1), script(5, 1)], &script(5, 1)), Ok(()));
    assert_eq!(
        check_pre_inputs_unlockable(&pre, &vec![script(5, 1), script(6, 1)], &script(5, 1)),
        Err(DeployError::LockMismatch { name: "B".to_string() })
    );
}

#[test]
fn type_scripts_need_their_code_in_the_deps() {
    let code = vec![0xabu8; 10];
    let genesis = vec![GenesisTx {
        hash: [0x11; 32],
        outputs: vec![CellOutput { capacity: 1, lock: script(0, 1), type_: None }],
        outputs_data: vec![code.clone()],
    }];
    let dep = CellDep { out_point: OutPoint { tx_hash: [0x11; 32], index: 0 }, dep_type: 0 };
    let by_data = Script { code_hash: ckb_hash::blake2b_256(&code), hash_type: 0, args: vec![] };
    let tx = |deps: Vec<CellDep>, t: Option<Script>| Transaction {
        cell_deps: deps,
        inputs: vec![],
        outputs: vec![CellOutput { capacity: 1, lock: script(0, 1), type_: t }],
        outputs_data: vec![vec![]],
    };
    assert_eq!(tx_check(&genesis, &tx(vec![dep], Some(by_data.clone()))), Ok(()));
    assert_eq!(tx_check(&genesis, &tx(vec![], Some(by_data))), Err(DeployError::MissingCode));
    assert_eq!(tx_check(&genesis, &tx(vec![], Some(Script { code_hash: TYPE_ID_CODE_HASH, hash_type: 1, args: vec![1; 32] }))), Ok(()));
    assert_eq!(tx_check(&genesis, &tx(vec![dep], Some(script(0x22, 1)))), Err(DeployError::MissingCode));
    let missing = CellDep { out_point: OutPoint { tx_hash: [0x11; 32], index: 3 }, dep_type: 0 };
    assert_eq!(tx_check(&genesis, &tx(vec![missing], None)), Err(DeployError::MissingCode));
}

#[test]
fn docker_run_arguments() {
    let cmd = DockerCommand::with_config(
        "image:1".to_string(),
        "/home/u/p".to_string(),
        vec![("K".to_string(), "V".to_string())],
        1000,
        100,
        "u".to_string(),
    )
    .host_network(true)
    .name("c1".to_string())
    .tty(true)
    .workdir("/code/x".to_string())
    .fix_dir_permission("target".to_string())
    .map_volume("/a".to_string(), "/b".to_string());
    let (bin, args) = cmd.build("make".to_string(), &vec![Some("http://p".to_string()), None, None]);
    assert_eq!(bin, "docker");
    let expected: Vec<String> = vec![
        "run", "-eUID=1000", "-eGID=100", "-eUSER=u", "--rm", "-v/home/u/p:/code", "-w/code/x",
        "-v/a:/b", "-vcapsule-cache:/root/.cargo", "-eHTTP_PROXY:http://p", "-eK:V",
        "--network", "host", "--name", "c1", "-it", "image:1", "bash", "-c",
        "make; EXITCODE=$?; test -f target -o -d target && chown -R $UID:$GID target; exit $EXITCODE",
    ]
    .into_iter()
    .map(String::from)
    .collect();
    assert_eq!(args, expected);
    assert!(cmd.daemon(true).daemon);
}
