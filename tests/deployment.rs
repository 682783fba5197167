use capsule::classify::{classify, PreInput};
use capsule::codec::{encode_cell_input, encode_out_point_vec};
use capsule::completion::{backfill_cell_recipes, backfill_group_recipes, complete_tx_inputs, complete_tx_lock_deps};
use capsule::config::{Cell, CellLocation, DepGroup, Deployment};
use capsule::dep_groups::dep_group_data;
use capsule::deployment_process::{build_type_id_script, DeployError, DeploymentProcess, TYPE_ID_CODE_HASH};
use capsule::manage::{check_incomplete_snapshot, collect_migration_live_cells, step, DeployAction, DeployEvent, DeployState};
use capsule::plan::plan_capacities;
use capsule::recipe::{CellRecipe, DeploymentRecipe};
use capsule::transaction::{occupied_capacity, BakedTransaction, LiveCell, Script};
use ckb_types::packed;
use ckb_types::prelude::{Entity, Pack, PackVec};

fn lock() -> Script {
    Script { code_hash: [7u8; 32], hash_type: 1, args: vec![9u8; 20] }
}

fn deployment(cells: Vec<Cell>, dep_groups: Vec<DepGroup>) -> Deployment {
    Deployment { lock: lock(), cells, dep_groups }
}

fn file_cell(name: &str, type_id: bool) -> Cell {
    Cell { name: name.to_string(), location: CellLocation::File { file: format!("{}.bin", name) }, enable_type_id: type_id }
}

fn live(h: u8, index: u32, capacity: u64) -> LiveCell {
    LiveCell { tx_hash: [h; 32], index, capacity, mature: true }
}

#[test]
fn diff_sorts_units_into_classes() {
    let pre: Vec<PreInput> = vec![
        ("A".to_string(), live(1, 0, 100), b"one".to_vec()),
        ("B".to_string(), live(1, 1, 100), b"two".to_vec()),
    ];
    let units = vec![
        ("A".to_string(), b"one".to_vec()),
        ("B".to_string(), b"three".to_vec()),
        ("C".to_string(), b"new".to_vec()),
    ];
    let p = classify(&units, &pre);
    assert_eq!(p.unchanged, vec![(0, 0)]);
    assert_eq!(p.changed, vec![(1, 1)]);
    assert_eq!(p.new, vec![2]);
}

#[test]
fn undeclared_units_are_left_alone() {
    let pre: Vec<PreInput> = vec![("Gone".to_string(), live(1, 0, 100), b"x".to_vec())];
    let p = classify(&vec![("A".to_string(), b"x".to_vec())], &pre);
    assert!(p.unchanged.is_empty() && p.changed.is_empty());
    assert_eq!(p.new, vec![0]);
}

#[test]
fn occupied_capacity_counts_every_byte() {
    // capacity field, lock (32 + 1 + 20) and data
    assert_eq!(occupied_capacity(&lock(), &None, 1024), Some((8 + 53 + 1024) * 100_000_000));
    let t = Script { code_hash: [0u8; 32], hash_type: 1, args: vec![0u8; 32] };
    assert_eq!(occupied_capacity(&lock(), &Some(t), 0), Some((8 + 53 + 65) * 100_000_000));
    assert_eq!(occupied_capacity(&lock(), &None, usize::MAX), None);
}

#[test]
fn encodings_match_the_ledger_types() {
    let h = [3u8; 32];
    let input = packed::CellInput::new(packed::OutPoint::new(h.pack(), 5), 0);
    assert_eq!(encode_cell_input(&h, 5, 0), input.as_slice().to_vec());
    let ops = vec![([1u8; 32], 0u32), ([2u8; 32], 7u32)];
    let packed_ops: packed::OutPointVec = ops
        .iter()
        .map(|(t, i)| packed::OutPoint::new(t.pack(), *i))
        .collect::<Vec<_>>()
        .pack();
    assert_eq!(encode_out_point_vec(&ops).unwrap(), packed_ops.as_slice().to_vec());
}

#[test]
fn identity_script_hashes_the_first_input() {
    let input = live(4, 2, 1000);
    let s = build_type_id_script(&input, 3);
    assert_eq!(s.code_hash, TYPE_ID_CODE_HASH);
    assert_eq!(s.hash_type, 1);
    let mut bytes = encode_cell_input(&input.tx_hash, 2, 0);
    bytes.extend_from_slice(&3u64.to_le_bytes());
    assert_eq!(s.args, ckb_hash::blake2b_256(&bytes).to_vec());
    assert_ne!(s.args, bytes);
}

/// First run of a deployment of one 1024-byte cell with an identity and one
/// group holding it; then a second run with nothing changed.
#[test]
fn deploy_then_redeploy_unchanged() {
    let data = vec![0x5au8; 1024];
    let config = deployment(
        vec![file_cell("X", true)],
        vec![DepGroup { name: "G".to_string(), cells: vec!["X".to_string()] }],
    );
    let cells = vec![(file_cell("X", true), data.clone())];
    let seed = vec![live(8, 0, 5_000 * 100_000_000)];
    let mut process = DeploymentProcess::new(config.clone(), DeploymentRecipe::empty(), 1000);
    let (mut recipes, cells_tx) = process.plan_cells(&cells, &vec![], &seed, &vec![None]).unwrap();
    let cells_tx = cells_tx.expect("cells transaction");
    assert_eq!(cells_tx.outputs.len(), 1);
    assert_eq!(cells_tx.inputs.len(), 1);
    assert_eq!(recipes.len(), 1);
    assert_eq!(recipes[0].index, 0);
    assert_eq!(recipes[0].data_hash, ckb_hash::blake2b_256(&data));
    assert!(recipes[0].type_id.is_some());
    assert_eq!(recipes[0].occupied_capacity, (8 + 53 + 65 + 1024) * 100_000_000);
    assert_eq!(cells_tx.outputs[0].capacity, recipes[0].occupied_capacity);
    assert_eq!(process.collector.locked_cells.len(), 1);

    let cells_hash = [0xc1u8; 32];
    backfill_cell_recipes(&mut recipes, 0, cells_hash);
    assert_eq!(recipes[0].tx_hash, cells_hash);

    let (mut groups, groups_tx) = process
        .plan_dep_groups(&config.dep_groups, &vec![], &recipes, &vec![live(8, 1, 100 * 100_000_000)])
        .unwrap();
    let groups_tx = groups_tx.expect("groups transaction");
    let mut expected = vec![1u8, 0, 0, 0];
    expected.extend_from_slice(&cells_hash);
    expected.extend_from_slice(&[0, 0, 0, 0]);
    assert_eq!(groups_tx.outputs_data, vec![expected.clone()]);
    backfill_group_recipes(&mut groups, 0, [0xd2u8; 32]);

    // second run: the ledger holds what the first run deployed
    let prior = DeploymentRecipe { cell_recipes: recipes.clone(), dep_group_recipes: groups.clone() };
    let (cells_pre, groups_pre) = collect_migration_live_cells(
        &prior,
        &vec![Some((recipes[0].occupied_capacity, data.clone()))],
        &vec![Some((groups[0].occupied_capacity, expected.clone()))],
    );
    assert_eq!(cells_pre[0].1.tx_hash, cells_hash);
    let mut again = DeploymentProcess::new(config.clone(), prior, 1000);
    let (recipes2, tx2) = again.plan_cells(&cells, &cells_pre, &vec![], &vec![None]).unwrap();
    assert!(tx2.is_none());
    assert_eq!(recipes2[0].tx_hash, cells_hash);
    let (groups2, gtx2) = again.plan_dep_groups(&config.dep_groups, &groups_pre, &recipes2, &vec![]).unwrap();
    assert!(gtx2.is_none());
    assert_eq!(groups2[0].tx_hash, [0xd2u8; 32]);
    let baked = BakedTransaction { cells: tx2, dep_groups: gtx2 };
    assert!(baked.is_empty());
    assert_eq!(baked.len(), 0);
}

#[test]
fn identity_survives_an_upgrade() {
    let config = deployment(vec![file_cell("X", true)], vec![]);
    let v1 = vec![1u8; 64];
    let v2 = vec![2u8; 80];
    let mut first = DeploymentProcess::new(config.clone(), DeploymentRecipe::empty(), 1000);
    let (mut r1, tx1) = first
        .plan_cells(&vec![(file_cell("X", true), v1.clone())], &vec![], &vec![live(8, 0, 1)], &vec![None])
        .unwrap();
    let tx1 = tx1.unwrap();
    backfill_cell_recipes(&mut r1, 0, [0xaau8; 32]);
    let type_script = tx1.outputs[0].type_.clone();
    let pre: Vec<PreInput> = vec![("X".to_string(), live(0xaa, 0, tx1.outputs[0].capacity), v1.clone())];
    let mut second = DeploymentProcess::new(config, DeploymentRecipe { cell_recipes: r1.clone(), dep_group_recipes: vec![] }, 1000);
    let (r2, tx2) = second
        .plan_cells(&vec![(file_cell("X", true), v2.clone())], &pre, &vec![], &vec![type_script])
        .unwrap();
    let tx2 = tx2.unwrap();
    assert_eq!(tx2.inputs.len(), 1);
    assert_eq!(tx2.inputs[0].tx_hash, [0xaau8; 32]);
    assert_ne!(r1[0].data_hash, r2[0].data_hash);
    assert_eq!(r1[0].type_id, r2[0].type_id);
}

#[test]
fn changed_cell_without_identity_marker_gets_a_fresh_one() {
    let config = deployment(vec![file_cell("X", true)], vec![]);
    let pre: Vec<PreInput> = vec![("X".to_string(), live(0xaa, 0, 1), b"old".to_vec())];
    let prior = DeploymentRecipe { cell_recipes: vec![], dep_group_recipes: vec![] };
    let mut process = DeploymentProcess::new(config, prior, 0);
    let (_, tx) = process
        .plan_cells(&vec![(file_cell("X", true), b"new".to_vec())], &pre, &vec![], &vec![Some(lock())])
        .unwrap();
    let t = tx.unwrap().outputs[0].type_.clone().unwrap();
    assert_eq!(t.args, build_type_id_script(&live(0xaa, 0, 1), 0).args);
}

#[test]
fn new_identity_without_input_is_refused() {
    let config = deployment(vec![file_cell("X", true)], vec![]);
    let mut process = DeploymentProcess::new(config, DeploymentRecipe::empty(), 0);
    let r = process.plan_cells(&vec![(file_cell("X", true), vec![1])], &vec![], &vec![], &vec![None]);
    assert_eq!(r.unwrap_err(), DeployError::InsufficientCapacity);
}

#[test]
fn unchanged_cell_without_record_is_refused() {
    let config = deployment(vec![file_cell("X", false)], vec![]);
    let pre: Vec<PreInput> = vec![("X".to_string(), live(1, 0, 1), vec![1])];
    let mut process = DeploymentProcess::new(config, DeploymentRecipe::empty(), 0);
    let r = process.plan_cells(&vec![(file_cell("X", false), vec![1])], &pre, &vec![], &vec![None]);
    assert_eq!(r.unwrap_err(), DeployError::MissingRecipe { name: "X".to_string() });
}

#[test]
fn group_member_without_record_is_refused() {
    let group = DepGroup { name: "G".to_string(), cells: vec!["X".to_string(), "Y".to_string()] };
    let recipes = vec![CellRecipe {
        name: "X".to_string(),
        tx_hash: [1; 32],
        index: 0,
        occupied_capacity: 1,
        data_hash: [0; 32],
        type_id: None,
    }];
    assert_eq!(
        dep_group_data(&group, &recipes).unwrap_err(),
        DeployError::UnresolvedCell { cell: "Y".to_string(), group: "G".to_string() }
    );
    let mut process = DeploymentProcess::new(deployment(vec![], vec![group.clone()]), DeploymentRecipe::empty(), 0);
    assert!(process.plan_dep_groups(&vec![group], &vec![], &recipes, &vec![]).is_err());
}

#[test]
fn group_resolves_to_the_fresh_cell() {
    // the last deployment recorded X elsewhere; this run rebuilt it
    let stale = CellRecipe { name: "X".to_string(), tx_hash: [0x51; 32], index: 3, occupied_capacity: 1, data_hash: [0; 32], type_id: None };
    let config = deployment(vec![file_cell("X", false)], vec![]);
    let mut process = DeploymentProcess::new(config, DeploymentRecipe { cell_recipes: vec![stale], dep_group_recipes: vec![] }, 0);
    let (mut recipes, _) = process
        .plan_cells(&vec![(file_cell("X", false), vec![1, 2, 3])], &vec![], &vec![live(9, 0, 1)], &vec![None])
        .unwrap();
    backfill_cell_recipes(&mut recipes, 0, [0xf0; 32]);
    let group = DepGroup { name: "G".to_string(), cells: vec!["X".to_string()] };
    let data = dep_group_data(&group, &recipes).unwrap();
    assert_eq!(&data[4..36], &[0xf0u8; 32]);
    assert_eq!(&data[36..40], &[0, 0, 0, 0]);
}

#[test]
fn completed_transaction_conserves_capacity() {
    let config = deployment(vec![file_cell("X", false)], vec![]);
    let mut process = DeploymentProcess::new(config, DeploymentRecipe::empty(), 0);
    let (_, tx) = process
        .plan_cells(&vec![(file_cell("X", false), vec![0u8; 100])], &vec![], &vec![live(9, 0, 70 * 100_000_000)], &vec![None])
        .unwrap();
    let tx = complete_tx_lock_deps(tx.unwrap(), [0xee; 32]);
    assert_eq!(tx.cell_deps.len(), 1);
    assert_eq!(tx.cell_deps[0].out_point.tx_hash, [0xee; 32]);
    let fee = 1000;
    let funding = vec![live(9, 1, 500 * 100_000_000)];
    let done = complete_tx_inputs(tx.clone(), 70 * 100_000_000, fee, &lock(), &funding).unwrap();
    assert_eq!(done.inputs.len(), 2);
    assert_eq!(done.outputs.len(), 2);
    assert_eq!(done.outputs_data[1], Vec::<u8>::new());
    let outputs: u64 = done.outputs.iter().map(|o| o.capacity).sum();
    assert_eq!(70 * 100_000_000 + 500 * 100_000_000, outputs + fee);
    let short = complete_tx_inputs(tx.clone(), 0, fee, &lock(), &vec![live(9, 1, 100)]);
    assert_eq!(short.unwrap_err(), DeployError::InsufficientCapacity);
    let huge = complete_tx_inputs(tx, u64::MAX, fee, &lock(), &funding);
    assert_eq!(huge.unwrap_err(), DeployError::CapacityOverflow);
}

#[test]
fn plan_reports_capacities() {
    let config = deployment(vec![file_cell("X", false)], vec![]);
    let mut process = DeploymentProcess::new(config, DeploymentRecipe::empty(), 0);
    let (_, tx) = process
        .plan_cells(&vec![(file_cell("X", false), vec![0u8; 100])], &vec![], &vec![live(9, 0, 1)], &vec![None])
        .unwrap();
    let occupied = (8 + 53 + 100) * 100_000_000;
    // Y changed and is reused; Z is unchanged and holds far more, but is not reused
    let pre: Vec<PreInput> = vec![
        ("Y".to_string(), live(1, 0, 50 * 100_000_000), vec![1]),
        ("Z".to_string(), live(1, 1, u64::MAX - 1), vec![2]),
    ];
    let units = vec![("Y".to_string(), vec![3]), ("Z".to_string(), vec![2])];
    let cells_partition = classify(&units, &pre);
    let groups_partition = classify(&vec![], &vec![]);
    let baked = BakedTransaction { cells: tx, dep_groups: None };
    let plan = plan_capacities(&pre, &cells_partition, &vec![], &groups_partition, &baked, 1000).unwrap();
    assert_eq!(plan.total_occupied_capacity, occupied);
    assert_eq!(plan.migrated_capacity, 50 * 100_000_000);
    assert_eq!(plan.new_occupied_capacity, occupied - 50 * 100_000_000);
    assert_eq!(plan.txs_fee_capacity, 1000);
    // reused capacity beyond the outputs: nothing new is occupied, and the plan still stands
    let big: Vec<PreInput> = vec![("Y".to_string(), live(1, 0, 900 * 100_000_000), vec![1])];
    let p2 = classify(&vec![("Y".to_string(), vec![3])], &big);
    let plan2 = plan_capacities(&big, &p2, &vec![], &groups_partition, &baked, 1000).unwrap();
    assert_eq!(plan2.new_occupied_capacity, 0);
    assert_eq!(plan2.migrated_capacity, 900 * 100_000_000);
}

#[test]
fn incomplete_run_blocks_the_next() {
    assert_eq!(check_incomplete_snapshot(true), Err(DeployError::IncompleteDeployment));
    assert_eq!(check_incomplete_snapshot(false), Ok(()));
    assert_eq!(step(DeployState::Idle, DeployEvent::Start { incomplete_exists: true }), (DeployState::Failed, DeployAction::StopIncomplete));
    assert_eq!(step(DeployState::Idle, DeployEvent::Start { incomplete_exists: false }), (DeployState::Planning, DeployAction::BuildPlan));
}

#[test]
fn run_goes_through_its_states() {
    let (s, a) = step(DeployState::Planning, DeployEvent::Planned { nothing_to_deploy: true });
    assert_eq!((s, a), (DeployState::Aborted, DeployAction::Stop));
    let (s, a) = step(DeployState::Planning, DeployEvent::Planned { nothing_to_deploy: false });
    assert_eq!((s, a), (DeployState::PlanBuilt, DeployAction::Confirm));
    assert_eq!(step(s, DeployEvent::Confirmation { accepted: false }), (DeployState::Aborted, DeployAction::Stop));
    let (s, a) = step(s, DeployEvent::Confirmation { accepted: true });
    assert_eq!(a, DeployAction::Sign);
    let (s, a) = step(s, DeployEvent::Signed);
    assert_eq!((s, a), (DeployState::SnapshotStarted, DeployAction::WriteSnapshot));
    let (s, a) = step(s, DeployEvent::SnapshotWritten);
    assert_eq!(a, DeployAction::Broadcast);
    assert_eq!(step(s, DeployEvent::Broadcast { accepted: false }), (DeployState::Failed, DeployAction::Stop));
    let (s, a) = step(s, DeployEvent::Broadcast { accepted: true });
    assert_eq!(a, DeployAction::CompleteSnapshot);
    assert_eq!(step(s, DeployEvent::SnapshotFinalized), (DeployState::SnapshotCompleted, DeployAction::Stop));
}

#[test]
fn records_whose_transaction_is_gone_are_left_out() {
    let r = |n: &str, h: u8| CellRecipe { name: n.to_string(), tx_hash: [h; 32], index: 1, occupied_capacity: 1, data_hash: [0; 32], type_id: None };
    let prior = DeploymentRecipe { cell_recipes: vec![r("A", 1), r("B", 2)], dep_group_recipes: vec![] };
    let (cells, groups) = collect_migration_live_cells(&prior, &vec![None, Some((42, vec![5]))], &vec![]);
    assert_eq!(cells.len(), 1);
    assert_eq!(cells[0].0, "B");
    assert_eq!(cells[0].1, LiveCell { tx_hash: [2; 32], index: 1, capacity: 42, mature: true });
    assert!(groups.is_empty());
}

#[test]
fn partition_tells_what_is_spent() {
    let pre: Vec<PreInput> = vec![("A".to_string(), live(1, 0, 10), b"a".to_vec()), ("B".to_string(), live(1, 1, 20), b"b".to_vec())];
    let changed = classify(&vec![("B".to_string(), b"x".to_vec())], &pre);
    assert!(!changed.needs_seed());
    assert_eq!(changed.spent_cells(&pre, &vec![live(9, 0, 5)]), vec![live(1, 1, 20)]);
    let fresh = classify(&vec![("C".to_string(), b"c".to_vec())], &pre);
    assert!(fresh.needs_seed());
    assert_eq!(fresh.spent_cells(&pre, &vec![live(9, 0, 5)]), vec![live(9, 0, 5)]);
    let idle = classify(&vec![("A".to_string(), b"a".to_vec())], &pre);
    assert!(!idle.needs_seed());
}

#[test]
fn inherited_types_follow_names() {
    let pre: Vec<PreInput> = vec![("A".to_string(), live(1, 0, 10), vec![]), ("B".to_string(), live(1, 1, 20), vec![])];
    let t = build_type_id_script(&live(3, 0, 1), 0);
    let units = vec![("B".to_string(), vec![]), ("C".to_string(), vec![]), ("A".to_string(), vec![])];
    let r = capsule::classify::inherited_types(&units, &pre, &vec![None, Some(t.clone())]);
    assert_eq!(r.len(), 3);
    assert_eq!(r[0].as_ref().map(|s| s.args.clone()), Some(t.args));
    assert!(r[1].is_none());
    assert!(r[2].is_none());
}
