use capsule::collector::LiveCellInfo;
use capsule::config::{Cell, CellLocation, DepGroup, Deployment};
use capsule::deployment_process::{DeployError, DeploymentProcess, TYPE_ID_CODE_HASH};
use capsule::molecule::{encode_raw_tx, tx_hash};
use capsule::recipe::{CellRecipe, DeploymentRecipe};
use capsule::transaction::{CellDep, CellOutput, OutPoint, Script, Transaction};
use capsule::tx_check::GenesisTx;
use ckb_types::packed;
use ckb_types::prelude::{Builder, Entity, Pack, Unpack};

const CKB: u64 = 100_000_000;
const LOCK_GROUP: [u8; 32] = [0x77; 32];

fn lock() -> Script {
    Script { code_hash: [7u8; 32], hash_type: 1, args: vec![9u8; 20] }
}

fn packed_script(s: &Script) -> packed::Script {
    let code_hash: packed::Byte32 = s.code_hash.pack();
    let args: packed::Bytes = s.args.as_slice().pack();
    packed::Script::new_builder().code_hash(code_hash).hash_type(packed::Byte::new(s.hash_type)).args(args).build()
}

fn to_view(tx: &Transaction) -> ckb_types::core::TransactionView {
    let op = |o: &OutPoint| {
        let h: packed::Byte32 = o.tx_hash.pack();
        packed::OutPoint::new(h, o.index)
    };
    ckb_types::core::TransactionBuilder::default()
        .cell_deps(tx.cell_deps.iter().map(|d| packed::CellDep::new_builder().out_point(op(&d.out_point)).dep_type(packed::Byte::new(d.dep_type)).build()))
        .inputs(tx.inputs.iter().map(|o| packed::CellInput::new(op(o), 0)))
        .outputs(tx.outputs.iter().map(|o| {
            let cap: packed::Uint64 = o.capacity.pack();
            let t: packed::ScriptOpt = o.type_.as_ref().map(packed_script).pack();
            packed::CellOutput::new_builder().capacity(cap).lock(packed_script(&o.lock)).type_(t).build()
        }))
        .outputs_data(tx.outputs_data.iter().map(|d| -> packed::Bytes { d.as_slice().pack() }))
        .build()
}

fn ledger_hash(tx: &Transaction) -> [u8; 32] {
    to_view(tx).hash().unpack()
}

fn candidates(n: u8) -> Vec<LiveCellInfo> {
    (0..n)
        .map(|i| LiveCellInfo { tx_hash: [0x40 + i; 32], output_index: 0, data_bytes: 0, has_type: false, capacity: 2000 * CKB, mature: true })
        .collect()
}

fn file_cell(name: &str, type_id: bool) -> Cell {
    Cell { name: name.to_string(), location: CellLocation::File { file: format!("{}.bin", name) }, enable_type_id: type_id }
}

fn genesis() -> Vec<GenesisTx> {
    vec![GenesisTx { hash: LOCK_GROUP, outputs: vec![CellOutput { capacity: 1, lock: lock(), type_: None }], outputs_data: vec![vec![]] }]
}

#[test]
fn transaction_hash_matches_the_ledger() {
    let tx = Transaction {
        cell_deps: vec![CellDep { out_point: OutPoint { tx_hash: [1; 32], index: 2 }, dep_type: 1 }],
        inputs: vec![OutPoint { tx_hash: [3; 32], index: 4 }, OutPoint { tx_hash: [5; 32], index: 0 }],
        outputs: vec![
            CellOutput { capacity: 123, lock: lock(), type_: None },
            CellOutput { capacity: 456, lock: lock(), type_: Some(Script { code_hash: TYPE_ID_CODE_HASH, hash_type: 1, args: vec![8; 32] }) },
        ],
        outputs_data: vec![vec![1, 2, 3], vec![]],
    };
    assert_eq!(encode_raw_tx(&tx).unwrap(), to_view(&tx).data().raw().as_slice().to_vec());
    assert_eq!(tx_hash(&tx).unwrap(), ledger_hash(&tx));
    let empty = Transaction { cell_deps: vec![], inputs: vec![], outputs: vec![], outputs_data: vec![] };
    assert_eq!(tx_hash(&empty).unwrap(), ledger_hash(&empty));
}

/// One cell of 1024 bytes with an identity and one group holding it: the
/// first run builds both transactions, funded and hashed; the second run,
/// against what the first left, builds nothing.
#[test]
fn first_run_then_second_run() {
    let data = vec![0x5au8; 1024];
    let config = Deployment {
        lock: lock(),
        cells: vec![file_cell("X", true)],
        dep_groups: vec![DepGroup { name: "G".to_string(), cells: vec!["X".to_string()] }],
    };
    let cells = vec![(file_cell("X", true), data.clone())];
    let cands = candidates(5);
    let mut process = DeploymentProcess::new(config.clone(), DeploymentRecipe::empty(), 1000);
    let (recipe, baked) = process
        .prepare_recipe(&cells, &vec![], &vec![], &vec![], &vec![], &vec![None], &cands, LOCK_GROUP, &lock(), &genesis())
        .unwrap();
    let cells_tx = baked.cells.clone().unwrap();
    assert_eq!(cells_tx.outputs.len(), 2);
    assert_eq!(cells_tx.outputs_data[1], Vec::<u8>::new());
    assert!(cells_tx.outputs[1].type_.is_none());
    assert_eq!(cells_tx.cell_deps.len(), 1);
    assert_eq!(cells_tx.cell_deps[0].out_point.tx_hash, LOCK_GROUP);
    let cells_hash = ledger_hash(&cells_tx);
    assert_eq!(recipe.cell_recipes.len(), 1);
    assert_eq!(recipe.cell_recipes[0].tx_hash, cells_hash);
    assert_eq!(recipe.cell_recipes[0].index, 0);
    let inputs: u64 = cells_tx.inputs.iter().map(|o| cands.iter().find(|c| c.tx_hash == o.tx_hash).unwrap().capacity).sum();
    let outputs: u64 = cells_tx.outputs.iter().map(|o| o.capacity).sum();
    assert_eq!(inputs, outputs + 1000);

    let groups_tx = baked.dep_groups.clone().unwrap();
    let mut expected = vec![1u8, 0, 0, 0];
    expected.extend_from_slice(&cells_hash);
    expected.extend_from_slice(&[0, 0, 0, 0]);
    assert_eq!(groups_tx.outputs_data[0], expected);
    assert_eq!(groups_tx.outputs.len(), 2);
    assert_eq!(recipe.dep_group_recipes[0].tx_hash, ledger_hash(&groups_tx));
    for i in &groups_tx.inputs {
        assert!(!cells_tx.inputs.contains(i));
    }

    // second run: the ledger holds what the first run deployed
    let cells_pre = vec![("X".to_string(), capsule::transaction::LiveCell { tx_hash: cells_hash, index: 0, capacity: cells_tx.outputs[0].capacity, mature: true }, data.clone())];
    let groups_pre = vec![("G".to_string(), capsule::transaction::LiveCell { tx_hash: recipe.dep_group_recipes[0].tx_hash, index: 0, capacity: groups_tx.outputs[0].capacity, mature: true }, expected)];
    let mut again = DeploymentProcess::new(config, recipe.clone(), 1000);
    let (recipe2, baked2) = again
        .prepare_recipe(&cells, &cells_pre, &groups_pre, &vec![lock()], &vec![lock()], &vec![None], &cands, LOCK_GROUP, &lock(), &genesis())
        .unwrap();
    assert!(baked2.is_empty());
    assert_eq!(recipe2.cell_recipes[0].tx_hash, cells_hash);
    assert_eq!(recipe2.dep_group_recipes[0].tx_hash, recipe.dep_group_recipes[0].tx_hash);
    assert!(again.collector.locked_cells.is_empty());
}

#[test]
fn undeclared_records_are_carried_forward() {
    let old = CellRecipe { name: "Old".to_string(), tx_hash: [0x33; 32], index: 2, occupied_capacity: 5, data_hash: [0; 32], type_id: None };
    let config = Deployment { lock: lock(), cells: vec![], dep_groups: vec![] };
    let prior = DeploymentRecipe { cell_recipes: vec![old.clone()], dep_group_recipes: vec![] };
    let mut process = DeploymentProcess::new(config, prior, 1000);
    let (recipes, tx) = process.build_cells_recipe(&vec![], &vec![], &vec![], &candidates(2), LOCK_GROUP, &lock()).unwrap();
    assert!(tx.is_none());
    assert_eq!(recipes.len(), 1);
    assert_eq!(recipes[0].name, "Old");
    assert_eq!(recipes[0].tx_hash, [0x33; 32]);
}

#[test]
fn missing_funds_leave_nothing_reserved() {
    let config = Deployment { lock: lock(), cells: vec![file_cell("X", false)], dep_groups: vec![] };
    let mut process = DeploymentProcess::new(config, DeploymentRecipe::empty(), 1000);
    let small = vec![LiveCellInfo { tx_hash: [1; 32], output_index: 0, data_bytes: 0, has_type: false, capacity: 10 * CKB, mature: true }];
    let r = process.build_cells_recipe(&vec![(file_cell("X", false), vec![0; 100])], &vec![], &vec![None], &small, LOCK_GROUP, &lock());
    assert_eq!(r.unwrap_err(), DeployError::InsufficientCapacity);
    assert!(process.collector.locked_cells.is_empty());
}

#[test]
fn unresolved_member_names_itself_and_its_group() {
    let config = Deployment {
        lock: lock(),
        cells: vec![],
        dep_groups: vec![DepGroup { name: "G".to_string(), cells: vec!["Nope".to_string()] }],
    };
    let mut process = DeploymentProcess::new(config, DeploymentRecipe::empty(), 1000);
    let r = process.prepare_recipe(&vec![], &vec![], &vec![], &vec![], &vec![], &vec![], &candidates(3), LOCK_GROUP, &lock(), &genesis());
    assert_eq!(r.unwrap_err(), DeployError::UnresolvedCell { cell: "Nope".to_string(), group: "G".to_string() });
    assert!(process.collector.locked_cells.is_empty());
}

#[test]
fn data_hash_matches_the_ledger() {
    for d in [vec![], vec![1u8, 2, 3], vec![0u8; 1000]] {
        let ours = capsule::codec::data_hash(&d);
        let theirs: [u8; 32] = packed::CellOutput::calc_data_hash(&d).unpack();
        assert_eq!(ours, theirs);
    }
}

#[test]
fn foreign_lock_on_a_prior_cell_fails_first() {
    let config = Deployment { lock: lock(), cells: vec![file_cell("X", false)], dep_groups: vec![] };
    let mut process = DeploymentProcess::new(config, DeploymentRecipe::empty(), 1000);
    let pre = vec![("X".to_string(), capsule::transaction::LiveCell { tx_hash: [1; 32], index: 0, capacity: 1, mature: true }, vec![1])];
    let other = Script { code_hash: [8u8; 32], hash_type: 1, args: vec![1u8; 20] };
    let r = process.prepare_recipe(&vec![(file_cell("X", false), vec![2])], &pre, &vec![], &vec![other], &vec![], &vec![None], &candidates(3), LOCK_GROUP, &lock(), &genesis());
    assert_eq!(r.unwrap_err(), DeployError::LockMismatch { name: "X".to_string() });
    assert!(process.collector.locked_cells.is_empty());
}

#[test]
fn short_funding_fails_before_signing() {
    let config = Deployment { lock: lock(), cells: vec![file_cell("X", true)], dep_groups: vec![] };
    let mut process = DeploymentProcess::new(config, DeploymentRecipe::empty(), 1000);
    // one candidate only: it seeds the transaction, and nothing is left to fund it
    let r = process.prepare_recipe(&vec![(file_cell("X", true), vec![0; 1024])], &vec![], &vec![], &vec![], &vec![], &vec![None], &candidates(1), LOCK_GROUP, &lock(), &genesis());
    assert_eq!(r.unwrap_err(), DeployError::InsufficientCapacity);
    let r = process.prepare_recipe(&vec![(file_cell("X", true), vec![0; 1024])], &vec![], &vec![], &vec![], &vec![], &vec![None], &vec![], LOCK_GROUP, &lock(), &genesis());
    assert_eq!(r.unwrap_err(), DeployError::InsufficientCapacity);
    assert!(process.collector.locked_cells.is_empty());
}

#[test]
fn unknown_dependency_fails_the_check() {
    let config = Deployment { lock: lock(), cells: vec![file_cell("X", false)], dep_groups: vec![] };
    let mut process = DeploymentProcess::new(config, DeploymentRecipe::empty(), 1000);
    let r = process.prepare_recipe(&vec![(file_cell("X", false), vec![0; 10])], &vec![], &vec![], &vec![], &vec![], &vec![None], &candidates(3), [0x99; 32], &lock(), &genesis());
    assert_eq!(r.unwrap_err(), DeployError::MissingCode);
    assert!(process.collector.locked_cells.is_empty());
}
