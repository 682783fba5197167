//! The migration history of a deployment target and the steps of one run.
use crate::classify::PreInput;
use crate::deployment_process::DeployError;
use crate::recipe::DeploymentRecipe;
use crate::text::{padded_decimal, push_padded, push_str};
use crate::transaction::LiveCell;
use vstd::prelude::*;

verus! {

/// The name of the record of a run that has not completed.
pub const CURRENT_SNAPSHOT: &'static str = "current.json";

/// Fails where the record of an incomplete run exists: it must be looked at
/// and resolved by hand before any further run.
pub fn check_incomplete_snapshot(current_exists: bool) -> (r: Result<(), DeployError>)
    ensures
        r is Ok <==> !current_exists,
        r is Err ==> r->Err_0 is IncompleteDeployment,
{
    if current_exists {
        Err(DeployError::IncompleteDeployment)
    } else {
        Ok(())
    }
}

/// A moment in UTC, as calendar fields.
#[derive(Clone, Copy, Debug, PartialEq, Eq)]
pub struct SnapshotTime {
    pub year: u32,
    pub month: u8,
    pub day: u8,
    pub hour: u8,
    pub minute: u8,
    pub second: u8,
}

/// The name of the history record completed at `t`: `YYYY-MM-DD-HHMMSS.json`.
pub open spec fn snapshot_name_of(t: SnapshotTime) -> Seq<char> {
    padded_decimal(t.year as nat, 4) + seq!['-'] + padded_decimal(t.month as nat, 2) + seq!['-']
        + padded_decimal(t.day as nat, 2) + seq!['-'] + padded_decimal(t.hour as nat, 2)
        + padded_decimal(t.minute as nat, 2) + padded_decimal(t.second as nat, 2) + ".json"@
}

/// The name of the history record completed at `t`; names sort as the
/// moments they stand for.
pub fn snapshot_name(t: &SnapshotTime) -> (r: String)
    ensures
        r@ == snapshot_name_of(*t),
{
    let mut s = String::new();
    push_padded(&mut s, t.year as u64, 4);
    s.push('-');
    push_padded(&mut s, t.month as u64, 2);
    s.push('-');
    push_padded(&mut s, t.day as u64, 2);
    s.push('-');
    push_padded(&mut s, t.hour as u64, 2);
    push_padded(&mut s, t.minute as u64, 2);
    push_padded(&mut s, t.second as u64, 2);
    push_str(&mut s, ".json");
    s
}

/// What the ledger holds at a recorded out point, where its transaction is
/// still found: the capacity of the output and its data.
pub type FoundOutput = Option<(u64, Vec<u8>)>;

/// The entries for the records whose transaction is still found, in order:
/// `found[k]` is what the ledger holds for the `k`-th record, at
/// `(tx_hash[k], index[k])`.
pub open spec fn found_entries(names: Seq<Seq<char>>, hashes: Seq<[u8; 32]>, indexes: Seq<u32>, found: Seq<FoundOutput>) -> Seq<(Seq<char>, LiveCell, Seq<u8>)>
    decreases found.len(),
{
    if found.len() == 0 {
        Seq::empty()
    } else {
        let k = found.len() - 1;
        let prev = found_entries(names, hashes, indexes, found.drop_last());
        match found[k] {
            Some((cap, data)) => prev.push((
                names[k],
                LiveCell { tx_hash: hashes[k], index: indexes[k], capacity: cap, mature: true },
                data@,
            )),
            None => prev,
        }
    }
}

pub open spec fn pre_views(v: Seq<PreInput>) -> Seq<(Seq<char>, LiveCell, Seq<u8>)> {
    v.map_values(|p: PreInput| (p.0@, p.1, p.2@))
}

/// The live cells of the last deployment's cells and groups, from what the
/// ledger holds at each record. A record whose transaction is no longer
/// found is left out: that is no error.
pub fn collect_migration_live_cells(
    recipe: &DeploymentRecipe,
    cells_found: &Vec<FoundOutput>,
    dep_groups_found: &Vec<FoundOutput>,
) -> (r: (Vec<PreInput>, Vec<PreInput>))
    requires
        cells_found@.len() == recipe.cell_recipes@.len(),
        dep_groups_found@.len() == recipe.dep_group_recipes@.len(),
    ensures
        pre_views(r.0@) == found_entries(
            recipe.cell_recipes@.map_values(|c: crate::recipe::CellRecipe| c.name@),
            recipe.cell_recipes@.map_values(|c: crate::recipe::CellRecipe| c.tx_hash),
            recipe.cell_recipes@.map_values(|c: crate::recipe::CellRecipe| c.index),
            cells_found@,
        ),
        pre_views(r.1@) == found_entries(
            recipe.dep_group_recipes@.map_values(|c: crate::recipe::DepGroupRecipe| c.name@),
            recipe.dep_group_recipes@.map_values(|c: crate::recipe::DepGroupRecipe| c.tx_hash),
            recipe.dep_group_recipes@.map_values(|c: crate::recipe::DepGroupRecipe| c.index),
            dep_groups_found@,
        ),
{
    let ghost cn = recipe.cell_recipes@.map_values(|c: crate::recipe::CellRecipe| c.name@);
    let ghost ch = recipe.cell_recipes@.map_values(|c: crate::recipe::CellRecipe| c.tx_hash);
    let ghost ci = recipe.cell_recipes@.map_values(|c: crate::recipe::CellRecipe| c.index);
    let mut cells: Vec<PreInput> = Vec::new();
    let mut k: usize = 0;
    while k < cells_found.len()
        invariant
            k <= cells_found@.len(),
            cells_found@.len() == recipe.cell_recipes@.len(),
            cn == recipe.cell_recipes@.map_values(|c: crate::recipe::CellRecipe| c.name@),
            ch == recipe.cell_recipes@.map_values(|c: crate::recipe::CellRecipe| c.tx_hash),
            ci == recipe.cell_recipes@.map_values(|c: crate::recipe::CellRecipe| c.index),
            pre_views(cells@) == found_entries(cn, ch, ci, cells_found@.subrange(0, k as int)),
        decreases cells_found@.len() - k,
    {
        let ghost sub = cells_found@.subrange(0, k as int + 1);
        assert(sub.drop_last() == cells_found@.subrange(0, k as int));
        let ghost before = cells@;
        match &cells_found[k] {
            Some((cap, data)) => {
                let r = &recipe.cell_recipes[k];
                let live = LiveCell { tx_hash: r.tx_hash, index: r.index, capacity: *cap, mature: true };
                cells.push((r.name.clone(), live, crate::transaction::copy_bytes(data)));
                assert(pre_views(cells@) == pre_views(before).push((cn[k as int], live, data@)));
            },
            None => {},
        }
        k = k + 1;
    }
    assert(cells_found@.subrange(0, cells_found@.len() as int) == cells_found@);
    let ghost gn = recipe.dep_group_recipes@.map_values(|c: crate::recipe::DepGroupRecipe| c.name@);
    let ghost gh = recipe.dep_group_recipes@.map_values(|c: crate::recipe::DepGroupRecipe| c.tx_hash);
    let ghost gi = recipe.dep_group_recipes@.map_values(|c: crate::recipe::DepGroupRecipe| c.index);
    let mut groups: Vec<PreInput> = Vec::new();
    let mut k: usize = 0;
    while k < dep_groups_found.len()
        invariant
            k <= dep_groups_found@.len(),
            dep_groups_found@.len() == recipe.dep_group_recipes@.len(),
            gn == recipe.dep_group_recipes@.map_values(|c: crate::recipe::DepGroupRecipe| c.name@),
            gh == recipe.dep_group_recipes@.map_values(|c: crate::recipe::DepGroupRecipe| c.tx_hash),
            gi == recipe.dep_group_recipes@.map_values(|c: crate::recipe::DepGroupRecipe| c.index),
            pre_views(groups@) == found_entries(gn, gh, gi, dep_groups_found@.subrange(0, k as int)),
        decreases dep_groups_found@.len() - k,
    {
        let ghost sub = dep_groups_found@.subrange(0, k as int + 1);
        assert(sub.drop_last() == dep_groups_found@.subrange(0, k as int));
        let ghost before = groups@;
        match &dep_groups_found[k] {
            Some((cap, data)) => {
                let r = &recipe.dep_group_recipes[k];
                let live = LiveCell { tx_hash: r.tx_hash, index: r.index, capacity: *cap, mature: true };
                groups.push((r.name.clone(), live, crate::transaction::copy_bytes(data)));
                assert(pre_views(groups@) == pre_views(before).push((gn[k as int], live, data@)));
            },
            None => {},
        }
        k = k + 1;
    }
    assert(dep_groups_found@.subrange(0, dep_groups_found@.len() as int) == dep_groups_found@);
    (cells, groups)
}

/// Where a run stands.
#[derive(Clone, Copy, Debug, PartialEq, Eq, Structural)]
pub enum DeployState {
    Idle,
    Planning,
    PlanBuilt,
    Confirmed,
    SnapshotStarted,
    Broadcasting,
    SnapshotCompleted,
    Aborted,
    Failed,
}

/// What happened since the last step.
#[derive(Clone, Copy, Debug, PartialEq, Eq, Structural)]
pub enum DeployEvent {
    /// The run starts; whether the record of an incomplete run exists.
    Start { incomplete_exists: bool },
    /// The plan was built; whether it holds no transaction.
    Planned { nothing_to_deploy: bool },
    /// The operator answered the confirmation.
    Confirmation { accepted: bool },
    /// The transactions were signed.
    Signed,
    /// The record of the run was written as incomplete.
    SnapshotWritten,
    /// The transactions were sent; whether the ledger accepted them.
    Broadcast { accepted: bool },
    /// The record of the run was moved into the history.
    SnapshotFinalized,
    /// A step failed.
    StepFailed,
}

/// What to do next.
#[derive(Clone, Copy, Debug, PartialEq, Eq, Structural)]
pub enum DeployAction {
    /// Look up the last deployment on the ledger and build the plan.
    BuildPlan,
    /// Show the plan and ask for confirmation.
    Confirm,
    /// Sign the transactions.
    Sign,
    /// Write the record of the run as incomplete, failing if one exists.
    WriteSnapshot,
    /// Send the cells transaction, then the groups transaction.
    Broadcast,
    /// Move the record of the run into the history.
    CompleteSnapshot,
    /// Stop; the run ended as the state says.
    Stop,
    /// Stop with a recovery error: an incomplete run must be resolved first.
    StopIncomplete,
}

/// The next state and action of a run.
pub open spec fn step_spec(state: DeployState, event: DeployEvent) -> (DeployState, DeployAction) {
    match (state, event) {
        (DeployState::Idle, DeployEvent::Start { incomplete_exists }) => if incomplete_exists {
            (DeployState::Failed, DeployAction::StopIncomplete)
        } else {
            (DeployState::Planning, DeployAction::BuildPlan)
        },
        (DeployState::Planning, DeployEvent::Planned { nothing_to_deploy }) => if nothing_to_deploy {
            (DeployState::Aborted, DeployAction::Stop)
        } else {
            (DeployState::PlanBuilt, DeployAction::Confirm)
        },
        (DeployState::PlanBuilt, DeployEvent::Confirmation { accepted }) => if accepted {
            (DeployState::Confirmed, DeployAction::Sign)
        } else {
            (DeployState::Aborted, DeployAction::Stop)
        },
        (DeployState::Confirmed, DeployEvent::Signed) => (DeployState::SnapshotStarted, DeployAction::WriteSnapshot),
        (DeployState::SnapshotStarted, DeployEvent::SnapshotWritten) => (DeployState::Broadcasting, DeployAction::Broadcast),
        (DeployState::Broadcasting, DeployEvent::Broadcast { accepted }) => if accepted {
            (DeployState::Broadcasting, DeployAction::CompleteSnapshot)
        } else {
            (DeployState::Failed, DeployAction::Stop)
        },
        (DeployState::Broadcasting, DeployEvent::SnapshotFinalized) => (DeployState::SnapshotCompleted, DeployAction::Stop),
        _ => (DeployState::Failed, DeployAction::Stop),
    }
}

/// The next state and action of a run. Nothing is ever retried: every
/// failure stops the run, and a failure once the record of the run is
/// written leaves that record in place for the next run to find.
pub fn step(state: DeployState, event: DeployEvent) -> (r: (DeployState, DeployAction))
    ensures
        r == step_spec(state, event),
{
    match (state, event) {
        (DeployState::Idle, DeployEvent::Start { incomplete_exists }) => if incomplete_exists {
            (DeployState::Failed, DeployAction::StopIncomplete)
        } else {
            (DeployState::Planning, DeployAction::BuildPlan)
        },
        (DeployState::Planning, DeployEvent::Planned { nothing_to_deploy }) => if nothing_to_deploy {
            (DeployState::Aborted, DeployAction::Stop)
        } else {
            (DeployState::PlanBuilt, DeployAction::Confirm)
        },
        (DeployState::PlanBuilt, DeployEvent::Confirmation { accepted }) => if accepted {
            (DeployState::Confirmed, DeployAction::Sign)
        } else {
            (DeployState::Aborted, DeployAction::Stop)
        },
        (DeployState::Confirmed, DeployEvent::Signed) => (DeployState::SnapshotStarted, DeployAction::WriteSnapshot),
        (DeployState::SnapshotStarted, DeployEvent::SnapshotWritten) => (DeployState::Broadcasting, DeployAction::Broadcast),
        (DeployState::Broadcasting, DeployEvent::Broadcast { accepted }) => if accepted {
            (DeployState::Broadcasting, DeployAction::CompleteSnapshot)
        } else {
            (DeployState::Failed, DeployAction::Stop)
        },
        (DeployState::Broadcasting, DeployEvent::SnapshotFinalized) => (DeployState::SnapshotCompleted, DeployAction::Stop),
        _ => (DeployState::Failed, DeployAction::Stop),
    }
}

/// `a` sorts before `b`, character by character.
pub open spec fn name_lt(a: Seq<char>, b: Seq<char>) -> bool
    decreases a.len(),
{
    if a.len() == 0 {
        b.len() > 0
    } else if b.len() == 0 {
        false
    } else if a[0] != b[0] {
        (a[0] as int) < (b[0] as int)
    } else {
        name_lt(a.drop_first(), b.drop_first())
    }
}

proof fn lemma_name_lt_irreflexive(a: Seq<char>)
    ensures
        !name_lt(a, a),
    decreases a.len(),
{
    if a.len() > 0 {
        lemma_name_lt_irreflexive(a.drop_first());
    }
}

proof fn lemma_name_lt_transitive(a: Seq<char>, b: Seq<char>, c: Seq<char>)
    requires
        name_lt(a, b),
        name_lt(b, c),
    ensures
        name_lt(a, c),
    decreases a.len(),
{
    if a.len() > 0 && b.len() > 0 && c.len() > 0 && a[0] == b[0] && b[0] == c[0] {
        lemma_name_lt_transitive(a.drop_first(), b.drop_first(), c.drop_first());
    }
}

proof fn lemma_name_lt_total(a: Seq<char>, b: Seq<char>)
    ensures
        name_lt(a, b) || name_lt(b, a) || a == b,
    decreases a.len(),
{
    if a.len() > 0 && b.len() > 0 && a[0] == b[0] {
        lemma_name_lt_total(a.drop_first(), b.drop_first());
        if a.drop_first() == b.drop_first() {
            assert(a =~= seq![a[0]] + a.drop_first());
            assert(b =~= seq![b[0]] + b.drop_first());
        }
    } else if a.len() == 0 && b.len() == 0 {
        assert(a =~= b);
    }
}

/// Whether `a` sorts before `b`.
pub fn name_less(a: &str, b: &str) -> (r: bool)
    ensures
        r == name_lt(a@, b@),
{
    let n = a.unicode_len();
    let m = b.unicode_len();
    let mut i: usize = 0;
    assert(a@.subrange(0, n as int) == a@);
    assert(b@.subrange(0, m as int) == b@);
    while i < n && i < m
        invariant
            i <= n,
            i <= m,
            n == a@.len(),
            m == b@.len(),
            name_lt(a@, b@) == name_lt(a@.subrange(i as int, n as int), b@.subrange(i as int, m as int)),
        decreases n - i,
    {
        let x = a.get_char(i);
        let y = b.get_char(i);
        let ghost sa = a@.subrange(i as int, n as int);
        let ghost sb = b@.subrange(i as int, m as int);
        assert(sa[0] == x && sb[0] == y);
        if x != y {
            return x < y;
        }
        assert(sa.drop_first() == a@.subrange(i as int + 1, n as int));
        assert(sb.drop_first() == b@.subrange(i as int + 1, m as int));
        i = i + 1;
    }
    i == n && i < m
}

/// The position of the name that sorts last, where there is any: history
/// records are named by the moment they were completed, so that is the
/// latest.
pub fn latest_snapshot(names: &Vec<String>) -> (r: Option<usize>)
    ensures
        r is None <==> names@.len() == 0,
        r is Some ==> r->0 < names@.len() && forall|j: int| 0 <= j < names@.len() ==> !name_lt(names@[r->0 as int]@, #[trigger] names@[j]@),
{
    if names.len() == 0 {
        return None;
    }
    let mut best: usize = 0;
    let mut i: usize = 1;
    proof {
        lemma_name_lt_irreflexive(names@[0]@);
    }
    while i < names.len()
        invariant
            1 <= i <= names@.len(),
            best < i,
            forall|j: int| 0 <= j < i ==> !name_lt(names@[best as int]@, #[trigger] names@[j]@),
        decreases names@.len() - i,
    {
        if name_less(names[best].as_str(), names[i].as_str()) {
            let ghost old_best = best;
            proof {
                assert forall|j: int| 0 <= j < i + 1 implies !name_lt(names@[i as int]@, #[trigger] names@[j]@) by {
                    if j == i {
                        lemma_name_lt_irreflexive(names@[j]@);
                    } else {
                        if name_lt(names@[i as int]@, names@[j]@) {
                            lemma_name_lt_transitive(names@[old_best as int]@, names@[i as int]@, names@[j]@);
                        }
                    }
                }
            }
            best = i;
        } else {
            proof {
                lemma_name_lt_total(names@[best as int]@, names@[i as int]@);
            }
        }
        i = i + 1;
    }
    Some(best)
}

} // verus!
