//! What a project declares: its contracts and what it deploys.
use crate::text::{lower_of, lowercase, str_equal};
use crate::transaction::{Script, ScriptModel};
use vstd::prelude::*;

verus! {

/// The kind of template a contract was created from.
#[derive(Clone, Copy, Debug, PartialEq, Eq, Structural, Hash)]
pub enum TemplateType {
    Rust,
    C,
    CSharedLib,
}

/// The template type that a lower-case name stands for.
pub open spec fn template_type_of(l: Seq<char>) -> Option<TemplateType> {
    if l == "rust"@ {
        Some(TemplateType::Rust)
    } else if l == "c"@ {
        Some(TemplateType::C)
    } else if l == "c-sharedlib"@ {
        Some(TemplateType::CSharedLib)
    } else {
        None
    }
}

impl TemplateType {
    /// The template type named by `l`, which is already in lower case.
    pub fn from_lowercase(l: &str) -> (r: Option<TemplateType>)
        ensures
            r == template_type_of(l@),
    {
        if str_equal(l, "rust") {
            Some(TemplateType::Rust)
        } else if str_equal(l, "c") {
            Some(TemplateType::C)
        } else if str_equal(l, "c-sharedlib") {
            Some(TemplateType::CSharedLib)
        } else {
            None
        }
    }

    /// The template type named by `s`, in any case.
    pub fn from_str(s: &str) -> (r: Result<TemplateType, String>)
        ensures
            r is Ok <==> template_type_of(lower_of(s@)) is Some,
            r is Ok ==> r->Ok_0 == template_type_of(lower_of(s@))->0,
    {
        let l = lowercase(s);
        match TemplateType::from_lowercase(l.as_str()) {
            Some(t) => Ok(t),
            None => Err(s.to_owned()),
        }
    }
}

/// A contract of the project.
#[derive(Clone, Debug)]
pub struct Contract {
    pub name: String,
    pub template_type: TemplateType,
}

/// The project's configuration.
#[derive(Clone, Debug)]
pub struct Config {
    pub contracts: Vec<Contract>,
    /// Path of the deployment configuration file.
    pub deployment: String,
    /// Path of the workspace, relative to the project; the project itself where absent.
    pub workspace_dir: Option<String>,
}

/// Where the data of a declared cell comes from.
#[derive(Clone, Debug)]
pub enum CellLocation {
    /// A cell already on the ledger.
    OutPoint { tx_hash: [u8; 32], index: u32 },
    /// A file whose bytes become the cell's data.
    File { file: String },
}

/// A cell to deploy.
#[derive(Clone, Debug)]
pub struct Cell {
    pub name: String,
    pub location: CellLocation,
    pub enable_type_id: bool,
}

/// A dependency group to deploy: the names of the cells it refers to, in order.
#[derive(Clone, Debug)]
pub struct DepGroup {
    pub name: String,
    pub cells: Vec<String>,
}

/// What a deployment declares: the lock of every output, its cells and its groups.
#[derive(Clone, Debug)]
pub struct Deployment {
    pub lock: Script,
    pub cells: Vec<Cell>,
    pub dep_groups: Vec<DepGroup>,
}

/// The positions, in order, of the cells whose data comes from a file.
pub open spec fn deployable_of(cells: Seq<Cell>) -> Seq<int>
    decreases cells.len(),
{
    if cells.len() == 0 {
        Seq::empty()
    } else {
        let prev = deployable_of(cells.drop_last());
        match cells.last().location {
            CellLocation::File { .. } => prev.push(cells.len() - 1),
            CellLocation::OutPoint { .. } => prev,
        }
    }
}

/// The positions of the cells of `cells` whose data is to be loaded from a
/// file; a cell already on the ledger is never deployed again.
pub fn deployable_cells(cells: &Vec<Cell>) -> (r: Vec<usize>)
    ensures
        r@.map_values(|i: usize| i as int) == deployable_of(cells@),
{
    let mut r: Vec<usize> = Vec::new();
    let mut i: usize = 0;
    while i < cells.len()
        invariant
            i <= cells@.len(),
            r@.map_values(|k: usize| k as int) == deployable_of(cells@.subrange(0, i as int)),
        decreases cells@.len() - i,
    {
        let ghost prev = r@;
        proof {
            let pre = cells@.subrange(0, i as int + 1);
            assert(pre.drop_last() == cells@.subrange(0, i as int));
            assert(pre.last() == cells@[i as int]);
        }
        match &cells[i].location {
            CellLocation::File { .. } => {
                r.push(i);
                assert(r@.map_values(|k: usize| k as int) == prev.map_values(|k: usize| k as int).push(i as int));
            },
            CellLocation::OutPoint { .. } => {},
        }
        i = i + 1;
    }
    assert(cells@.subrange(0, cells@.len() as int) == cells@);
    r
}

impl std::str::FromStr for TemplateType {
    type Err = String;

    fn from_str(s: &str) -> Result<TemplateType, String> {
        TemplateType::from_str(s)
    }
}

} // verus!
