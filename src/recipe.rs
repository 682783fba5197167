//! What a deployment recorded: where each cell and dependency group stands.
use vstd::prelude::*;

verus! {

/// A deployed cell: its name, where it stands and what it holds.
#[derive(Clone, Debug)]
pub struct CellRecipe {
    pub name: String,
    pub tx_hash: [u8; 32],
    pub index: u32,
    pub occupied_capacity: u64,
    pub data_hash: [u8; 32],
    pub type_id: Option<[u8; 32]>,
}

pub ghost struct CellRecipeModel {
    pub name: Seq<char>,
    pub tx_hash: Seq<u8>,
    pub index: u32,
    pub occupied_capacity: u64,
    pub data_hash: Seq<u8>,
    pub type_id: Option<Seq<u8>>,
}

pub open spec fn opt_hash_view(h: Option<[u8; 32]>) -> Option<Seq<u8>> {
    match h {
        Some(x) => Some(x@),
        None => None,
    }
}

impl View for CellRecipe {
    type V = CellRecipeModel;

    open spec fn view(&self) -> CellRecipeModel {
        CellRecipeModel {
            name: self.name@,
            tx_hash: self.tx_hash@,
            index: self.index,
            occupied_capacity: self.occupied_capacity,
            data_hash: self.data_hash@,
            type_id: opt_hash_view(self.type_id),
        }
    }
}

impl CellRecipe {
    /// A copy of this record.
    pub fn duplicate(&self) -> (r: CellRecipe)
        ensures
            r@ == self@,
    {
        CellRecipe {
            name: self.name.clone(),
            tx_hash: self.tx_hash,
            index: self.index,
            occupied_capacity: self.occupied_capacity,
            data_hash: self.data_hash,
            type_id: self.type_id,
        }
    }
}

/// A deployed dependency group.
#[derive(Clone, Debug)]
pub struct DepGroupRecipe {
    pub name: String,
    pub tx_hash: [u8; 32],
    pub index: u32,
    pub occupied_capacity: u64,
}

pub ghost struct DepGroupRecipeModel {
    pub name: Seq<char>,
    pub tx_hash: Seq<u8>,
    pub index: u32,
    pub occupied_capacity: u64,
}

impl View for DepGroupRecipe {
    type V = DepGroupRecipeModel;

    open spec fn view(&self) -> DepGroupRecipeModel {
        DepGroupRecipeModel {
            name: self.name@,
            tx_hash: self.tx_hash@,
            index: self.index,
            occupied_capacity: self.occupied_capacity,
        }
    }
}

impl DepGroupRecipe {
    /// A copy of this record.
    pub fn duplicate(&self) -> (r: DepGroupRecipe)
        ensures
            r@ == self@,
    {
        DepGroupRecipe {
            name: self.name.clone(),
            tx_hash: self.tx_hash,
            index: self.index,
            occupied_capacity: self.occupied_capacity,
        }
    }
}

/// The full record of a deployment.
#[derive(Clone, Debug)]
pub struct DeploymentRecipe {
    pub cell_recipes: Vec<CellRecipe>,
    pub dep_group_recipes: Vec<DepGroupRecipe>,
}

impl DeploymentRecipe {
    /// The record of a target where nothing was deployed yet.
    pub fn empty() -> (r: DeploymentRecipe)
        ensures
            r.cell_recipes@.len() == 0,
            r.dep_group_recipes@.len() == 0,
    {
        DeploymentRecipe { cell_recipes: Vec::new(), dep_group_recipes: Vec::new() }
    }
}

pub open spec fn cell_views(v: Seq<CellRecipe>) -> Seq<CellRecipeModel> {
    v.map_values(|r: CellRecipe| r@)
}

pub open spec fn group_views(v: Seq<DepGroupRecipe>) -> Seq<DepGroupRecipeModel> {
    v.map_values(|r: DepGroupRecipe| r@)
}

/// The position of the first record from `i` on named `name`, or -1.
pub open spec fn find_cell_from(recipes: Seq<CellRecipeModel>, name: Seq<char>, i: int) -> int
    decreases recipes.len() - i,
{
    if i < 0 || i >= recipes.len() {
        -1
    } else if recipes[i].name == name {
        i
    } else {
        find_cell_from(recipes, name, i + 1)
    }
}

/// The position of the first cell record named `name`, or -1.
pub open spec fn find_cell(recipes: Seq<CellRecipeModel>, name: Seq<char>) -> int {
    find_cell_from(recipes, name, 0)
}

/// The position of the first record from `i` on named `name`, or -1.
pub open spec fn find_group_from(recipes: Seq<DepGroupRecipeModel>, name: Seq<char>, i: int) -> int
    decreases recipes.len() - i,
{
    if i < 0 || i >= recipes.len() {
        -1
    } else if recipes[i].name == name {
        i
    } else {
        find_group_from(recipes, name, i + 1)
    }
}

/// The position of the first group record named `name`, or -1.
pub open spec fn find_group(recipes: Seq<DepGroupRecipeModel>, name: Seq<char>) -> int {
    find_group_from(recipes, name, 0)
}

pub proof fn lemma_find_cell_range(recipes: Seq<CellRecipeModel>, name: Seq<char>, i: int)
    requires
        0 <= i,
    ensures
        find_cell_from(recipes, name, i) == -1 || (i <= find_cell_from(recipes, name, i) < recipes.len()
            && recipes[find_cell_from(recipes, name, i)].name == name),
    decreases recipes.len() - i,
{
    if i < recipes.len() && recipes[i].name != name {
        lemma_find_cell_range(recipes, name, i + 1);
    }
}

/// The position of the first record of `recipes` named `name`.
pub fn find_cell_recipe(recipes: &Vec<CellRecipe>, name: &String) -> (r: Option<usize>)
    ensures
        r is None <==> find_cell(cell_views(recipes@), name@) == -1,
        r is Some ==> r->0 as int == find_cell(cell_views(recipes@), name@),
        r is Some ==> r->0 < recipes@.len() && recipes@[r->0 as int].name@ == name@,
{
    let ghost views = cell_views(recipes@);
    let mut i: usize = 0;
    while i < recipes.len()
        invariant
            i <= recipes@.len(),
            views == cell_views(recipes@),
            find_cell(views, name@) == find_cell_from(views, name@, i as int),
        decreases recipes@.len() - i,
    {
        if recipes[i].name == *name {
            return Some(i);
        }
        i = i + 1;
    }
    None
}

/// The position of the first record of `recipes` named `name`.
pub fn find_group_recipe(recipes: &Vec<DepGroupRecipe>, name: &String) -> (r: Option<usize>)
    ensures
        r is None <==> find_group(group_views(recipes@), name@) == -1,
        r is Some ==> r->0 as int == find_group(group_views(recipes@), name@),
        r is Some ==> r->0 < recipes@.len() && recipes@[r->0 as int].name@ == name@,
{
    let ghost views = group_views(recipes@);
    let mut i: usize = 0;
    while i < recipes.len()
        invariant
            i <= recipes@.len(),
            views == group_views(recipes@),
            find_group(views, name@) == find_group_from(views, name@, i as int),
        decreases recipes@.len() - i,
    {
        if recipes[i].name == *name {
            return Some(i);
        }
        i = i + 1;
    }
    None
}

} // verus!
