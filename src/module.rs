use vstd::prelude::*;

verus! {

/// A module request resolved to an id and a path.
pub struct Dependency {
    pub dep_module_id: String,
    pub dep_module_path: String,
}

/// A module of the bundle: its id, name, source and dependencies.
pub struct Module {
    pub id: String,
    pub name: String,
    pub dependencies: Vec<Dependency>,
    pub source: String,
}

impl Module {
    /// A module with no source and no dependencies yet.
    pub fn new(id: String, name: String) -> (r: Self)
        ensures
            r.id == id,
            r.name == name,
            r.dependencies@.len() == 0,
            r.source@.len() == 0,
    {
        Module { id, name, dependencies: Vec::new(), source: String::new() }
    }
}

} // verus!
