use vstd::prelude::*;

verus! {

/// How to locate one plugin: candidate library paths in priority order, and
/// the directory holding its assets.
pub struct PluginSpecification {
    pub binary_path: Vec<String>,
    pub assets_path: String,
}

/// The declared set of plugins, keyed by the name given in the manifest, in
/// the manifest's iteration order.
pub struct AppPluginsSpecification {
    pub plugins: Vec<(String, PluginSpecification)>,
}

/// `i` is the first position whose candidate path exists.
pub open spec fn is_first_existing(exists: Seq<bool>, i: int) -> bool {
    &&& 0 <= i < exists.len()
    &&& exists[i]
    &&& forall|j: int| 0 <= j < i ==> !exists[j]
}

/// No candidate path exists.
pub open spec fn none_exists(exists: Seq<bool>) -> bool {
    forall|j: int| 0 <= j < exists.len() ==> !exists[j]
}

impl PluginSpecification {
    /// Picks the first candidate path that exists, given for each candidate
    /// whether it exists on the file system.
    pub fn select_binary_path(&self, exists: &Vec<bool>) -> (r: Option<usize>)
        requires
            exists.len() == self.binary_path.len(),
        ensures
            r is None <==> none_exists(exists@),
            r matches Some(i) ==> is_first_existing(exists@, i as int),
    {
        let mut i: usize = 0;
        while i < exists.len()
            invariant
                0 <= i <= exists.len(),
                forall|j: int| 0 <= j < i ==> !exists@[j],
            decreases exists.len() - i,
        {
            if exists[i] {
                return Some(i);
            }
            i = i + 1;
        }
        None
    }
}

} // verus!
