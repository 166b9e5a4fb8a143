use vstd::prelude::*;

use crate::plugin::{PluginLoadingContext, RUNTIME_NAME, RUNTIME_VERSION};
use crate::runtime::{
    has_name, load_all_spec, load_spec, unload_all_spec, unload_spec, PluginRecord, PluginState,
};

verus! {

/// Loading a plugin twice leaves the registry as loading it once does: the
/// name stays registered, the plugin is loaded, and its `load` has been
/// called once in all if it was unloaded before, and not at all otherwise.
pub proof fn lemma_load_idempotent(s: Seq<PluginRecord>, name: Seq<char>)
    ensures
        load_spec(load_spec(s, name), name) == load_spec(s, name),
        has_name(load_spec(s, name), name) == has_name(s, name),
        forall|i: int|
            0 <= i < s.len() && s[i].name == name ==> {
                let e = #[trigger] load_spec(load_spec(s, name), name)[i];
                &&& e.state == PluginState::Loaded
                &&& e.loads == s[i].loads + if s[i].state == PluginState::Unloaded {
                    1int
                } else {
                    0int
                }
                &&& e.unloads == s[i].unloads
            },
{
    let once = load_spec(s, name);
    assert(load_spec(once, name) =~= once);
    if has_name(s, name) {
        let i = choose|i: int| 0 <= i < s.len() && s[i].name == name;
        assert(once[i].name == name);
    }
    if has_name(once, name) {
        let i = choose|i: int| 0 <= i < once.len() && once[i].name == name;
        assert(s[i].name == name);
    }
}

/// Unloading a plugin twice leaves the registry as unloading it once does:
/// the name stays registered, the plugin is unloaded, and its `unload` has
/// been called once in all if it was loaded before, and not at all otherwise.
pub proof fn lemma_unload_idempotent(s: Seq<PluginRecord>, name: Seq<char>)
    ensures
        unload_spec(unload_spec(s, name), name) == unload_spec(s, name),
        has_name(unload_spec(s, name), name) == has_name(s, name),
        forall|i: int|
            0 <= i < s.len() && s[i].name == name ==> {
                let e = #[trigger] unload_spec(unload_spec(s, name), name)[i];
                &&& e.state == PluginState::Unloaded
                &&& e.unloads == s[i].unloads + if s[i].state == PluginState::Loaded {
                    1int
                } else {
                    0int
                }
                &&& e.loads == s[i].loads
            },
{
    let once = unload_spec(s, name);
    assert(unload_spec(once, name) =~= once);
    if has_name(s, name) {
        let i = choose|i: int| 0 <= i < s.len() && s[i].name == name;
        assert(once[i].name == name);
    }
    if has_name(once, name) {
        let i = choose|i: int| 0 <= i < once.len() && once[i].name == name;
        assert(s[i].name == name);
    }
}

/// Loading all plugins and then unloading all of them leaves every entry
/// unloaded, keeps names and assets paths, and takes every entry that was
/// unloaded before through exactly one `load` and one `unload`.
pub proof fn lemma_load_all_then_unload_all(s: Seq<PluginRecord>)
    ensures
        unload_all_spec(load_all_spec(s)).len() == s.len(),
        forall|i: int|
            0 <= i < s.len() ==> {
                let e = #[trigger] unload_all_spec(load_all_spec(s))[i];
                &&& e.state == PluginState::Unloaded
                &&& e.name == s[i].name
                &&& e.assets_path == s[i].assets_path
                &&& s[i].state == PluginState::Unloaded ==> e.loads == s[i].loads + 1
                    && e.unloads == s[i].unloads + 1
                &&& s[i].state == PluginState::Loaded ==> e.loads == s[i].loads && e.unloads
                    == s[i].unloads + 1
            },
{
}

/// Loading or unloading a name that was never registered changes nothing.
pub proof fn lemma_unknown_name_unchanged(s: Seq<PluginRecord>, name: Seq<char>)
    requires
        !has_name(s, name),
    ensures
        load_spec(s, name) == s,
        unload_spec(s, name) == s,
{
    assert(load_spec(s, name) =~= s);
    assert(unload_spec(s, name) =~= s);
}

/// Every context the host hands to a plugin's `load` names the host as
/// `neuron-rt` and carries a non-empty version string.
pub proof fn lemma_host_context_identity(context: PluginLoadingContext)
    requires
        context.is_host_context(),
    ensures
        context.runtime_name@ == RUNTIME_NAME@,
        context.runtime_name@ == "neuron-rt"@,
        context.runtime_version@.len() > 0,
{
    reveal_strlit("0.1.0");
    reveal_strlit("neuron-rt");
}

} // verus!
