use vstd::prelude::*;

use crate::manifest::{
    is_first_existing, none_exists, AppPluginsSpecification, PluginSpecification,
};
use crate::plugin::{Plugin, PluginLoadingContext, RUNTIME_NAME, RUNTIME_VERSION};

verus! {

#[verifier::external_type_specification]
#[verifier::external_body]
pub struct ExLibloadingError(libloading::Error);

/// Lifecycle state of a registered plugin.
#[derive(Debug, Copy, Clone, PartialEq, Eq, Structural)]
pub enum PluginState {
    Unloaded,
    Loaded,
}

/// Why a plugin could not be registered.
pub enum PluginConstructionError {
    /// The platform loader rejected the library or its entry symbol.
    LibraryLoadingError(libloading::Error),
    /// None of the candidate paths exists.
    NoValidLibraryPath,
    /// A plugin with this name is registered already; the registry keeps it.
    AlreadyRegistered(String),
}

/// What the registry records of one plugin: its name, its assets path, its
/// state, and how often the host has called its `load` and `unload`.
pub ghost struct PluginRecord {
    pub name: Seq<char>,
    pub assets_path: Seq<char>,
    pub state: PluginState,
    pub loads: nat,
    pub unloads: nat,
}

/// A fresh registry entry.
pub open spec fn fresh_record(name: Seq<char>, assets_path: Seq<char>) -> PluginRecord {
    PluginRecord { name, assets_path, state: PluginState::Unloaded, loads: 0, unloads: 0 }
}

/// An entry after a load request: an unloaded plugin is loaded once.
pub open spec fn loaded(e: PluginRecord) -> PluginRecord {
    if e.state == PluginState::Loaded {
        e
    } else {
        PluginRecord { state: PluginState::Loaded, loads: e.loads + 1, ..e }
    }
}

/// An entry after an unload request: a loaded plugin is unloaded once.
pub open spec fn unloaded(e: PluginRecord) -> PluginRecord {
    if e.state == PluginState::Unloaded {
        e
    } else {
        PluginRecord { state: PluginState::Unloaded, unloads: e.unloads + 1, ..e }
    }
}

pub open spec fn has_name(s: Seq<PluginRecord>, name: Seq<char>) -> bool {
    exists|i: int| 0 <= i < s.len() && s[i].name == name
}

pub open spec fn names_unique(s: Seq<PluginRecord>) -> bool {
    forall|i: int, j: int| 0 <= i < s.len() && 0 <= j < s.len() && i != j ==> s[i].name != s[j].name
}

/// The registry after `load` of `name`.
pub open spec fn load_spec(s: Seq<PluginRecord>, name: Seq<char>) -> Seq<PluginRecord> {
    s.map_values(|e: PluginRecord| if e.name == name { loaded(e) } else { e })
}

/// The registry after `unload` of `name`.
pub open spec fn unload_spec(s: Seq<PluginRecord>, name: Seq<char>) -> Seq<PluginRecord> {
    s.map_values(|e: PluginRecord| if e.name == name { unloaded(e) } else { e })
}

/// The registry after `load_all`.
pub open spec fn load_all_spec(s: Seq<PluginRecord>) -> Seq<PluginRecord> {
    s.map_values(|e: PluginRecord| loaded(e))
}

/// The registry after `unload_all`.
pub open spec fn unload_all_spec(s: Seq<PluginRecord>) -> Seq<PluginRecord> {
    s.map_values(|e: PluginRecord| unloaded(e))
}

/// The capability objects after the host loaded the chosen entries: the
/// object of each chosen entry that was unloaded has been through its own
/// `load`, so what that sets up is in place; every other object is unchanged.
pub open spec fn plugins_loaded<P: Plugin>(
    records: Seq<PluginRecord>,
    before: Seq<P>,
    after: Seq<P>,
    chosen: spec_fn(PluginRecord) -> bool,
) -> bool {
    &&& after.len() == before.len()
    &&& forall|i: int|
        0 <= i < before.len() ==> if chosen(records[i]) && records[i].state
            == PluginState::Unloaded {
            (#[trigger] after[i]).is_loaded()
        } else {
            after[i] == before[i]
        }
}

/// The capability objects after the host unloaded the chosen entries: the
/// object of each chosen entry that was loaded has been through its own
/// `unload`, so what its `load` set up is released; every other object is
/// unchanged.
pub open spec fn plugins_unloaded<P: Plugin>(
    records: Seq<PluginRecord>,
    before: Seq<P>,
    after: Seq<P>,
    chosen: spec_fn(PluginRecord) -> bool,
) -> bool {
    &&& after.len() == before.len()
    &&& forall|i: int|
        0 <= i < before.len() ==> if chosen(records[i]) && records[i].state
            == PluginState::Loaded {
            (#[trigger] after[i]).is_unloaded()
        } else {
            after[i] == before[i]
        }
}

/// What registering the outcome of opening a plugin library does: an opening
/// failure is reported and changes nothing; an opened plugin is added, with
/// its capability object, under its own name, unless that name is taken.
pub open spec fn registration<P: Plugin, H>(
    before: Seq<PluginRecord>,
    after: Seq<PluginRecord>,
    before_plugins: Seq<P>,
    after_plugins: Seq<P>,
    opened: Result<(P, H), libloading::Error>,
    assets_path: Seq<char>,
    r: Result<String, PluginConstructionError>,
) -> bool {
    match opened {
        Err(e) => {
            &&& r matches Err(PluginConstructionError::LibraryLoadingError(e2))
            &&& e2 == e
            &&& after == before
            &&& after_plugins == before_plugins
        },
        Ok((p, _)) => if has_name(before, p.own_name()) {
            &&& r matches Err(PluginConstructionError::AlreadyRegistered(n))
            &&& n@ == p.own_name()
            &&& after == before
            &&& after_plugins == before_plugins
        } else {
            &&& r matches Ok(n)
            &&& n@ == p.own_name()
            &&& after == before.push(fresh_record(p.own_name(), assets_path))
            &&& after_plugins == before_plugins.push(p)
        },
    }
}

/// Entry `k` of a registry came from `spec`: one of its candidate paths
/// exists, and opening the first that does gave the capability object stored
/// at `k`, registered fresh under that object's own name.
pub open spec fn entry_constructed<P: Plugin, H, F: FnOnce(String) -> Result<(P, H), libloading::Error>>(
    records: Seq<PluginRecord>,
    plugins: Seq<P>,
    k: int,
    exists: Seq<bool>,
    spec: PluginSpecification,
    open: F,
) -> bool {
    &&& records[k] == fresh_record(records[k].name, spec.assets_path@)
    &&& !none_exists(exists)
    &&& forall|i: int|
        is_first_existing(exists, i) ==> exists|p: P, h: H|
            {
                &&& #[trigger] open.ensures((spec.binary_path@[i],), Ok((p, h)))
                &&& p.own_name() == records[k].name
                &&& plugins[k] == p
            }
}

/// A registered plugin. The capability object is declared before the library
/// handle, so that it is dropped first.
pub struct LoadedPlugin<P, H> {
    plugin: P,
    name: String,
    assets_path: String,
    /// Kept open for as long as the capability object lives.
    #[allow(dead_code)]
    binary: H,
    state: PluginState,
    loads: Ghost<nat>,
    unloads: Ghost<nat>,
}

impl<P, H> View for LoadedPlugin<P, H> {
    type V = PluginRecord;

    closed spec fn view(&self) -> PluginRecord {
        PluginRecord {
            name: self.name@,
            assets_path: self.assets_path@,
            state: self.state,
            loads: self.loads@,
            unloads: self.unloads@,
        }
    }
}

/// The plugin registry: it owns every capability object and library handle
/// it has registered, under unique names, in order of registration.
pub struct Runtime<P, H> {
    plugin_registry: Vec<LoadedPlugin<P, H>>,
}

impl<P, H> View for Runtime<P, H> {
    type V = Seq<PluginRecord>;

    closed spec fn view(&self) -> Seq<PluginRecord> {
        self.plugin_registry@.map_values(|e: LoadedPlugin<P, H>| e@)
    }
}

impl<P: Plugin, H> Runtime<P, H> {
    pub open spec fn wf(&self) -> bool {
        &&& names_unique(self@)
        &&& self.plugins().len() == self@.len()
    }

    /// The capability objects, in the order of the registry's entries.
    pub closed spec fn plugins(&self) -> Seq<P> {
        self.plugin_registry@.map_values(|e: LoadedPlugin<P, H>| e.plugin)
    }

    pub fn new() -> (r: Self)
        ensures
            r.wf(),
            r@ == Seq::<PluginRecord>::empty(),
    {
        let r = Runtime { plugin_registry: Vec::new() };
        assert(r@ =~= Seq::<PluginRecord>::empty());
        r
    }

    /// The name the host reports to plugins.
    pub fn name(&self) -> (r: &'static str)
        ensures
            r@ == RUNTIME_NAME@,
    {
        RUNTIME_NAME
    }

    /// The version string the host reports to plugins.
    pub fn version_string(&self) -> (r: &'static str)
        ensures
            r@ == RUNTIME_VERSION@,
            r@.len() > 0,
    {
        proof {
            reveal_strlit("0.1.0");
        }
        RUNTIME_VERSION
    }

    /// The context handed to a plugin's `load`.
    fn loading_context(&self) -> (r: PluginLoadingContext)
        ensures
            r.is_host_context(),
    {
        PluginLoadingContext { runtime_name: self.name(), runtime_version: self.version_string() }
    }

    /// Position of the entry registered under `name`.
    fn find(&self, name: &String) -> (r: Option<usize>)
        ensures
            r is None <==> !has_name(self@, name@),
            r matches Some(i) ==> i < self@.len() && self@[i as int].name == name@,
    {
        let mut i: usize = 0;
        while i < self.plugin_registry.len()
            invariant
                0 <= i <= self.plugin_registry.len(),
                forall|j: int| 0 <= j < i ==> self@[j].name != name@,
            decreases self.plugin_registry.len() - i,
        {
            if self.plugin_registry[i].name == *name {
                return Some(i);
            }
            i = i + 1;
        }
        None
    }

    /// Adds the plugin that opening a library produced, as a fresh unloaded
    /// entry under the plugin's own name, with the given assets path.
    pub fn register_plugin(
        &mut self,
        opened: Result<(P, H), libloading::Error>,
        assets_path: String,
    ) -> (r: Result<String, PluginConstructionError>)
        requires
            old(self).wf(),
        ensures
            final(self).wf(),
            registration(
                old(self)@,
                final(self)@,
                old(self).plugins(),
                final(self).plugins(),
                opened,
                assets_path@,
                r,
            ),
    {
        match opened {
            Err(e) => Err(PluginConstructionError::LibraryLoadingError(e)),
            Ok((plugin, binary)) => {
                let name = plugin.name().to_owned();
                let entry = LoadedPlugin {
                    plugin,
                    name: name.clone(),
                    assets_path,
                    binary,
                    state: PluginState::Unloaded,
                    loads: Ghost(0),
                    unloads: Ghost(0),
                };
                match self.find(&name) {
                    Some(_) => Err(PluginConstructionError::AlreadyRegistered(name)),
                    None => {
                        let ghost before = self@;
                        let ghost before_plugins = self.plugins();
                        self.plugin_registry.push(entry);
                        assert(self@ =~= before.push(fresh_record(name@, entry@.assets_path)));
                        assert(self.plugins() =~= before_plugins.push(entry.plugin));
                        Ok(name)
                    },
                }
            },
        }
    }

    /// Registers the plugin described by `spec`. `exists` tells for each
    /// candidate path whether it exists; `open` opens the library at the
    /// selected path and creates its capability object.
    pub fn construct_plugin<F>(
        &mut self,
        spec: PluginSpecification,
        exists: &Vec<bool>,
        open: F,
    ) -> (r: Result<String, PluginConstructionError>) where
        F: FnOnce(String) -> Result<(P, H), libloading::Error>,

        requires
            old(self).wf(),
            exists.len() == spec.binary_path.len(),
            forall|p: String| open.requires((p,)),
        ensures
            final(self).wf(),
            r is Err ==> final(self)@ == old(self)@ && final(self).plugins() == old(self).plugins(),
            r matches Ok(n) ==> {
                &&& !has_name(old(self)@, n@)
                &&& final(self)@ == old(self)@.push(fresh_record(n@, spec.assets_path@))
                &&& exists|i: int| is_first_existing(exists@, i)
            },
            none_exists(exists@) ==> {
                &&& r matches Err(PluginConstructionError::NoValidLibraryPath)
                &&& final(self)@ == old(self)@
            },
            forall|i: int|
                is_first_existing(exists@, i) ==> exists|o: Result<(P, H), libloading::Error>|
                    {
                        &&& open.ensures((spec.binary_path@[i],), o)
                        &&& registration(
                            old(self)@,
                            final(self)@,
                            old(self).plugins(),
                            final(self).plugins(),
                            o,
                            spec.assets_path@,
                            r,
                        )
                    },
    {
        match spec.select_binary_path(exists) {
            None => Err(PluginConstructionError::NoValidLibraryPath),
            Some(i) => {
                let path = spec.binary_path[i].clone();
                let opened = open(path);
                self.register_plugin(opened, spec.assets_path)
            },
        }
    }

    /// Registers every plugin of the manifest, in its order, and stops at the
    /// first failure. `exists` tells, for each manifest entry and each of its
    /// candidate paths, whether the path exists.
    pub fn construct_all<F>(
        &mut self,
        all_spec: AppPluginsSpecification,
        exists: &Vec<Vec<bool>>,
        open: F,
    ) -> (r: Result<(), PluginConstructionError>) where
        F: Fn(String) -> Result<(P, H), libloading::Error>,

        requires
            old(self).wf(),
            exists.len() == all_spec.plugins.len(),
            forall|k: int|
                0 <= k < exists.len() ==> (#[trigger] exists@[k])@.len()
                    == all_spec.plugins@[k].1.binary_path.len(),
            forall|p: String| open.requires((p,)),
        ensures
            final(self).wf(),
            old(self)@.len() <= final(self)@.len() <= old(self)@.len() + all_spec.plugins.len(),
            final(self)@.subrange(0, old(self)@.len() as int) == old(self)@,
            final(self).plugins().subrange(0, old(self)@.len() as int) == old(self).plugins(),
            forall|k: int|
                #![trigger final(self)@[k]]
                old(self)@.len() <= k < final(self)@.len() ==> entry_constructed(
                    final(self)@,
                    final(self).plugins(),
                    k,
                    exists@[k - old(self)@.len()]@,
                    all_spec.plugins@[k - old(self)@.len()].1,
                    open,
                ),
            r is Ok <==> final(self)@.len() == old(self)@.len() + all_spec.plugins.len(),
            r is Err ==> {
                let m = final(self)@.len() - old(self)@.len();
                let failed = all_spec.plugins@[m].1;
                &&& none_exists(exists@[m]@) ==> (r matches Err(
                    PluginConstructionError::NoValidLibraryPath,
                ))
                &&& forall|i: int|
                    is_first_existing(exists@[m]@, i) ==> exists|
                        o: Result<(P, H), libloading::Error>,
                    |
                        {
                            &&& open.ensures((failed.binary_path@[i],), o)
                            &&& registration(
                                final(self)@,
                                final(self)@,
                                final(self).plugins(),
                                final(self).plugins(),
                                o,
                                failed.assets_path@,
                                Err(r->Err_0),
                            )
                        }
            },
    {
        let ghost before = self@;
        let ghost before_plugins = self.plugins();
        let ghost entries = all_spec.plugins@;
        let mut plugins = all_spec.plugins;
        let n = plugins.len();
        let mut k: usize = 0;
        while k < n
            invariant
                0 <= k <= n,
                n == entries.len(),
                n == exists.len(),
                before == old(self)@,
                entries == all_spec.plugins@,
                plugins@ == entries.subrange(k as int, n as int),
                forall|j: int|
                    0 <= j < exists.len() ==> (#[trigger] exists@[j])@.len()
                        == entries[j].1.binary_path.len(),
                forall|p: String| open.requires((p,)),
                self.wf(),
                before_plugins == old(self).plugins(),
                self@.len() == before.len() + k,
                self@.subrange(0, before.len() as int) == before,
                self.plugins().subrange(0, before.len() as int) == before_plugins,
                forall|j: int|
                    before.len() <= j < self@.len() ==> #[trigger] entry_constructed(
                        self@,
                        self.plugins(),
                        j,
                        exists@[j - before.len()]@,
                        entries[j - before.len()].1,
                        open,
                    ),
            decreases n - k,
        {
            let (_declared_name, spec) = plugins.remove(0);
            assert(plugins@ =~= entries.subrange(k + 1, n as int));
            let ghost prev = self@;
            let ghost prev_plugins = self.plugins();
            let ghost declared = spec;
            match self.construct_plugin(spec, &exists[k], &open) {
                Err(e) => {
                    return Err(e);
                },
                Ok(n) => {
                    assert(self@.subrange(0, before.len() as int) =~= before) by {
                        assert(prev.subrange(0, before.len() as int) == before);
                    }
                    assert(self.plugins().subrange(0, before.len() as int) =~= before_plugins) by {
                        assert(prev_plugins.subrange(0, before.len() as int) == before_plugins);
                    }
                    assert forall|j: int| before.len() <= j < self@.len() implies #[trigger] entry_constructed(
                        self@,
                        self.plugins(),
                        j,
                        exists@[j - before.len()]@,
                        entries[j - before.len()].1,
                        open,
                    ) by {
                        if j < prev.len() {
                            assert(entry_constructed(
                                prev,
                                prev_plugins,
                                j,
                                exists@[j - before.len()]@,
                                entries[j - before.len()].1,
                                open,
                            ));
                            assert(self@[j] == prev[j]);
                        } else {
                            assert(declared == entries[k as int].1);
                            let fi = choose|fi: int| is_first_existing(exists@[k as int]@, fi);
                            let o = choose|o: Result<(P, H), libloading::Error>|
                                {
                                    &&& open.ensures((declared.binary_path@[fi],), o)
                                    &&& registration(
                                        prev,
                                        self@,
                                        prev_plugins,
                                        self.plugins(),
                                        o,
                                        declared.assets_path@,
                                        Ok(n),
                                    )
                                };
                            let p = o->Ok_0.0;
                            let h = o->Ok_0.1;
                            assert(o == Ok::<(P, H), libloading::Error>((p, h)));
                            assert forall|i: int| is_first_existing(exists@[k as int]@, i) implies exists|p2: P, h2: H|
                                {
                                    &&& #[trigger] open.ensures((declared.binary_path@[i],), Ok((p2, h2)))
                                    &&& p2.own_name() == self@[j].name
                                    &&& self.plugins()[j] == p2
                                } by {
                                assert(i == fi);
                                assert(open.ensures((declared.binary_path@[i],), Ok((p, h))));
                            }
                        }
                    }
                },
            }
            k = k + 1;
        }
        Ok(())
    }

    /// Loads the plugin registered under `plugin_name`, unless it is loaded
    /// already. Returns whether the name is registered.
    pub fn load_plugin(&mut self, plugin_name: &str) -> (r: bool)
        requires
            old(self).wf(),
        ensures
            final(self).wf(),
            r == has_name(old(self)@, plugin_name@),
            final(self)@ == load_spec(old(self)@, plugin_name@),
            plugins_loaded(
                old(self)@,
                old(self).plugins(),
                final(self).plugins(),
                |e: PluginRecord| e.name == plugin_name@,
            ),
    {
        let name = plugin_name.to_owned();
        let ghost before = self@;
        let ghost before_plugins = self.plugins();
        match self.find(&name) {
            None => {
                assert(self@ =~= load_spec(before, name@));
                false
            },
            Some(i) => {
                if self.plugin_registry[i].state == PluginState::Unloaded {
                    let context = self.loading_context();
                    let entry = &mut self.plugin_registry[i];
                    entry.plugin.load(context);
                    entry.state = PluginState::Loaded;
                    entry.loads = Ghost(entry.loads@ + 1);
                }
                assert forall|j: int| 0 <= j < before.len() && j != i implies self.plugins()[j]
                    == before_plugins[j] by {
                    assert(before[j].name != name@);
                }
                assert(self@ =~= load_spec(before, name@));
                true
            },
        }
    }

    /// Unloads the plugin registered under `plugin_name`, unless it is
    /// unloaded already. Returns whether the name is registered.
    pub fn unload_plugin(&mut self, plugin_name: &str) -> (r: bool)
        requires
            old(self).wf(),
        ensures
            final(self).wf(),
            r == has_name(old(self)@, plugin_name@),
            final(self)@ == unload_spec(old(self)@, plugin_name@),
            plugins_unloaded(
                old(self)@,
                old(self).plugins(),
                final(self).plugins(),
                |e: PluginRecord| e.name == plugin_name@,
            ),
    {
        let name = plugin_name.to_owned();
        let ghost before = self@;
        let ghost before_plugins = self.plugins();
        match self.find(&name) {
            None => {
                assert(self@ =~= unload_spec(before, name@));
                false
            },
            Some(i) => {
                if self.plugin_registry[i].state == PluginState::Loaded {
                    let entry = &mut self.plugin_registry[i];
                    entry.plugin.unload();
                    entry.state = PluginState::Unloaded;
                    entry.unloads = Ghost(entry.unloads@ + 1);
                }
                assert forall|j: int| 0 <= j < before.len() && j != i implies self.plugins()[j]
                    == before_plugins[j] by {
                    assert(before[j].name != name@);
                }
                assert(self@ =~= unload_spec(before, name@));
                true
            },
        }
    }

    /// Loads every unloaded plugin, in registration order.
    pub fn load_all(&mut self)
        requires
            old(self).wf(),
        ensures
            final(self).wf(),
            final(self)@ == load_all_spec(old(self)@),
            plugins_loaded(old(self)@, old(self).plugins(), final(self).plugins(), |e: PluginRecord| true),
    {
        let ghost before = self@;
        let ghost before_plugins = self.plugins();
        let n = self.plugin_registry.len();
        let mut i: usize = 0;
        while i < n
            invariant
                0 <= i <= n,
                n == before.len(),
                self@.len() == n,
                forall|j: int| 0 <= j < i ==> self@[j] == loaded(before[j]),
                forall|j: int| i <= j < n ==> self@[j] == before[j],
                self.plugins().len() == n,
                forall|j: int|
                    0 <= j < i && before[j].state == PluginState::Unloaded ==> self.plugins()[j].is_loaded(),
                forall|j: int|
                    0 <= j < i && before[j].state != PluginState::Unloaded ==> #[trigger] self.plugins()[j]
                        == before_plugins[j],
                forall|j: int| i <= j < n ==> self.plugins()[j] == before_plugins[j],
            decreases n - i,
        {
            let ghost prev = self.plugin_registry@;
            let ghost prev_view = self@;
            let ghost prev_plugins = self.plugins();
            if self.plugin_registry[i].state == PluginState::Unloaded {
                let context = self.loading_context();
                let entry = &mut self.plugin_registry[i];
                entry.plugin.load(context);
                entry.state = PluginState::Loaded;
                entry.loads = Ghost(entry.loads@ + 1);
                assert(self.plugins()[i as int] == self.plugin_registry@[i as int].plugin);
                assert(self.plugins()[i as int].is_loaded());
                assert(prev_view[i as int] == before[i as int]);
                assert(before[i as int].state == PluginState::Unloaded);
            } else {
                assert(self.plugin_registry@ == prev);
                assert(self.plugins()[i as int] == before_plugins[i as int]);
                assert(prev_view[i as int] == before[i as int]);
                assert(before[i as int].state != PluginState::Unloaded);
            }
            assert forall|j: int| 0 <= j < n && j != i implies self@[j] == prev_view[j]
                && self.plugins()[j] == prev_plugins[j] by {
                assert(self.plugin_registry@[j] == prev[j]);
            }
            assert forall|j: int| 0 <= j < i + 1 implies self@[j] == loaded(before[j]) by {
                if j != i {
                    assert(self@[j] == prev_view[j]);
                }
            }
            assert forall|j: int| 0 <= j < i + 1 implies if before[j].state == PluginState::Unloaded {
                self.plugins()[j].is_loaded()
            } else {
                self.plugins()[j] == before_plugins[j]
            } by {
                if j != i {
                    assert(self.plugins()[j] == prev_plugins[j]);
                    assert(if before[j].state == PluginState::Unloaded {
                        prev_plugins[j].is_loaded()
                    } else {
                        prev_plugins[j] == before_plugins[j]
                    });
                }
            }
            i = i + 1;
        }
        assert(self@ =~= load_all_spec(before));
    }

    /// Unloads every loaded plugin, in registration order.
    pub fn unload_all(&mut self)
        requires
            old(self).wf(),
        ensures
            final(self).wf(),
            final(self)@ == unload_all_spec(old(self)@),
            plugins_unloaded(old(self)@, old(self).plugins(), final(self).plugins(), |e: PluginRecord| true),
    {
        let ghost before = self@;
        let ghost before_plugins = self.plugins();
        let n = self.plugin_registry.len();
        let mut i: usize = 0;
        while i < n
            invariant
                0 <= i <= n,
                n == before.len(),
                self@.len() == n,
                forall|j: int| 0 <= j < i ==> self@[j] == unloaded(before[j]),
                forall|j: int| i <= j < n ==> self@[j] == before[j],
                self.plugins().len() == n,
                forall|j: int|
                    0 <= j < i && before[j].state == PluginState::Loaded ==> self.plugins()[j].is_unloaded(),
                forall|j: int|
                    0 <= j < i && before[j].state != PluginState::Loaded ==> #[trigger] self.plugins()[j]
                        == before_plugins[j],
                forall|j: int| i <= j < n ==> self.plugins()[j] == before_plugins[j],
            decreases n - i,
        {
            let ghost prev = self.plugin_registry@;
            let ghost prev_view = self@;
            let ghost prev_plugins = self.plugins();
            if self.plugin_registry[i].state == PluginState::Loaded {
                let entry = &mut self.plugin_registry[i];
                entry.plugin.unload();
                entry.state = PluginState::Unloaded;
                entry.unloads = Ghost(entry.unloads@ + 1);
                assert(self.plugins()[i as int] == self.plugin_registry@[i as int].plugin);
                assert(self.plugins()[i as int].is_unloaded());
                assert(prev_view[i as int] == before[i as int]);
                assert(before[i as int].state == PluginState::Loaded);
            } else {
                assert(self.plugin_registry@ == prev);
                assert(self.plugins()[i as int] == before_plugins[i as int]);
                assert(prev_view[i as int] == before[i as int]);
                assert(before[i as int].state != PluginState::Loaded);
            }
            assert forall|j: int| 0 <= j < n && j != i implies self@[j] == prev_view[j]
                && self.plugins()[j] == prev_plugins[j] by {
                assert(self.plugin_registry@[j] == prev[j]);
            }
            assert forall|j: int| 0 <= j < i + 1 implies self@[j] == unloaded(before[j]) by {
                if j != i {
                    assert(self@[j] == prev_view[j]);
                }
            }
            assert forall|j: int| 0 <= j < i + 1 implies if before[j].state == PluginState::Loaded {
                self.plugins()[j].is_unloaded()
            } else {
                self.plugins()[j] == before_plugins[j]
            } by {
                if j != i {
                    assert(self.plugins()[j] == prev_plugins[j]);
                    assert(if before[j].state == PluginState::Loaded {
                        prev_plugins[j].is_unloaded()
                    } else {
                        prev_plugins[j] == before_plugins[j]
                    });
                }
            }
            i = i + 1;
        }
        assert(self@ =~= unload_all_spec(before));
    }

    /// The capability object registered under `plugin_name`.
    pub fn lookup(&self, plugin_name: &str) -> (r: Option<&P>)
        ensures
            r is Some <==> has_name(self@, plugin_name@),
            r matches Some(p) ==> exists|i: int|
                0 <= i < self@.len() && self@[i].name == plugin_name@ && *p == self.plugins()[i],
    {
        let name = plugin_name.to_owned();
        match self.find(&name) {
            None => None,
            Some(i) => {
                assert(self.plugins()[i as int] == self.plugin_registry@[i as int].plugin);
                Some(&self.plugin_registry[i].plugin)
            },
        }
    }

    /// The lifecycle state of the plugin registered under `plugin_name`.
    pub fn plugin_state(&self, plugin_name: &str) -> (r: Option<PluginState>)
        ensures
            r is None <==> !has_name(self@, plugin_name@),
            r matches Some(st) ==> exists|i: int|
                0 <= i < self@.len() && self@[i].name == plugin_name@ && self@[i].state == st,
    {
        let name = plugin_name.to_owned();
        match self.find(&name) {
            None => None,
            Some(i) => Some(self.plugin_registry[i].state),
        }
    }
    /// The assets path of the plugin registered under `plugin_name`.
    pub fn assets_path(&self, plugin_name: &str) -> (r: Option<&String>)
        ensures
            r is None <==> !has_name(self@, plugin_name@),
            r matches Some(a) ==> exists|i: int|
                0 <= i < self@.len() && self@[i].name == plugin_name@ && self@[i].assets_path
                    == a@,
    {
        let name = plugin_name.to_owned();
        match self.find(&name) {
            None => None,
            Some(i) => Some(&self.plugin_registry[i].assets_path),
        }
    }
}

} // verus!
