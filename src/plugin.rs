use vstd::prelude::*;

verus! {

#[verifier::external_type_specification]
#[verifier::external_body]
pub struct ExLevelFilter(log::LevelFilter);

/// The name under which the host runtime identifies itself to plugins.
pub const RUNTIME_NAME: &'static str = "neuron-rt";

/// The version string that the host runtime reports to plugins.
pub const RUNTIME_VERSION: &'static str = "0.1.0";

/// The read-only identity of the host, handed to a plugin when it is loaded.
pub struct PluginLoadingContext {
    pub runtime_name: &'static str,
    pub runtime_version: &'static str,
}

impl PluginLoadingContext {
    /// The context that the host runtime builds for every load.
    pub open spec fn is_host_context(&self) -> bool {
        &&& self.runtime_name@ == RUNTIME_NAME@
        &&& self.runtime_version@ == RUNTIME_VERSION@
    }

    pub fn name(&self) -> (r: &'static str)
        ensures
            r@ == self.runtime_name@,
    {
        self.runtime_name
    }

    pub fn version_string(&self) -> (r: &'static str)
        ensures
            r@ == self.runtime_version@,
    {
        self.runtime_version
    }
}

/// The capability object that a plugin hands to the host.
///
/// The three spec functions describe an implementation for proofs. They have
/// no executable form, so an implementation written outside verified code
/// (a plugin built elsewhere and reached through a trait object) cannot give
/// them; for it they stay unspecified, and what is proved of generic
/// capability objects holds of it only as far as it keeps this contract.
pub trait Plugin {
    /// The name the plugin reports for itself.
    closed spec fn own_name(&self) -> Seq<char> {
        arbitrary()
    }

    /// Whether what the plugin's `load` sets up is in place.
    closed spec fn is_loaded(&self) -> bool {
        arbitrary()
    }

    /// Whether what the plugin's `load` set up has been released.
    closed spec fn is_unloaded(&self) -> bool {
        arbitrary()
    }

    /// Called when the host moves the plugin from unloaded to loaded.
    fn load(&mut self, loading_context: PluginLoadingContext)
        requires
            loading_context.is_host_context(),
        ensures
            final(self).is_loaded(),
    ;

    /// Called when the host moves the plugin from loaded to unloaded.
    fn unload(&mut self)
        ensures
            final(self).is_unloaded(),
    ;

    /// The plugin's own name, under which the host registers it.
    fn name(&self) -> (r: &'static str)
        ensures
            r@ == self.own_name(),
    ;
}

/// Owns a type-erased capability object while it crosses the library boundary.
pub struct PluginContainer(pub Box<dyn Plugin>);

/// Parameters handed to a plugin's entry point when it is created. The
/// host's logger sink is a `&'static dyn log::Log`, a trait object that
/// verified code cannot hold; the host passes it beside this context across
/// the boundary, and the plugin side installs it before `generic_setup`.
pub struct PluginCreationContext {
    pub log_level: log::LevelFilter,
}

/// Relies on log::set_max_level: sets the process-wide log threshold.
#[verifier::external_body]
fn apply_max_level(level: log::LevelFilter) {
    log::set_max_level(level)
}

impl PluginCreationContext {
    /// Applies the host's log-level threshold inside the plugin.
    pub fn generic_setup(&self) {
        apply_max_level(self.log_level)
    }
}

/// What a plugin's entry symbol does once it is called with a creation
/// context: it applies the host's setup, runs the plugin author's factory and
/// hands over the boxed capability object it made, which the symbol then
/// passes on as a `PluginContainer`. A missing context or a failing factory
/// is fatal, and is left to the exported symbol.
pub fn plugin_entry<P: Plugin + 'static, E: std::fmt::Debug, F>(
    creation_context: &PluginCreationContext,
    factory: F,
) -> (r: Box<P>) where F: FnOnce(&PluginCreationContext) -> Result<P, E>,

    requires
        factory.requires((creation_context,)),
        forall|made: Result<P, E>| factory.ensures((creation_context,), made) ==> made is Ok,
    ensures
        factory.ensures((creation_context,), Ok::<P, E>(*r)),
{
    creation_context.generic_setup();
    let made = factory(creation_context);
    let plugin = made.unwrap();
    Box::new(plugin)
}

/// The sample plugin. It keeps no state: loading and unloading it set up
/// and release nothing.
pub struct MyPlugin {}

impl Plugin for MyPlugin {
    open spec fn own_name(&self) -> Seq<char> {
        "sample_plugin"@
    }

    open spec fn is_loaded(&self) -> bool {
        true
    }

    open spec fn is_unloaded(&self) -> bool {
        true
    }

    fn load(&mut self, _loading_context: PluginLoadingContext) {
    }

    fn unload(&mut self) {
    }

    fn name(&self) -> (r: &'static str) {
        "sample_plugin"
    }
}

} // verus!
