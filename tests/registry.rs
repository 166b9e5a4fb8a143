use neuron_runtime::manifest::{AppPluginsSpecification, PluginSpecification};
use neuron_runtime::plugin::{
    plugin_entry, MyPlugin, Plugin, PluginContainer, PluginCreationContext, PluginLoadingContext, RUNTIME_NAME, RUNTIME_VERSION,
};
use neuron_runtime::runtime::{PluginConstructionError, PluginState, Runtime};

struct CountingPlugin {
    name: &'static str,
    loads: usize,
    unloads: usize,
    seen_runtime: Option<(&'static str, &'static str)>,
}

impl CountingPlugin {
    fn new(name: &'static str) -> Self {
        CountingPlugin { name, loads: 0, unloads: 0, seen_runtime: None }
    }
}

impl Plugin for CountingPlugin {
    fn load(&mut self, loading_context: PluginLoadingContext) {
        self.loads += 1;
        self.seen_runtime = Some((loading_context.name(), loading_context.version_string()));
    }

    fn unload(&mut self) {
        self.unloads += 1;
    }

    fn name(&self) -> &'static str {
        self.name
    }
}

type Registry = Runtime<CountingPlugin, ()>;

fn spec(paths: &[&str], assets: &str) -> PluginSpecification {
    PluginSpecification {
        binary_path: paths.iter().map(|p| p.to_string()).collect(),
        assets_path: assets.to_string(),
    }
}

fn registry_with(names: &[&'static str]) -> Registry {
    let mut rt: Registry = Runtime::new();
    for n in names {
        let name: &'static str = n;
        let r = rt.construct_plugin(spec(&["lib.so"], "assets"), &vec![true], move |_p: String| {
            Ok((CountingPlugin::new(name), ()))
        });
        assert_eq!(r.ok(), Some(name.to_string()));
    }
    rt
}

#[test]
fn select_binary_path_picks_first_existing() {
    let s = spec(&["a.so", "b.so", "c.so"], "");
    assert_eq!(s.select_binary_path(&vec![false, true, true]), Some(1));
    assert_eq!(s.select_binary_path(&vec![true, true, false]), Some(0));
    assert_eq!(s.select_binary_path(&vec![false, false, false]), None);
    assert_eq!(spec(&[], "").select_binary_path(&vec![]), None);
}

#[test]
fn construct_with_no_candidate_paths_fails() {
    let mut rt = registry_with(&["kept"]);
    let r = rt.construct_plugin(spec(&[], "x"), &vec![], |_p: String| {
        Ok((CountingPlugin::new("never"), ()))
    });
    assert!(matches!(r, Err(PluginConstructionError::NoValidLibraryPath)));
    assert!(rt.lookup("never").is_none());
    assert_eq!(rt.plugin_state("kept"), Some(PluginState::Unloaded));
}

#[test]
fn construct_with_missing_entry_symbol_fails() {
    let mut rt = registry_with(&["kept"]);
    let r = rt.construct_plugin(spec(&["gone.so", "nosym.so"], ""), &vec![false, true], |p: String| {
        assert_eq!(p, "nosym.so");
        Err::<(CountingPlugin, ()), _>(libloading::Error::DlSymUnknown)
    });
    assert!(matches!(
        r,
        Err(PluginConstructionError::LibraryLoadingError(libloading::Error::DlSymUnknown))
    ));
    assert_eq!(rt.plugin_state("kept"), Some(PluginState::Unloaded));
    assert!(rt.lookup("nosym").is_none());
}

#[test]
fn construct_opens_the_selected_path() {
    let mut rt: Registry = Runtime::new();
    let r = rt.construct_plugin(spec(&["a.so", "b.so"], "res"), &vec![false, true], |p: String| {
        assert_eq!(p, "b.so");
        Ok((CountingPlugin::new("bee"), ()))
    });
    assert_eq!(r.ok(), Some("bee".to_string()));
    assert_eq!(rt.plugin_state("bee"), Some(PluginState::Unloaded));
}

#[test]
fn construct_rejects_a_taken_name() {
    let mut rt = registry_with(&["dup"]);
    assert!(rt.load_plugin("dup"));
    let r = rt.construct_plugin(spec(&["x.so"], ""), &vec![true], |_p: String| {
        Ok((CountingPlugin::new("dup"), ()))
    });
    match r {
        Err(PluginConstructionError::AlreadyRegistered(n)) => assert_eq!(n, "dup"),
        _ => panic!("expected a name collision"),
    }
    assert_eq!(rt.plugin_state("dup"), Some(PluginState::Loaded));
    assert_eq!(rt.lookup("dup").unwrap().loads, 1);
}

#[test]
fn load_twice_calls_load_once() {
    let mut rt = registry_with(&["a"]);
    assert!(rt.load_plugin("a"));
    assert!(rt.load_plugin("a"));
    assert_eq!(rt.plugin_state("a"), Some(PluginState::Loaded));
    assert_eq!(rt.lookup("a").unwrap().loads, 1);
}

#[test]
fn unload_twice_calls_unload_once() {
    let mut rt = registry_with(&["a"]);
    assert!(rt.load_plugin("a"));
    assert!(rt.unload_plugin("a"));
    assert!(rt.unload_plugin("a"));
    assert_eq!(rt.plugin_state("a"), Some(PluginState::Unloaded));
    assert_eq!(rt.lookup("a").unwrap().unloads, 1);
    assert!(rt.unload_plugin("a"));
    assert_eq!(rt.lookup("a").unwrap().unloads, 1);
}

#[test]
fn load_all_then_unload_all() {
    let mut rt = registry_with(&["a", "b", "c"]);
    assert!(rt.load_plugin("b"));
    rt.load_all();
    for n in ["a", "b", "c"] {
        assert_eq!(rt.plugin_state(n), Some(PluginState::Loaded));
        assert_eq!(rt.lookup(n).unwrap().loads, 1);
    }
    rt.unload_all();
    for n in ["a", "b", "c"] {
        assert_eq!(rt.plugin_state(n), Some(PluginState::Unloaded));
        assert_eq!(rt.lookup(n).unwrap().loads, 1);
        assert_eq!(rt.lookup(n).unwrap().unloads, 1);
    }
}

#[test]
fn unknown_name_is_reported() {
    let mut rt = registry_with(&["a"]);
    assert!(!rt.load_plugin("zzz"));
    assert!(!rt.unload_plugin("zzz"));
    assert!(rt.lookup("zzz").is_none());
    assert!(rt.plugin_state("zzz").is_none());
    assert_eq!(rt.plugin_state("a"), Some(PluginState::Unloaded));
    assert_eq!(rt.lookup("a").unwrap().loads, 0);
    let mut empty: Registry = Runtime::new();
    assert!(!empty.load_plugin("a"));
    assert!(empty.lookup("a").is_none());
}

#[test]
fn manifest_with_missing_library_fails() {
    let mut rt: Registry = Runtime::new();
    let manifest = AppPluginsSpecification {
        plugins: vec![("demo".to_string(), spec(&["./nonexistent.so"], ""))],
    };
    let r = rt.construct_all(manifest, &vec![vec![false]], |_p: String| {
        Ok((CountingPlugin::new("demo"), ()))
    });
    assert!(matches!(r, Err(PluginConstructionError::NoValidLibraryPath)));
    assert!(rt.lookup("demo").is_none());
}

#[test]
fn manifest_stops_at_first_failure() {
    let mut rt: Registry = Runtime::new();
    let manifest = AppPluginsSpecification {
        plugins: vec![
            ("one".to_string(), spec(&["one.so"], "")),
            ("two".to_string(), spec(&["two.so"], "")),
            ("three".to_string(), spec(&["three.so"], "")),
        ],
    };
    let r = rt.construct_all(manifest, &vec![vec![true], vec![false], vec![true]], |p: String| {
        if p == "one.so" {
            Ok((CountingPlugin::new("one"), ()))
        } else {
            Ok((CountingPlugin::new("three"), ()))
        }
    });
    assert!(matches!(r, Err(PluginConstructionError::NoValidLibraryPath)));
    assert!(rt.lookup("one").is_some());
    assert!(rt.lookup("three").is_none());
}

#[test]
fn manifest_with_valid_plugin_round_trip() {
    let mut rt: Registry = Runtime::new();
    let manifest = AppPluginsSpecification {
        plugins: vec![("declared".to_string(), spec(&["./libsample.so"], "assets/sample"))],
    };
    let r = rt.construct_all(manifest, &vec![vec![true]], |_p: String| {
        Ok((CountingPlugin::new("sample"), ()))
    });
    assert!(r.is_ok());
    assert!(rt.lookup("declared").is_none());
    assert!(rt.load_plugin("sample"));
    let seen = rt.lookup("sample").unwrap().seen_runtime.unwrap();
    assert_eq!(seen.0, "neuron-rt");
    assert_eq!(seen.0, rt.name());
    assert!(!seen.1.is_empty());
    assert!(rt.unload_plugin("sample"));
    assert!(rt.lookup("sample").is_some());
    assert_eq!(rt.plugin_state("sample"), Some(PluginState::Unloaded));
}

#[test]
fn sample_plugin_lifecycle() {
    let mut rt: Runtime<MyPlugin, ()> = Runtime::new();
    let r = rt.construct_plugin(spec(&["libsample.so"], ""), &vec![true], |_p: String| {
        Ok((MyPlugin {}, ()))
    });
    assert_eq!(r.ok(), Some("sample_plugin".to_string()));
    assert_eq!(rt.lookup("sample_plugin").unwrap().name(), "sample_plugin");
    assert!(rt.load_plugin("sample_plugin"));
    assert_eq!(rt.plugin_state("sample_plugin"), Some(PluginState::Loaded));
    assert!(rt.unload_plugin("sample_plugin"));
    assert_eq!(rt.plugin_state("sample_plugin"), Some(PluginState::Unloaded));
}

#[test]
fn runtime_identity() {
    let rt: Registry = Runtime::new();
    assert_eq!(rt.name(), "neuron-rt");
    assert_eq!(rt.name(), RUNTIME_NAME);
    assert_eq!(rt.version_string(), RUNTIME_VERSION);
    assert_eq!(rt.version_string(), "0.1.0");
}

#[test]
fn generic_setup_applies_level() {
    let ctx = PluginCreationContext { log_level: log::LevelFilter::Warn };
    ctx.generic_setup();
    assert_eq!(log::max_level(), log::LevelFilter::Warn);
}

#[test]
fn assets_path_is_kept_per_plugin() {
    let mut rt: Registry = Runtime::new();
    let r = rt.construct_plugin(spec(&["p.so"], "assets/p"), &vec![true], |_p: String| {
        Ok((CountingPlugin::new("p"), ()))
    });
    assert!(r.is_ok());
    assert_eq!(rt.assets_path("p").map(|a| a.as_str()), Some("assets/p"));
    assert!(rt.assets_path("q").is_none());
    let manifest = AppPluginsSpecification {
        plugins: vec![
            ("x".to_string(), spec(&["x.so"], "ax")),
            ("y".to_string(), spec(&["y0.so", "y1.so"], "ay")),
        ],
    };
    let r = rt.construct_all(manifest, &vec![vec![true], vec![false, true]], |p: String| {
        if p == "x.so" {
            Ok((CountingPlugin::new("x"), ()))
        } else {
            assert_eq!(p, "y1.so");
            Ok((CountingPlugin::new("y"), ()))
        }
    });
    assert!(r.is_ok());
    assert_eq!(rt.assets_path("x").map(|a| a.as_str()), Some("ax"));
    assert_eq!(rt.assets_path("y").map(|a| a.as_str()), Some("ay"));
    assert_eq!(rt.plugin_state("y"), Some(PluginState::Unloaded));
}

#[test]
fn entry_hands_over_the_created_plugin() {
    let ctx = PluginCreationContext { log_level: log::LevelFilter::Warn };
    let made = plugin_entry(&ctx, |_c: &PluginCreationContext| {
        Ok::<CountingPlugin, String>(CountingPlugin::new("made"))
    });
    let container = PluginContainer(made);
    assert_eq!(container.0.name(), "made");
    assert_eq!(log::max_level(), log::LevelFilter::Warn);
}
