use std::sync::atomic::{AtomicUsize, Ordering};
use std::sync::Arc;

use rswebpack::dispatch::Dispatch;
use rswebpack::driver::{
    ApplyContext, CompilerHooks, JsHooksAdapterPlugin, Plugin, PluginDriver, RegisterJsTaps,
};
use rswebpack::hook::{Hook, Interceptor, Tap};
use rswebpack::order::{execution_order, used_stages};
use rswebpack::register::{query_needed, RegisterFunction, RegisterJsTapsCache, RegisterTaps};
use rswebpack::registry::{kinds_contain, NonSkippableRegisters, RegisterJsTapKind};

#[derive(Clone)]
struct Recorder {
    label: &'static str,
    stage: i32,
    decide: Option<i32>,
    fail: bool,
    explode: bool,
}

fn rec(label: &'static str, stage: i32) -> Recorder {
    Recorder { label, stage, decide: None, fail: false, explode: false }
}

impl Tap<Vec<String>, i32, String> for Recorder {
    fn stage(&self) -> i32 {
        self.stage
    }

    fn run(&self, ctx: &mut Vec<String>) -> Result<Option<i32>, String> {
        if self.explode {
            panic!("this tap must not run");
        }
        ctx.push(self.label.to_string());
        if self.fail {
            return Err(format!("{} failed", self.label));
        }
        Ok(self.decide)
    }
}

struct Supply(Vec<Recorder>);

impl Interceptor<Recorder, String> for Supply {
    fn call_blocking(&self, _hook: &Hook<Recorder, Self>) -> Result<Vec<Recorder>, String> {
        Ok(self.0.clone())
    }
}

#[derive(Clone)]
struct Counting {
    calls: Arc<AtomicUsize>,
    failures_left: Arc<AtomicUsize>,
    seen_stages: Arc<std::sync::Mutex<Vec<Vec<i32>>>>,
}

fn counting(failures: usize) -> Counting {
    Counting {
        calls: Arc::new(AtomicUsize::new(0)),
        failures_left: Arc::new(AtomicUsize::new(failures)),
        seen_stages: Arc::new(std::sync::Mutex::new(Vec::new())),
    }
}

impl RegisterFunction<Recorder, String> for Counting {
    fn call_blocking(&self, stages: &Vec<i32>) -> Result<Vec<Recorder>, String> {
        self.calls.fetch_add(1, Ordering::SeqCst);
        self.seen_stages.lock().unwrap().push(stages.clone());
        if self.failures_left.load(Ordering::SeqCst) > 0 {
            self.failures_left.fetch_sub(1, Ordering::SeqCst);
            return Err("host threw".to_string());
        }
        Ok(vec![rec("host", 2)])
    }
}

#[test]
fn it_works() {}

#[test]
fn ties_put_static_taps_first() {
    let mut hook: Hook<Recorder, Supply> = Hook::new();
    hook.tap(rec("static 5", 5));
    hook.tap(rec("static 1", 1));
    hook.tap(rec("static 3", 3));
    hook.intercept(Supply(vec![rec("supplied 1", 1)]));
    let mut ctx: Vec<String> = Vec::new();
    let r = hook.call_blocking(&mut ctx);
    assert_eq!(r, Ok(None));
    assert_eq!(ctx, vec!["static 1", "supplied 1", "static 3", "static 5"]);
}

#[test]
fn first_decision_ends_the_call() {
    let mut hook: Hook<Recorder, Supply> = Hook::new();
    hook.tap(rec("first", 0));
    let mut second = rec("second", 0);
    second.decide = Some(42);
    hook.tap(second);
    let mut third = rec("third", 0);
    third.explode = true;
    hook.tap(third);
    let mut ctx: Vec<String> = Vec::new();
    assert_eq!(hook.call_blocking(&mut ctx), Ok(Some(42)));
    assert_eq!(ctx, vec!["first", "second"]);
}

#[test]
fn tap_error_aborts_the_call() {
    let mut hook: Hook<Recorder, Supply> = Hook::new();
    let mut bad = rec("bad", 1);
    bad.fail = true;
    hook.tap(bad);
    let mut later = rec("later", 2);
    later.explode = true;
    hook.tap(later);
    let mut ctx: Vec<String> = Vec::new();
    assert_eq!(hook.call_blocking(&mut ctx), Err("bad failed".to_string()));
}

#[test]
fn empty_hook_returns_none() {
    let hook: Hook<Recorder, Supply> = Hook::new();
    let mut ctx: Vec<String> = Vec::new();
    assert_eq!(hook.call_blocking(&mut ctx), Ok(None));
    assert!(ctx.is_empty());
}

#[test]
fn execution_order_is_stable_by_stage() {
    assert_eq!(execution_order(&vec![5, 1, 3, 1]), vec![1, 3, 2, 0]);
    assert_eq!(execution_order(&vec![]), Vec::<usize>::new());
    assert_eq!(execution_order(&vec![2, 2, 2]), vec![0, 1, 2]);
    assert_eq!(execution_order(&vec![i32::MAX, i32::MIN, 0]), vec![1, 2, 0]);
}

#[test]
fn used_stages_are_distinct_and_ascending() {
    assert_eq!(used_stages(&vec![5, 1, 1, 3]), vec![1, 3, 5]);
    assert_eq!(used_stages(&vec![]), Vec::<i32>::new());
    let mut hook: Hook<Recorder, Supply> = Hook::new();
    hook.tap(rec("a", 7));
    hook.tap(rec("b", -2));
    hook.tap(rec("c", 7));
    assert_eq!(hook.used_stages(), vec![-2, 7]);
    assert_eq!(hook.tap_stages(), &vec![7, -2, 7]);
    assert_eq!(hook.plan(&vec![-2]), vec![1, 3, 0, 2]);
}

#[test]
fn dispatch_stops_at_first_decision() {
    let mut d: Dispatch<i32, String> = Dispatch::new(vec![2, 0, 1]);
    assert_eq!(d.next_tap(), Some(2));
    assert_eq!(d.record(Ok(None)), None);
    assert_eq!(d.next_tap(), Some(0));
    assert_eq!(d.record(Ok(Some(7))), Some(Ok(Some(7))));
    assert_eq!(d.next_tap(), None);
}

#[test]
fn dispatch_runs_out_after_all_pass() {
    let mut d: Dispatch<i32, String> = Dispatch::new(vec![0]);
    assert_eq!(d.record(Ok(None)), None);
    assert_eq!(d.next_tap(), None);
    let mut e: Dispatch<i32, String> = Dispatch::new(vec![1, 0]);
    assert_eq!(e.record(Err("x".to_string())), Some(Err("x".to_string())));
    assert_eq!(e.next_tap(), None);
}

#[test]
fn skip_elision_leaves_the_host_alone() {
    let register = counting(0);
    let registry = NonSkippableRegisters::new();
    let mut hook: Hook<Recorder, RegisterTaps<Recorder, Counting>> = Hook::new();
    hook.intercept(RegisterTaps::before_run_sync(register.clone(), registry.clone()));
    let mut ctx: Vec<String> = Vec::new();
    assert_eq!(hook.call_blocking(&mut ctx), Ok(None));
    assert_eq!(register.calls.load(Ordering::SeqCst), 0);
    assert!(ctx.is_empty());
}

#[test]
fn non_skippable_kind_is_always_looked_up() {
    let register = counting(0);
    let registry = NonSkippableRegisters::new();
    let mut hook: Hook<Recorder, RegisterTaps<Recorder, Counting>> = Hook::new();
    hook.intercept(RegisterTaps::before_run_sync(register.clone(), registry.clone()));
    registry.set_non_skippable_registers(vec![RegisterJsTapKind::BeforeRunSync]);
    let mut ctx: Vec<String> = Vec::new();
    assert_eq!(hook.call_blocking(&mut ctx), Ok(None));
    assert_eq!(register.calls.load(Ordering::SeqCst), 1);
    assert_eq!(ctx, vec!["host"]);
    assert_eq!(register.seen_stages.lock().unwrap().clone(), vec![Vec::<i32>::new()]);
}

#[test]
fn used_stages_reach_the_host_sorted() {
    let register = counting(0);
    let registry = NonSkippableRegisters::new();
    let mut hook: Hook<Recorder, RegisterTaps<Recorder, Counting>> = Hook::new();
    hook.tap(rec("late", 9));
    hook.tap(rec("early", 1));
    hook.tap(rec("again", 9));
    hook.intercept(RegisterTaps::before_run_sync(register.clone(), registry));
    let mut ctx: Vec<String> = Vec::new();
    assert_eq!(hook.call_blocking(&mut ctx), Ok(None));
    assert_eq!(register.seen_stages.lock().unwrap().clone(), vec![vec![1, 9]]);
    assert_eq!(ctx, vec!["early", "host", "late", "again"]);
}

#[test]
fn registry_replaces_the_whole_set() {
    let registry = NonSkippableRegisters::new();
    assert!(!registry.is_non_skippable(&RegisterJsTapKind::BeforeRun));
    registry.set_non_skippable_registers(vec![RegisterJsTapKind::BeforeRun]);
    assert!(registry.is_non_skippable(&RegisterJsTapKind::BeforeRun));
    assert!(!registry.is_non_skippable(&RegisterJsTapKind::BeforeRunSync));
    registry.set_non_skippable_registers(vec![RegisterJsTapKind::BeforeRunSync]);
    assert!(!registry.is_non_skippable(&RegisterJsTapKind::BeforeRun));
    assert!(registry.is_non_skippable(&RegisterJsTapKind::BeforeRunSync));
    let shared = registry.clone();
    shared.set_non_skippable_registers(vec![]);
    assert!(!registry.is_non_skippable(&RegisterJsTapKind::BeforeRunSync));
}

#[test]
fn kinds_contain_checks_membership() {
    assert!(kinds_contain(&vec![RegisterJsTapKind::BeforeRun], RegisterJsTapKind::BeforeRun));
    assert!(!kinds_contain(&vec![], RegisterJsTapKind::BeforeRun));
    assert!(!kinds_contain(&vec![RegisterJsTapKind::BeforeRun], RegisterJsTapKind::BeforeRunSync));
}

#[test]
fn query_needed_follows_the_rule() {
    assert!(!query_needed(true, false, &vec![]));
    assert!(query_needed(true, true, &vec![]));
    assert!(query_needed(true, false, &vec![3]));
    assert!(query_needed(false, false, &vec![]));
}

#[test]
fn cache_policy_follows_the_flags() {
    assert!(matches!(RegisterJsTapsCache::<Recorder>::new(false, false), RegisterJsTapsCache::NoCache));
    assert!(matches!(RegisterJsTapsCache::<Recorder>::new(false, true), RegisterJsTapsCache::NoCache));
    assert!(matches!(RegisterJsTapsCache::<Recorder>::new(true, true), RegisterJsTapsCache::SyncCache(_)));
    assert!(matches!(RegisterJsTapsCache::<Recorder>::new(true, false), RegisterJsTapsCache::Cache(_)));
}

fn ask(interceptor: &RegisterTaps<Recorder, Counting>, used: Vec<i32>) -> Result<Vec<Recorder>, String> {
    interceptor.inner.call_register_blocking(interceptor.kind, &used)
}

fn cached_interceptor(register: &Counting) -> RegisterTaps<Recorder, Counting> {
    RegisterTaps::new(RegisterJsTapKind::BeforeRunSync, register.clone(), None, true, true)
}

#[test]
fn cached_lookup_runs_once() {
    let register = counting(0);
    let interceptor = cached_interceptor(&register);
    let first = ask(&interceptor, vec![]).unwrap();
    let second = ask(&interceptor, vec![4]).unwrap();
    assert_eq!(register.calls.load(Ordering::SeqCst), 1);
    assert_eq!(first.len(), 1);
    assert_eq!(second.len(), 1);
    assert_eq!(first[0].label, second[0].label);
    assert_eq!(first[0].stage, second[0].stage);
}

#[test]
fn failed_lookup_is_retried_with_cache() {
    let register = counting(1);
    let interceptor = cached_interceptor(&register);
    assert_eq!(ask(&interceptor, vec![]).err(), Some("host threw".to_string()));
    assert_eq!(ask(&interceptor, vec![]).unwrap().len(), 1);
    assert_eq!(ask(&interceptor, vec![]).unwrap().len(), 1);
    assert_eq!(register.calls.load(Ordering::SeqCst), 2);
}

#[test]
fn failed_lookup_is_retried_without_cache() {
    let register = counting(1);
    let interceptor =
        RegisterTaps::new(RegisterJsTapKind::BeforeRunSync, register.clone(), None, false, true);
    assert_eq!(ask(&interceptor, vec![]).err(), Some("host threw".to_string()));
    assert_eq!(ask(&interceptor, vec![]).unwrap().len(), 1);
    assert_eq!(ask(&interceptor, vec![]).unwrap().len(), 1);
    assert_eq!(register.calls.load(Ordering::SeqCst), 3);
}

#[test]
fn registration_failure_aborts_the_call() {
    let register = counting(1);
    let mut hook: Hook<Recorder, RegisterTaps<Recorder, Counting>> = Hook::new();
    let mut never = rec("never", 0);
    never.explode = true;
    hook.tap(never);
    hook.intercept(RegisterTaps::new(RegisterJsTapKind::BeforeRunSync, register, None, false, true));
    let mut ctx: Vec<String> = Vec::new();
    assert_eq!(hook.call_blocking(&mut ctx), Err("host threw".to_string()));
}

type Hooks = CompilerHooks<Recorder, Supply, Recorder, Supply>;

struct TapPlugin {
    label: &'static str,
    stage: i32,
    fail: bool,
}

impl Plugin<Hooks, String> for TapPlugin {
    fn name(&self) -> &'static str {
        "TapPlugin"
    }

    fn apply(&self, ctx: &mut ApplyContext<Hooks>) -> Result<(), String> {
        if self.fail {
            return Err(format!("{} cannot apply", self.label));
        }
        ctx.compiler_hooks.before_run_sync.tap(rec(self.label, self.stage));
        Ok(())
    }
}

#[test]
fn driver_applies_plugins_in_order() {
    let plugins = vec![
        TapPlugin { label: "one", stage: 0, fail: false },
        TapPlugin { label: "two", stage: 0, fail: false },
    ];
    let driver = PluginDriver::new(plugins, Hooks::new()).unwrap();
    assert_eq!(driver.plugins().len(), 2);
    let hook = &driver.compiler_hooks().before_run_sync;
    let mut first: Vec<String> = Vec::new();
    hook.call_blocking(&mut first).unwrap();
    let mut second: Vec<String> = Vec::new();
    hook.call_blocking(&mut second).unwrap();
    assert_eq!(first, vec!["one", "two"]);
    assert_eq!(first, second);
}

#[test]
fn driver_construction_fails_with_the_plugin() {
    let plugins = vec![
        TapPlugin { label: "one", stage: 0, fail: false },
        TapPlugin { label: "broken", stage: 0, fail: true },
    ];
    let r = PluginDriver::new(plugins, Hooks::new());
    assert_eq!(r.err().map(|e| e), Some("broken cannot apply".to_string()));
}

type BridgedHooks = CompilerHooks<
    Recorder,
    RegisterTaps<Recorder, Counting>,
    Recorder,
    RegisterTaps<Recorder, Counting>,
>;

#[test]
fn adapter_plugin_bridges_both_hooks() {
    let run_register = counting(0);
    let sync_register = counting(0);
    let adapter: JsHooksAdapterPlugin<Recorder, Recorder, Counting, Counting> =
        JsHooksAdapterPlugin::from_js_hooks(RegisterJsTaps {
            register_before_run_taps: run_register.clone(),
            register_before_run_sync_taps: sync_register.clone(),
        });
    assert_eq!(adapter.register_before_run_taps.kind, RegisterJsTapKind::BeforeRun);
    assert_eq!(adapter.register_before_run_sync_taps.kind, RegisterJsTapKind::BeforeRunSync);
    assert_eq!(Plugin::<BridgedHooks, String>::name(&adapter), "rspack.JsHooksAdapterPlugin");
    let driver = PluginDriver::<_, BridgedHooks>::new::<String>(vec![adapter], BridgedHooks::new())
        .unwrap();
    let hooks = driver.compiler_hooks();
    assert_eq!(hooks.before_run.interceptor_list().len(), 1);
    assert_eq!(hooks.before_run_sync.interceptor_list().len(), 1);
    assert!(hooks.before_run_sync.tap_list().is_empty());

    let mut ctx: Vec<String> = Vec::new();
    assert_eq!(hooks.before_run_sync.call_blocking(&mut ctx), Ok(None));
    assert_eq!(sync_register.calls.load(Ordering::SeqCst), 0);

    driver.plugins()[0].set_non_skippable_registers(vec![RegisterJsTapKind::BeforeRunSync]);
    assert_eq!(hooks.before_run_sync.call_blocking(&mut ctx), Ok(None));
    assert_eq!(sync_register.calls.load(Ordering::SeqCst), 1);
    assert_eq!(ctx, vec!["host"]);
    assert_eq!(run_register.calls.load(Ordering::SeqCst), 0);
}

#[test]
fn tap_at_records_the_given_stage() {
    let mut hook: Hook<Recorder, Supply> = Hook::new();
    hook.tap_at(rec("late", 0), 10);
    hook.tap(rec("early", 5));
    assert_eq!(hook.tap_stages(), &vec![10, 5]);
    let mut ctx: Vec<String> = Vec::new();
    assert_eq!(hook.call_blocking(&mut ctx), Ok(None));
    assert_eq!(ctx, vec!["early", "late"]);
}
