use minder::input_box::{Key, KeyCode};
use minder::input_watcher::{clear_echoed_buffer, InputWatcher};
use minder::loop_mode::{
    remaining_todos, todo_steps, LoopError, LoopNext, LoopOptions, LoopState, DEFAULT_QUERY,
};
use minder::script::ScriptStep;
use minder::schedule_mode::{Schedule, ScheduleAction, ScheduleOptions};
use minder::setup::{LogFile, Setup, SetupEvent, Stage};

fn query_over(text: &str) -> String {
    DEFAULT_QUERY.replace("read_file(path)", &format!("\"{}\"", text.replace('\n', "\\n")))
}

/// The open items of a checklist, by a fresh engine that does the steps.
fn todos(path: &str, query: &str) -> Result<Vec<String>, LoopError> {
    let mut engine = mq_lang::DefaultEngine::default();
    engine.load_builtin_module();
    let mut given = Ok(Vec::new());
    for step in todo_steps(path, query) {
        match step {
            ScriptStep::Define { name, value } => {
                engine.define_value(&name, mq_lang::RuntimeValue::from(value.to_value()))
            }
            ScriptStep::Eval(code) => {
                let values = engine.eval(&code, mq_lang::null_input().into_iter());
                given = values.map(|v| v.values().to_vec()).map_err(|e| e.to_string());
            }
            _ => panic!("nothing else is asked for"),
        }
    }
    remaining_todos(given)
}

fn opts(max_iterations: usize) -> LoopOptions {
    LoopOptions { max_iterations, query: DEFAULT_QUERY.to_string(), poll_interval_secs: 1 }
}

#[test]
fn remaining_todos_lists_only_unchecked_checklist_items() {
    let text =
        "# T\n\n- [x] done\n- [ ] not done\n- plain bullet, no checkbox\n  - [ ] nested unchecked\n";
    let items = todos("TODO.md", &query_over(text)).ok().unwrap();
    assert_eq!(items.len(), 2);
    assert!(items[0].contains("not done"));
    assert!(items[1].contains("nested unchecked"));
}

#[test]
fn remaining_todos_is_empty_once_everything_is_checked() {
    let items = todos("TODO.md", &query_over("- [x] a\n- [x] b\n")).ok().unwrap();
    assert!(items.is_empty());
}

#[test]
fn remaining_todos_reports_a_clear_error_for_a_missing_file() {
    let err = todos("/nonexistent/does-not-exist.md", DEFAULT_QUERY).err().unwrap();
    assert!(matches!(err, LoopError::Query(_)));
}

#[test]
fn the_path_is_handed_to_the_query() {
    let items = todos("TODO.md", "[path]").ok().unwrap();
    assert_eq!(items, vec!["TODO.md".to_string()]);
}

#[test]
fn on_turn_fires_once_per_completed_turn_then_the_loop_idles() {
    let opts = opts(5);
    let mut state = LoopState::new();
    let mut turns = 0;
    for count in [1, 0, 0, 0] {
        match state.step(count, &opts, "TODO.md").next {
            LoopNext::Work => turns += 1,
            LoopNext::Poll => {}
            LoopNext::Stop(e) => panic!("{}", e.message()),
        }
    }
    assert_eq!(turns, 1);
}

#[test]
fn a_loop_that_makes_no_progress_stops() {
    let opts = opts(50);
    let mut state = LoopState::new();
    let mut last = state.step(2, &opts, "TODO.md").next;
    let mut turns = 0;
    while matches!(last, LoopNext::Work) {
        turns += 1;
        assert!(turns < 10);
        last = state.step(2, &opts, "TODO.md").next;
    }
    assert_eq!(turns, 2);
    assert!(matches!(last, LoopNext::Stop(LoopError::Stalled(2))));
}

#[test]
fn a_list_that_gets_shorter_is_worked_through() {
    let opts = opts(4);
    let mut state = LoopState::new();
    for count in [9, 5, 2, 1] {
        assert!(matches!(state.step(count, &opts, "t").next, LoopNext::Work));
    }
    assert!(matches!(state.step(0, &opts, "t").next, LoopNext::Poll));
}

#[test]
fn a_loop_stops_at_its_limit() {
    let opts = opts(2);
    let mut state = LoopState::new();
    assert!(matches!(state.step(9, &opts, "t").next, LoopNext::Work));
    assert!(matches!(state.step(8, &opts, "t").next, LoopNext::Work));
    assert!(matches!(
        state.step(7, &opts, "t").next,
        LoopNext::Stop(LoopError::MaxIterationsReached(2))
    ));
}

#[test]
fn loop_options_come_from_the_environment() {
    let set = LoopOptions::from_env(&Some("7".to_string()), None, &Some("x".to_string()));
    assert_eq!(set.max_iterations, 7);
    assert_eq!(set.query, DEFAULT_QUERY);
    assert_eq!(set.poll_interval_secs, 5);
    assert_eq!(LoopOptions::from_env(&None, None, &None).max_iterations, 50);
}

/// The seconds at which runs take place until `until`, if a run takes no time.
fn runs_until(schedule: &mut Schedule, until: u64) -> Vec<u64> {
    let mut now = 0;
    let mut runs = Vec::new();
    loop {
        match schedule.next_action() {
            ScheduleAction::Run => runs.push(now),
            ScheduleAction::Wait(secs) => now += secs,
            ScheduleAction::Stop => return runs,
        }
        if now > until {
            return runs;
        }
    }
}

#[test]
fn on_turn_fires_once_per_run_and_honors_max_runs() {
    let opts = ScheduleOptions { interval_secs: 60, max_runs: Some(3) };
    assert_eq!(runs_until(&mut Schedule::new(opts), u64::MAX), vec![0, 60, 120]);
    let once = ScheduleOptions { interval_secs: 60, max_runs: Some(0) };
    assert_eq!(runs_until(&mut Schedule::new(once), u64::MAX), vec![0]);
}

#[test]
fn runs_again_only_after_the_interval_elapses() {
    let opts = ScheduleOptions { interval_secs: 60, max_runs: None };
    assert_eq!(runs_until(&mut Schedule::new(opts), 1).len(), 1, "runs at once");
    assert_eq!(runs_until(&mut Schedule::new(opts), 59).len(), 1);
    assert_eq!(runs_until(&mut Schedule::new(opts), 61).len(), 2, "again after the interval");
}

#[test]
fn setup_orders_tools_and_agents() {
    let mut setup = Setup::new(&vec!["explore".to_string()]);
    let names = |list: &[&str]| Ok(list.iter().map(|n| n.to_string()).collect::<Vec<String>>());
    let mut said = Vec::new();
    for event in [
        SetupEvent::Plugins(names(&["p", "q"])),
        SetupEvent::Hooks { project: true, result: Ok(()) },
        SetupEvent::SearchKey(false),
        SetupEvent::Skills(Ok(2)),
        SetupEvent::WasmTools(names(&[])),
        SetupEvent::McpTools(names(&["m"])),
        SetupEvent::PluginMcpTools(names(&["pm"])),
        SetupEvent::PluginMcpTools(names(&["qm"])),
        SetupEvent::LogFile(None),
        SetupEvent::StatusFile(Some("s".to_string())),
        SetupEvent::Subagents(names(&["own"])),
    ] {
        said.extend(setup.on(event).ok().unwrap());
    }
    assert_eq!(setup.stage, Stage::Done);
    assert!(setup.has_several_reporters());
    assert_eq!(setup.tools[13..17], ["skill", "m", "pm", "qm"]);
    assert_eq!(
        setup.tools[17..],
        ["agent", "todo_write", "list_agents", "agent_output", "agent_stop"]
    );
    assert_eq!(
        said,
        [
            "loaded 2 plugin(s) from .agent/plugins/: p, q",
            "loaded hooks from .agent/",
            "loaded 2 skill(s) from .agent/skills/ and plugins/",
            "loaded 1 mcp tool(s) from .agent/mcp.toml",
            "loaded 1 mcp tool(s) from plugin 'p'",
            "loaded 1 mcp tool(s) from plugin 'q'",
            "writing status to s",
            "loaded 1 subagent(s) from .agent/agents/",
        ]
    );
}

#[test]
fn setup_ends_at_the_first_failure() {
    let mut setup = Setup::new(&Vec::new());
    assert!(setup.on(SetupEvent::SearchKey(true)).ok().unwrap().is_none());
    assert_eq!(setup.stage, Stage::Plugins);
    let failed = setup.on(SetupEvent::Plugins(Err("no such file".to_string())));
    assert_eq!(failed.err().as_deref(), Some("failed to load plugins: no such file"));
    assert_eq!(setup.stage, Stage::Failed);
    assert!(setup.on(SetupEvent::Plugins(Ok(Vec::new()))).is_ok());
    assert_eq!(setup.stage, Stage::Failed);
}

#[test]
fn a_log_file_that_cannot_be_opened_is_only_told() {
    let mut setup = Setup::new(&Vec::new());
    setup.stage = Stage::LogFile;
    let log = LogFile { path: "l".to_string(), result: Err("denied".to_string()) };
    let said = setup.on(SetupEvent::LogFile(Some(log))).ok().unwrap();
    assert_eq!(said.as_deref(), Some("failed to open log file l: denied"));
    assert!(!setup.has_several_reporters());
    assert_eq!(setup.stage, Stage::StatusFile);
}

#[test]
fn a_typed_line_steers_the_running_turn() {
    let key = |code| Key { code, control: false, alt: false, shift: false };
    let mut watcher = InputWatcher::new();
    assert_eq!(watcher.handle_key(key(KeyCode::Char('a'))).echo, "\r\n» a");
    assert_eq!(watcher.handle_key(key(KeyCode::Char('x'))).echo, "x");
    assert_eq!(watcher.handle_key(key(KeyCode::Backspace)).echo, "\u{8} \u{8}");
    let entered = watcher.handle_key(key(KeyCode::Enter));
    assert_eq!(entered.steer.as_deref(), Some("a"));
    watcher.handle_key(key(KeyCode::Char('b')));
    let cancelled = watcher.handle_key(key(KeyCode::Esc));
    assert!(cancelled.cancel && cancelled.steer.is_none());
    let mut typed = vec!['a', 'b'];
    assert_eq!(clear_echoed_buffer(&mut typed), "\u{8} \u{8}\u{8} \u{8}\r\n");
    assert!(typed.is_empty());
}
