use minder::hook_engine::{
    ask_before_agent_start, ask_before_compact, ask_on_budget, ask_on_context, ask_on_tool_call,
    ask_on_tool_result, ask_render_tool_call, ask_render_tool_result, before_agent_start,
    before_compact, call_steps, classify, decide_gate, decide_messages, decide_render,
    decide_text, decide_tool_call, hook_modules, load_failure, load_steps, on_budget, on_context,
    on_tool_call, on_tool_result, outcome, render_tool_call, render_tool_result, FailMode,
    HookLoadError, HookOutcome,
};
use minder::hooks::{BudgetInfo, HookDecision, RenderDecision, ToolCallDecision, ToolResultInfo};
use minder::json::Json;
use minder::message::{
    ContentBlock, Message, Role, ToolCall, ToolExecOutcome, ToolResult, ToolResultContent, Usage,
};
use minder::message_json::{messages_json, read_messages};
use minder::script::{as_items, as_json, Evaluation, ScriptStep};
use minder::tool_run::{plan_call, CallNext};
use mq_lang::{ModuleError, ModuleResolver};

const SECURITY_HOOK: &str = r#"
def on_tool_call(call):
  if (call["name"] == "bash" && contains(call["arguments"]["command"], "rm -rf")):
    {"action": "block", "reason": "destructive bash command blocked by policy"}
  else:
    {"action": "allow", "value": call};
"#;

const RENDER_HOOK: &str = r#"
def render_tool_call(call):
  if (call["name"] == "bash"):
    {"action": "text", "value": "$ " + call["arguments"]["command"], "style": "cyan"}
  elif (call["name"] == "git_status"):
    {"action": "hide"}
  else:
    {"action": "default"};

def render_tool_result(arg):
  if (arg["call"]["name"] == "bash" && arg["outcome"]["is_error"]):
    {"action": "text", "value": "command failed", "style": "red"}
  else:
    {"action": "default"};
"#;

fn json(text: &str) -> Json {
    Json::parse(text).expect("valid JSON")
}

/// Modules by name, in place of a directory.
#[derive(Clone, Default)]
struct Modules(Vec<(String, String)>);

impl ModuleResolver for Modules {
    fn resolve(&self, module_name: &str) -> Result<String, ModuleError> {
        match self.0.iter().find(|(name, _)| name == module_name) {
            Some((_, source)) => Ok(source.clone()),
            None => Err(ModuleError::NotFound(module_name.to_string().into())),
        }
    }

    fn get_path(&self, module_name: &str) -> Result<String, ModuleError> {
        Ok(module_name.to_string())
    }

    fn search_paths(&self) -> Vec<std::path::PathBuf> {
        Vec::new()
    }

    fn set_search_paths(&mut self, _paths: Vec<std::path::PathBuf>) {}
}

/// The hooks of some modules, in an engine that does the steps it is given.
struct Engine {
    engine: mq_lang::Engine<Modules>,
}

impl Engine {
    fn load(sources: &[&str]) -> Result<Option<Engine>, HookLoadError> {
        let names: Vec<String> = (0..sources.len()).map(|i| format!("module{i}")).collect();
        if names.is_empty() {
            return Ok(None);
        }
        let texts = sources.iter().map(|s| s.to_string());
        let modules = Modules(names.iter().cloned().zip(texts).collect());
        let mut engine = Engine { engine: mq_lang::Engine::new(modules) };
        engine.engine.load_builtin_module();
        for step in load_steps(&names, "hooks") {
            if let Err(reason) = engine.step(&step) {
                return Err(load_failure(&step, reason));
            }
        }
        Ok(Some(engine))
    }

    fn step(&mut self, step: &ScriptStep) -> Evaluation {
        match step {
            ScriptStep::SearchDir(dir) => self.engine.set_search_paths(vec![dir.into()]),
            ScriptStep::Define { name, value } => {
                self.engine.define_value(name, mq_lang::RuntimeValue::from(value.to_value()))
            }
            ScriptStep::Module(name) => {
                self.engine.load_module(name).map_err(|e| e.to_string())?
            }
            ScriptStep::Eval(code) => {
                let given = self.engine.eval(code, mq_lang::null_input().into_iter());
                return Ok(given.map_err(|e| e.to_string())?.values().to_vec());
            }
        }
        Ok(Vec::new())
    }

    fn run(&mut self, steps: Vec<ScriptStep>) -> Evaluation {
        let mut given = Ok(Vec::new());
        for step in &steps {
            given = self.step(step);
            if given.is_err() {
                break;
            }
        }
        given
    }

    fn call(&mut self, fn_name: &str, arg: &Json) -> HookOutcome {
        outcome(self.run(call_steps(fn_name, arg)), fn_name)
    }

    fn before_agent_start(&mut self, prompt: &str) -> HookDecision<String> {
        before_agent_start(self.run(ask_before_agent_start(prompt)), prompt)
    }

    fn on_context(&mut self, messages: Vec<Message>) -> HookDecision<Vec<Message>> {
        on_context(self.run(ask_on_context(&messages)), messages)
    }

    fn on_tool_call(&mut self, call: &ToolCall) -> ToolCallDecision {
        on_tool_call(self.run(ask_on_tool_call(call)), call, "no answer")
    }

    fn on_tool_result(&mut self, info: &ToolResultInfo) -> HookDecision<String> {
        on_tool_result(self.run(ask_on_tool_result(info)), info)
    }

    fn before_compact(&mut self, messages: &Vec<Message>) -> Option<String> {
        before_compact(self.run(ask_before_compact(messages)))
    }

    fn on_budget(&mut self, info: &BudgetInfo) -> Option<String> {
        on_budget(self.run(ask_on_budget(info)))
    }

    fn render_tool_call(&mut self, call: &ToolCall) -> RenderDecision {
        render_tool_call(self.run(ask_render_tool_call(call)))
    }

    fn render_tool_result(&mut self, call: &ToolCall, o: &ToolExecOutcome) -> RenderDecision {
        render_tool_result(self.run(ask_render_tool_result(call, o)))
    }
}

fn engine(source: &str) -> Engine {
    match Engine::load(&[source]) {
        Ok(Some(e)) => e,
        Ok(None) => panic!("no engine"),
        Err(e) => panic!("{}", e.message()),
    }
}

fn bash_call(id: &str, command: &str) -> ToolCall {
    ToolCall {
        id: id.to_string(),
        name: "bash".to_string(),
        arguments: json(&format!(r#"{{"command": "{command}"}}"#)),
    }
}

fn info(content: &str) -> ToolResultInfo {
    ToolResultInfo {
        tool_name: "bash".to_string(),
        content: content.to_string(),
        is_error: false,
    }
}

fn user_text(text: &str) -> Vec<Message> {
    vec![Message::user_text(text)]
}

fn tool_result(id: &str, content: &str, is_error: bool) -> Message {
    Message::tool_results(vec![ToolResult {
        tool_call_id: id.to_string(),
        content: ToolResultContent::Text(content.to_string()),
        is_error,
    }])
}

fn assistant(content: Vec<ContentBlock>) -> Message {
    Message { role: Role::Assistant, content, metadata: Json::Null }
}

fn tool_use(id: &str, name: &str, arguments: &str) -> ContentBlock {
    ContentBlock::ToolUse(ToolCall {
        id: id.to_string(),
        name: name.to_string(),
        arguments: json(arguments),
    })
}

#[test]
fn load_returns_none_when_no_hooks_present() {
    assert!(matches!(Engine::load(&[]), Ok(None)));
}

#[test]
fn load_finds_single_file_convention() {
    assert!(matches!(Engine::load(&[SECURITY_HOOK]), Ok(Some(_))));
}

#[test]
fn a_broken_module_is_named() {
    let err = Engine::load(&[SECURITY_HOOK, "def (("]).err().unwrap();
    assert!(err.message().contains("'module1'"), "{}", err.message());
}

#[test]
fn a_module_that_does_more_than_define_is_refused() {
    for source in ["1 + 1", "def f(): 1;\n| f()"] {
        let err = Engine::load(&[SECURITY_HOOK, source]).err().unwrap();
        assert!(
            err.message().starts_with("failed to load hook module 'module1': "),
            "{}",
            err.message()
        );
    }
    let defining = "let limit = 3 | def f(): limit;\nmacro twice(x): x + x;";
    assert!(matches!(Engine::load(&[defining]), Ok(Some(_))));
}

#[test]
fn hooks_are_loaded_behind_the_functions_for_them() {
    let names = vec!["a".to_string(), "b".to_string()];
    let steps = load_steps(&names, "dir");
    assert_eq!(steps.len(), 4);
    assert!(matches!(&steps[0], ScriptStep::SearchDir(d) if d == "dir"));
    assert!(matches!(&steps[1], ScriptStep::Eval(code) if code.contains("def agent_last_n")));
    assert!(matches!(&steps[2], ScriptStep::Module(m) if m == "a"));
    assert!(matches!(&steps[3], ScriptStep::Module(m) if m == "b"));
    assert_eq!(
        load_failure(&steps[1], "x".to_string()).message(),
        "failed to load hook module 'agent': x"
    );
}

#[test]
fn modules_are_loaded_in_the_order_of_their_names() {
    let files = vec!["b.mq".to_string(), "notes.txt".to_string(), "a.mq".to_string()];
    assert_eq!(hook_modules(&files), vec!["a".to_string(), "b".to_string()]);
}

#[test]
fn on_tool_call_blocks_destructive_command() {
    match engine(SECURITY_HOOK).on_tool_call(&bash_call("1", "rm -rf /tmp/foo")) {
        ToolCallDecision::Block(reason) => assert!(reason.contains("destructive")),
        _ => panic!("expected Block"),
    }
}

#[test]
fn on_tool_call_allows_safe_command() {
    match engine(SECURITY_HOOK).on_tool_call(&bash_call("2", "ls -la")) {
        ToolCallDecision::Allow(c) => {
            assert_eq!(c.arguments.get_text("command").unwrap(), "ls -la");
            assert_eq!(c.id, "2");
        }
        _ => panic!("expected Allow"),
    }
}

#[test]
fn on_tool_call_can_override_the_result_without_running_the_real_tool() {
    let mut engine = engine(
        r#"
def on_tool_call(call):
  if (call["name"] == "web_fetch"):
    {"action": "override", "value": {"content": "mocked response", "is_error": false, "metadata": None}}
  else:
    {"action": "allow", "value": call};
"#,
    );
    let call = ToolCall {
        id: "1".to_string(),
        name: "web_fetch".to_string(),
        arguments: json(r#"{"url": "https://example.com"}"#),
    };
    match engine.on_tool_call(&call) {
        ToolCallDecision::Override(outcome) => {
            assert_eq!(outcome.content, "mocked response");
            assert!(!outcome.is_error);
        }
        _ => panic!("expected Override"),
    }
}

#[test]
fn undefined_hook_is_a_no_op() {
    match engine(SECURITY_HOOK).on_tool_result(&info("some output")) {
        HookDecision::Allow(content) => assert_eq!(content, "some output"),
        HookDecision::Block(_) => panic!("expected the content unchanged"),
    }
}

#[test]
fn buggy_tool_call_hook_fails_closed() {
    let mut engine = engine("def on_tool_call(call): does_not_exist(call);");
    let decision = engine.on_tool_call(&bash_call("3", "ls"));
    assert!(matches!(decision, ToolCallDecision::Block(_)));
}

#[test]
fn buggy_transform_hook_fails_open() {
    let mut engine = engine("def on_tool_result(result): does_not_exist(result);");
    match engine.on_tool_result(&info("original output")) {
        HookDecision::Allow(content) => assert_eq!(content, "original output"),
        HookDecision::Block(_) => panic!("must fail open"),
    }
}

#[test]
fn before_compact_gate_allows_by_default() {
    assert_eq!(engine(SECURITY_HOOK).before_compact(&user_text("hi")), None);
}

#[test]
fn before_compact_can_block() {
    let mut engine =
        engine(r#"def before_compact(messages): {"action": "block", "reason": "not now"};"#);
    assert_eq!(engine.before_compact(&user_text("hi")).as_deref(), Some("not now"));
}

#[test]
fn the_budget_hook_can_block() {
    let mut engine = engine(
        r#"def on_budget(info):
  if (info["turn_count"] > 2 && info["session"]["input_tokens"] == 70): {"action": "block", "reason": "enough"} else: {"action": "allow"};"#,
    );
    let budget = |turn_count: usize| BudgetInfo {
        turn: Usage { input_tokens: 10, output_tokens: 1 },
        session: Usage { input_tokens: 70, output_tokens: 20 },
        turn_count,
    };
    assert_eq!(engine.on_budget(&budget(2)), None);
    assert_eq!(engine.on_budget(&budget(3)).as_deref(), Some("enough"));
}

#[test]
fn on_context_can_filter_messages() {
    let mut engine = engine(r#"def on_context(messages): {"action": "allow", "value": []};"#);
    match engine.on_context(user_text("secret stuff")) {
        HookDecision::Allow(filtered) => assert!(filtered.is_empty()),
        _ => panic!("expected an empty list"),
    }
}

#[test]
fn before_agent_start_can_modify_system_prompt() {
    let mut engine = engine(
        r#"def before_agent_start(prompt): {"action": "allow", "value": prompt + " Be extra careful."};"#,
    );
    match engine.before_agent_start("You are an agent.") {
        HookDecision::Allow(prompt) => assert_eq!(prompt, "You are an agent. Be extra careful."),
        HookDecision::Block(_) => panic!("expected Allow"),
    }
}

#[test]
fn agent_module_consecutive_errors_gates_compaction() {
    let mut engine = engine(
        r#"
def before_compact(messages):
  if (agent_consecutive_errors(agent_tool_results(messages)) >= 2):
    {"action": "block", "reason": "too many consecutive errors"}
  else:
    {"action": "allow"};
"#,
    );
    let mut messages = vec![
        tool_result("1", "ok", false),
        tool_result("2", "fail", true),
        tool_result("3", "fail again", true),
    ];
    let reason = engine.before_compact(&messages).unwrap();
    assert!(reason.contains("consecutive"));
    messages.pop();
    assert_eq!(engine.before_compact(&messages), None);
}

#[test]
fn agent_module_functions_compose_inside_a_hook() {
    let mut engine = engine(
        r#"
def on_context(messages):
  if (agent_error_count(messages) > 0):
    {"action": "allow", "value": agent_last_n(messages, 1)}
  else:
    {"action": "allow", "value": messages};
"#,
    );
    let messages = vec![
        Message::user_text("do something"),
        assistant(vec![tool_use("1", "bash", r#"{"command": "false"}"#)]),
        tool_result("1", "command failed", true),
    ];
    match engine.on_context(messages) {
        HookDecision::Allow(filtered) => {
            assert_eq!(filtered.len(), 1);
            assert_eq!(filtered[0].role, Role::Tool);
        }
        _ => panic!("expected Allow"),
    }
}

#[test]
fn agent_module_reads_the_transcript() {
    let mut engine = engine(
        r#"
def before_agent_start(prompt): {"action": "allow", "value": prompt};
def probe(messages):
  [
    join(agent_tool_names(messages), ","),
    join(agent_assistant_texts(messages), ","),
    len(agent_content_blocks(messages)),
    len(agent_tool_calls(messages))
  ];
"#,
    );
    let messages = vec![
        Message::user_text("go"),
        assistant(vec![
            ContentBlock::Text("a".to_string()),
            tool_use("1", "bash", "{}"),
            tool_use("2", "ls", "{}"),
            tool_use("3", "bash", "{}"),
        ]),
        assistant(vec![ContentBlock::Text("b".to_string())]),
    ];
    match engine.call("probe", &messages_json(&messages)) {
        HookOutcome::Value(told) => {
            assert_eq!(told.text(), r#"["bash,ls","a,b",6.0,3.0]"#);
        }
        _ => panic!("expected a value"),
    }
}

#[test]
fn user_hook_file_can_shadow_an_agent_module_function() {
    let mut engine = engine(
        r#"
def agent_tool_names(messages): "shadowed";
def before_agent_start(prompt): {"action": "allow", "value": prompt + " " + agent_tool_names([])};
"#,
    );
    match engine.before_agent_start("base") {
        HookDecision::Allow(prompt) => assert_eq!(prompt, "base shadowed"),
        HookDecision::Block(_) => panic!("expected Allow"),
    }
}

#[test]
fn render_tool_call_undefined_falls_back_to_default() {
    let decision = engine(SECURITY_HOOK).render_tool_call(&bash_call("1", "ls"));
    assert!(matches!(decision, RenderDecision::Default));
}

#[test]
fn render_tool_call_can_customize_text_and_style() {
    match engine(RENDER_HOOK).render_tool_call(&bash_call("1", "ls -la")) {
        RenderDecision::Text { value, style } => {
            assert_eq!(value, "$ ls -la");
            assert_eq!(style.as_deref(), Some("cyan"));
        }
        _ => panic!("expected Text"),
    }
}

#[test]
fn render_tool_call_can_hide() {
    let call = ToolCall {
        id: "2".to_string(),
        name: "git_status".to_string(),
        arguments: json("{}"),
    };
    assert!(matches!(engine(RENDER_HOOK).render_tool_call(&call), RenderDecision::Hide));
}

#[test]
fn render_tool_result_receives_both_call_and_outcome() {
    let outcome = ToolExecOutcome {
        content: "exit 1".to_string(),
        is_error: true,
        metadata: Json::Null,
    };
    match engine(RENDER_HOOK).render_tool_result(&bash_call("3", "false"), &outcome) {
        RenderDecision::Text { value, style } => {
            assert_eq!(value, "command failed");
            assert_eq!(style.as_deref(), Some("red"));
        }
        _ => panic!("expected Text"),
    }
}

#[test]
fn a_buggy_render_hook_falls_back_to_default_not_an_error() {
    let mut engine = engine("def render_tool_call(call): does_not_exist(call);");
    let decision = engine.render_tool_call(&bash_call("4", "ls"));
    assert!(matches!(decision, RenderDecision::Default));
}

#[test]
fn an_engine_keeps_what_scripts_define() {
    let mut engine = match Engine::load(&[
        "def shout(s): upcase(s);",
        r#"def before_agent_start(p): {"action": "allow", "value": shout(p)};"#,
    ]) {
        Ok(Some(e)) => e,
        _ => panic!("expected an engine"),
    };
    for _ in 0..2 {
        match engine.before_agent_start("hi") {
            HookDecision::Allow(prompt) => assert_eq!(prompt, "HI"),
            HookDecision::Block(_) => panic!("expected Allow"),
        }
    }
}

#[test]
fn hook_script_blocks_destructive_command_through_the_real_agent_loop() {
    let call = bash_call("call_1", "rm -rf /important/data");
    let decision = engine(SECURITY_HOOK).on_tool_call(&call);
    match plan_call(decision, call, &vec!["bash".to_string()]).next {
        CallNext::Final(outcome) => {
            assert!(outcome.is_error);
            assert!(outcome.content.contains("destructive bash command blocked by policy"));
        }
        _ => panic!("a blocked call must not run"),
    }
}

#[test]
fn hook_script_allows_safe_command_through_the_real_agent_loop() {
    let call = bash_call("call_1", "ls -la");
    let decision = engine(SECURITY_HOOK).on_tool_call(&call);
    match plan_call(decision, call, &vec!["bash".to_string()]).next {
        CallNext::Execute { index, call } => {
            assert_eq!(index, 0);
            assert_eq!(call.arguments.get_text("command").unwrap(), "ls -la");
        }
        _ => panic!("an allowed call must run"),
    }
}

#[test]
fn answers_are_taken_by_their_action() {
    let value = |text: &str| HookOutcome::Value(json(text));
    let error = || HookOutcome::Error("oops".to_string());
    assert!(matches!(classify(Err("\"f\" is not defined".to_string()), "f"), HookOutcome::NotDefined));
    assert!(matches!(classify(Err("\"g\" is not defined".to_string()), "f"), HookOutcome::Error(_)));
    assert!(matches!(classify(Ok(Json::Null), "f"), HookOutcome::Value(Json::Null)));
    assert!(matches!(
        decide_text(error(), "d".to_string(), FailMode::Closed, ""),
        HookDecision::Block(m) if m == "oops"
    ));
    assert!(matches!(
        decide_text(value("{}"), "d".to_string(), FailMode::Open, ""),
        HookDecision::Allow(d) if d == "d"
    ));
    assert_eq!(decide_gate(error(), FailMode::Open, ""), None);
    assert_eq!(decide_gate(error(), FailMode::Closed, "").as_deref(), Some("oops"));
    assert!(matches!(
        decide_messages(error(), user_text("d"), FailMode::Open, ""),
        HookDecision::Allow(m) if m.len() == 1
    ));
    assert!(matches!(
        decide_messages(error(), user_text("d"), FailMode::Closed, ""),
        HookDecision::Block(m) if m == "oops"
    ));
    assert!(matches!(
        decide_messages(value(r#"{"action": "block", "reason": "r"}"#), Vec::new(), FailMode::Open, ""),
        HookDecision::Block(r) if r == "r"
    ));
    assert!(matches!(
        decide_messages(value(r#"{"action": "allow", "value": [7]}"#), user_text("d"), FailMode::Open, ""),
        HookDecision::Allow(m) if m.len() == 1
    ));
    assert!(matches!(decide_render(error()), RenderDecision::Default));
    let call = bash_call("1", "ls");
    assert!(matches!(decide_tool_call(HookOutcome::NotDefined, &call, ""), ToolCallDecision::Allow(_)));
    assert!(matches!(
        decide_tool_call(value(r#"{"action": "allow"}"#), &call, "missing field `value`"),
        ToolCallDecision::Block(m) if m == "malformed hook return value: missing field `value`"
    ));
}

#[test]
fn messages_survive_json() {
    let messages = vec![
        Message::user_text("go"),
        assistant(vec![
            ContentBlock::Thinking { text: "hm".to_string(), signature: Some("s".to_string()) },
            ContentBlock::Thinking { text: "hm".to_string(), signature: None },
            tool_use("1", "bash", r#"{"command": "ls", "n": [1, 2.5]}"#),
        ]),
        tool_result("1", "done", false),
        Message::tool_results(vec![ToolResult {
            tool_call_id: "2".to_string(),
            content: ToolResultContent::Blocks(vec![json(r#"{"type": "image"}"#)]),
            is_error: true,
        }]),
    ];
    let written = messages_json(&messages);
    match &written {
        Json::Array(items) => {
            let again = read_messages(items).unwrap();
            assert_eq!(messages_json(&again).text(), written.text());
        }
        _ => panic!("expected a list"),
    }
    assert_eq!(
        messages_json(&user_text("hi")).text(),
        r#"[{"role":"user","content":[{"text":"hi"}],"metadata":null}]"#
    );
}

#[test]
fn what_is_no_message_is_not_read() {
    let read = |text: &str| match json(text) {
        Json::Array(items) => read_messages(&items).is_some(),
        _ => panic!("expected a list"),
    };
    assert!(read(r#"[{"role": "user", "content": [{"text": "hi"}]}]"#));
    assert!(!read(r#"[{"role": "nobody", "content": []}]"#));
    assert!(!read(r#"[{"role": "user", "content": "hi"}]"#));
    assert!(!read(r#"[{"role": "user", "content": [{"text": "a", "tool_use": {}}]}]"#));
    assert!(!read(r#"[{"role": "user", "content": [{"picture": "a"}]}]"#));
    assert!(!read(r#"[{"role": "assistant", "content": [{"thinking": {"text": "a", "signature": 1}}]}]"#));
    assert!(!read(r#"[{"role": "tool", "content": [{"tool_result":
        {"tool_call_id": "1", "content": 3, "is_error": false}}]}]"#));
}

#[test]
fn a_hook_that_gives_messages_back_changes_nothing() {
    let mut engine =
        engine(r#"def on_context(messages): {"action": "allow", "value": messages};"#);
    let messages = vec![
        Message::user_text("go"),
        assistant(vec![tool_use("1", "bash", r#"{"command": "ls"}"#)]),
    ];
    let shown = messages_json(&messages).text();
    match engine.on_context(messages) {
        HookDecision::Allow(kept) => assert_eq!(messages_json(&kept).text(), shown),
        HookDecision::Block(reason) => panic!("{reason}"),
    }
}

#[test]
fn values_of_scripts_become_json_and_texts() {
    let list = || {
        let items = vec!["a".to_string().into(), "b".to_string().into()];
        Ok(vec![mq_lang::RuntimeValue::Array(items), mq_lang::RuntimeValue::NONE])
    };
    assert_eq!(as_json(list()).ok().unwrap().text(), r#"["a","b"]"#);
    assert_eq!(as_items(list()), Ok(Some(vec!["a".to_string(), "b".to_string()])));
    let text = || Ok(vec![mq_lang::RuntimeValue::String("a".to_string())]);
    assert!(matches!(as_json(text()), Ok(Json::Str(s)) if s == "a"));
    assert_eq!(as_items(text()), Ok(None));
    assert!(matches!(as_json(Ok(Vec::new())), Ok(Json::Null)));
    assert_eq!(as_items(Ok(Vec::new())), Ok(None));
    assert_eq!(as_json(Err("bad".to_string())).err().as_deref(), Some("bad"));
    assert_eq!(as_items(Err("bad".to_string())), Err("bad".to_string()));
}
