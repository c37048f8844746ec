//! What settles how the program starts.
use vstd::prelude::*;

use crate::config::{first_text, number_setting_of, status_shown, ProjectConfig};
use crate::model::opt_view;
use crate::provider_select::{chosen_provider, main_choice, ChoiceView, ProviderEnv};
use crate::setup::{
    at_start, setup_step, with_agent, LogFileView, SetupEventView, SetupView, SlotView, Stage,
};
use crate::suggest::{
    byte_len, edit_distance, lemma_nearest, nearest, suggestion, unknown_tool_text,
};
use crate::text::{decimal, join, number};

verus! {

// ---------------------------------------------------------------------------
// Settings
// ---------------------------------------------------------------------------

/// What the environment says counts; where it says nothing, the file does.
pub proof fn law_environment_counts_before_the_file(a: Seq<char>, file: Option<Seq<char>>)
    ensures
        first_text(Some(a), file) == Some(a),
        first_text(None, file) == file,
{
}

/// A number in the environment counts if it is one that fits; all else there is
/// passed over.
pub proof fn law_number_in_the_environment_counts(
    n: u64,
    s: Seq<char>,
    file: Option<u64>,
    max: u64,
)
    ensures
        n <= max ==> number_setting_of(Some(decimal(n as nat)), file, max) == Some(n),
        number(s, max as nat) is None ==> number_setting_of(Some(s), file, max) == file,
        number_setting_of(None, file, max) == file,
{
    crate::text_laws::law_written_number_is_read(n as nat, max as nat, s);
}

/// Whether the status is shown: as the environment says, else as the file says,
/// else it is.
pub proof fn law_status_is_shown_unless_switched_off(s: Seq<char>, file: Option<bool>, b: bool)
    ensures
        status_shown(Some("true"@), file),
        !status_shown(Some("false"@), file),
        s != "true"@ && s != "false"@ ==> status_shown(Some(s), file) == status_shown(None, file),
        status_shown(None, Some(b)) == b,
        status_shown(None, None),
{
    reveal_strlit("true");
    reveal_strlit("false");
    assert("true"@.len() != "false"@.len());
}

// ---------------------------------------------------------------------------
// Providers
// ---------------------------------------------------------------------------

/// Ollama is chosen with the given model, or the one that it comes with, and
/// with the address and the numbers of the settings.
pub proof fn law_ollama_is_chosen(model: Option<Seq<char>>, cfg: ProjectConfig, env: ProviderEnv)
    ensures
        chosen_provider("ollama"@, model, cfg, env) matches Ok(
            ChoiceView::Ollama { model: m, base_url, request_timeout_secs, num_ctx },
        ) && {
            &&& m == match model {
                Some(x) => x,
                None => "llama3.2"@,
            }
            &&& env.ollama_base_url matches Some(u) ==> base_url == Some(u@)
            &&& env.ollama_base_url is None ==> base_url == opt_view(cfg.ollama_base_url)
            &&& env.request_timeout_secs is None ==> request_timeout_secs
                == cfg.request_timeout_secs
            &&& env.num_ctx is None ==> num_ctx == cfg.num_ctx
            &&& forall|n: u64|
                env.request_timeout_secs matches Some(s) && #[trigger] decimal(n as nat) == s@
                    ==> request_timeout_secs == Some(n)
            &&& forall|n: u32|
                env.num_ctx matches Some(s) && #[trigger] decimal(n as nat) == s@ ==> num_ctx
                    == Some(n)
        },
{
    assert forall|n: u64|
        env.request_timeout_secs matches Some(s) && #[trigger] decimal(n as nat)
            == s@ implies chosen_provider(
        "ollama"@,
        model,
        cfg,
        env,
    )->Ok_0->Ollama_request_timeout_secs == Some(n) by {
        crate::text_laws::law_written_number_is_read(n as nat, u64::MAX as nat, Seq::empty());
    }
    assert forall|n: u32|
        env.num_ctx matches Some(s) && #[trigger] decimal(n as nat) == s@ implies chosen_provider(
        "ollama"@,
        model,
        cfg,
        env,
    )->Ok_0->num_ctx == Some(n) by {
        crate::text_laws::law_written_number_is_read(n as nat, u32::MAX as nat, Seq::empty());
    }
}

/// A compatible server is chosen where its address and a model are known; else
/// it is said what is missing.
pub proof fn law_compatible_server_is_chosen(
    model: Option<Seq<char>>,
    cfg: ProjectConfig,
    env: ProviderEnv,
)
    ensures
        ({
            let r = chosen_provider("openai-compat"@, model, cfg, env);
            let known = env.openai_compat_base_url is Some || cfg.openai_compat_base_url is Some;
            &&& r is Ok <==> known && model is Some
            &&& r matches Ok(c) ==> {
                &&& c matches ChoiceView::OpenAiCompat { base_url, model: m, api_key, .. }
                &&& Some(m) == model
                &&& api_key == opt_view(env.openai_compat_api_key)
                &&& env.openai_compat_base_url matches Some(u) ==> base_url == u@
                &&& env.openai_compat_base_url is None ==> Some(base_url) == opt_view(
                    cfg.openai_compat_base_url,
                )
            }
            &&& known && model is None ==> r == Err::<ChoiceView, Seq<char>>(
                "set MINDER_MODEL -- openai-compat has no built-in default"@,
            )
        }),
{
    reveal_strlit("ollama");
    reveal_strlit("openai-compat");
    assert("ollama"@.len() != "openai-compat"@.len());
}

/// No other provider is known.
pub proof fn law_other_providers_are_unknown(
    provider: Seq<char>,
    model: Option<Seq<char>>,
    cfg: ProjectConfig,
    env: ProviderEnv,
)
    requires
        provider != "ollama"@,
        provider != "openai-compat"@,
    ensures
        chosen_provider(provider, model, cfg, env) == Err::<ChoiceView, Seq<char>>(
            "unknown provider '"@ + provider + "' (expected ollama or openai-compat)"@,
        ),
{
}

/// The provider and the model are those of the environment, else those of the
/// file, else Ollama.
pub proof fn law_provider_is_selected(cfg: ProjectConfig, env: ProviderEnv)
    ensures
        env.provider is Some && env.model is Some ==> main_choice(cfg, env) == chosen_provider(
            env.provider->0@,
            Some(env.model->0@),
            cfg,
            env,
        ),
        env.provider is None && env.model is None ==> main_choice(cfg, env) == chosen_provider(
            match cfg.provider {
                Some(p) => p@,
                None => "ollama"@,
            },
            opt_view(cfg.model),
            cfg,
            env,
        ),
{
}

// ---------------------------------------------------------------------------
// Unknown tools
// ---------------------------------------------------------------------------

/// A name is suggested exactly if one is near enough: within half as many changes
/// as the unknown name has bytes, or one. None is nearer, and none of the same
/// distance comes before it.
pub proof fn law_nearest_name_is_suggested(name: Seq<char>, names: Seq<Seq<char>>)
    ensures
        ({
            let far: int = if byte_len(name) >= 3 {
                byte_len(name) as int / 2
            } else {
                1
            };
            match suggestion(name, names) {
                Some(c) => exists|k: int|
                    0 <= k < names.len() && #[trigger] names[k] == c && edit_distance(name, c)
                        <= far && (forall|i: int|
                        0 <= i < names.len() ==> edit_distance(name, c) <= edit_distance(
                            name,
                            #[trigger] names[i],
                        )) && (forall|i: int|
                        0 <= i < k ==> edit_distance(name, c) < edit_distance(
                            name,
                            #[trigger] names[i],
                        )),
                None => forall|i: int|
                    0 <= i < names.len() ==> edit_distance(name, #[trigger] names[i]) > far,
            }
        }),
{
    if names.len() > 0 {
        lemma_nearest(name, names);
        let k = nearest(name, names);
        assert(names[k] == names[nearest(name, names)]);
    }
}

/// What is said of an unknown tool names it, the suggestion, and all tools.
pub proof fn law_unknown_tool_is_told(name: Seq<char>, names: Seq<Seq<char>>)
    ensures
        unknown_tool_text(name, names) == "Unknown tool '"@ + name + (match suggestion(name, names) {
            Some(c) => "'. Did you mean '"@ + c + "'? Available tools: "@,
            None => "'. Available tools: "@,
        }) + join(names, ", "@),
{
    if let Some(c) = suggestion(name, names) {
        assert("Unknown tool '"@ + name + "'. Did you mean '"@ + c + "'? Available tools: "@ + join(
            names,
            ", "@,
        ) =~= "Unknown tool '"@ + name + ("'. Did you mean '"@ + c + "'? Available tools: "@)
            + join(names, ", "@));
    }
}

// ---------------------------------------------------------------------------
// Loading
// ---------------------------------------------------------------------------

/// At the start there are the built-in tools and agents, and the plugins are
/// next.
pub proof fn law_setup_starts_with_what_is_built_in(agents: Seq<Seq<char>>)
    ensures
        ({
            let s = at_start(agents);
            &&& s.stage == Stage::Plugins
            &&& s.tools == seq![
                "read_file"@,
                "write_file"@,
                "edit_file"@,
                "delete_file"@,
                "bash"@,
                "glob"@,
                "grep"@,
                "ls"@,
                "git_diff"@,
                "git_log"@,
                "git_status"@,
                "git_commit"@,
                "web_fetch"@,
            ]
            &&& s.agents.len() == agents.len()
            &&& forall|i: int|
                0 <= i < agents.len() ==> (#[trigger] s.agents[i]).name == agents[i]
                    && s.agents[i].found is None
            &&& s.plugins.len() == 0 && !s.log && !s.status
        }),
{
}

/// The plugins are remembered; then the hooks are loaded, which changes nothing
/// else.
pub proof fn law_plugins_and_hooks(
    s: SetupView,
    names: Seq<Seq<char>>,
    e: Seq<char>,
    project: bool,
)
    ensures
        s.stage == Stage::Plugins ==> {
            let (t, r) = setup_step(s, SetupEventView::Plugins(Ok(names)));
            &&& t == (SetupView { plugins: names, stage: Stage::Hooks, ..s })
            &&& names.len() == 0 ==> r == Ok::<Option<Seq<char>>, Seq<char>>(None)
            &&& names.len() > 0 ==> (r matches Ok(Some(text)) && text == "loaded "@ + decimal(
                names.len(),
            ) + " plugin(s) from .agent/plugins/: "@ + join(names, ", "@))
            &&& setup_step(s, SetupEventView::Plugins(Err(e))).1 == Err::<
                Option<Seq<char>>,
                Seq<char>,
            >("failed to load plugins: "@ + e)
        },
        s.stage == Stage::Hooks ==> {
            let (t, r) = setup_step(s, SetupEventView::Hooks { project, failure: None });
            &&& t == (SetupView { stage: Stage::SearchKey, ..s })
            &&& project ==> (r matches Ok(Some(text)) && text == "loaded hooks from .agent/"@)
            &&& !project ==> r == Ok::<Option<Seq<char>>, Seq<char>>(None)
            &&& setup_step(s, SetupEventView::Hooks { project, failure: Some(e) }).1 == Err::<
                Option<Seq<char>>,
                Seq<char>,
            >("failed to load hooks: "@ + e)
        },
{
}

/// With a key, the web can be searched; with skills, there is a tool for them.
pub proof fn law_search_and_skills_bring_a_tool(s: SetupView, n: nat, e: Seq<char>)
    ensures
        s.stage == Stage::SearchKey ==> setup_step(s, SetupEventView::SearchKey(true)).0 == (
        SetupView { tools: s.tools.push("web_search"@), stage: Stage::Skills, ..s }) && setup_step(
            s,
            SetupEventView::SearchKey(false),
        ).0 == (SetupView { stage: Stage::Skills, ..s }),
        s.stage == Stage::Skills ==> {
            let (t, r) = setup_step(s, SetupEventView::Skills(Ok(n)));
            &&& t.stage == Stage::WasmTools
            &&& t.tools == if n > 0 {
                s.tools.push("skill"@)
            } else {
                s.tools
            }
            &&& n > 0 ==> (r matches Ok(Some(text)) && text == "loaded "@ + decimal(n)
                + " skill(s) from .agent/skills/ and plugins/"@)
            &&& n == 0 ==> r == Ok::<Option<Seq<char>>, Seq<char>>(None)
            &&& setup_step(s, SetupEventView::Skills(Err(e))).1 == Err::<
                Option<Seq<char>>,
                Seq<char>,
            >("failed to load skills: "@ + e)
        },
{
}

/// The tools that are loaded stand behind those that are there. The servers of
/// the plugins come one after the other.
pub proof fn law_loaded_tools_join(s: SetupView, names: Seq<Seq<char>>, i: usize)
    ensures
        s.stage == Stage::WasmTools ==> setup_step(s, SetupEventView::WasmTools(Ok(names))).0 == (
        SetupView { tools: s.tools + names, stage: Stage::McpTools, ..s }),
        s.stage == Stage::McpTools ==> setup_step(s, SetupEventView::McpTools(Ok(names))).0 == (
        SetupView {
            tools: s.tools + names,
            stage: if s.plugins.len() > 0 {
                Stage::PluginMcpTools(0)
            } else {
                Stage::LogFile
            },
            ..s
        }),
        s.stage == Stage::PluginMcpTools(i) && i + 1 < s.plugins.len() && i < usize::MAX ==> {
            let (t, r) = setup_step(s, SetupEventView::PluginMcpTools(Ok(names)));
            &&& t == (SetupView {
                tools: s.tools + names,
                stage: Stage::PluginMcpTools((i + 1) as usize),
                ..s
            })
            &&& names.len() > 0 ==> (r matches Ok(Some(text)) && text == "loaded "@ + decimal(
                names.len(),
            ) + (" mcp tool(s) from plugin '"@ + s.plugins[i as int] + "'"@))
        },
        s.stage == Stage::PluginMcpTools(i) && i + 1 >= s.plugins.len() ==> setup_step(
            s,
            SetupEventView::PluginMcpTools(Ok(names)),
        ).0 == (SetupView { tools: s.tools + names, stage: Stage::LogFile, ..s }),
{
}

/// A log is written where its file could be opened; the status where a file is
/// named for it.
pub proof fn law_log_and_status(s: SetupView, path: Seq<char>, e: Seq<char>)
    ensures
        s.stage == Stage::LogFile ==> {
            let (t, r) = setup_step(
                s,
                SetupEventView::LogFile(Some(LogFileView { path, failure: None })),
            );
            let (u, q) = setup_step(
                s,
                SetupEventView::LogFile(Some(LogFileView { path, failure: Some(e) })),
            );
            &&& t == (SetupView { log: true, stage: Stage::StatusFile, ..s })
            &&& r matches Ok(Some(text)) && text == "logging to "@ + path
            &&& u == (SetupView { stage: Stage::StatusFile, ..s })
            &&& q matches Ok(Some(text)) && text == "failed to open log file "@ + path + ": "@ + e
            &&& setup_step(s, SetupEventView::LogFile(None)).0 == (SetupView {
                stage: Stage::StatusFile,
                ..s
            })
        },
        s.stage == Stage::StatusFile ==> {
            let (t, r) = setup_step(s, SetupEventView::StatusFile(Some(path)));
            &&& t == (SetupView { status: true, stage: Stage::Subagents, ..s })
            &&& r matches Ok(Some(text)) && text == "writing status to "@ + path
            &&& setup_step(s, SetupEventView::StatusFile(None)).0 == (SetupView {
                stage: Stage::Subagents,
                ..s
            })
        },
{
}

/// The agents come last: their tools stand behind all others, and everything is
/// loaded.
pub proof fn law_agents_come_last(s: SetupView, names: Seq<Seq<char>>)
    requires
        s.stage == Stage::Subagents,
    ensures
        ({
            let (t, r) = setup_step(s, SetupEventView::Subagents(Ok(names)));
            &&& t.stage == Stage::Done
            &&& t.tools == s.tools + seq![
                "agent"@,
                "todo_write"@,
                "list_agents"@,
                "agent_output"@,
                "agent_stop"@,
            ]
            &&& names.len() > 0 ==> (r matches Ok(Some(text)) && text == "loaded "@ + decimal(
                names.len(),
            ) + " subagent(s) from .agent/agents/"@)
        }),
{
}

/// Where tools cannot be loaded, the start fails with what failed and why.
pub proof fn law_failed_tools_are_told(s: SetupView, e: Seq<char>, i: usize)
    ensures
        s.stage == Stage::WasmTools ==> setup_step(s, SetupEventView::WasmTools(Err(e))).1 == Err::<
            Option<Seq<char>>,
            Seq<char>,
        >("failed to load wasm plugins: "@ + e),
        s.stage == Stage::McpTools ==> setup_step(s, SetupEventView::McpTools(Err(e))).1 == Err::<
            Option<Seq<char>>,
            Seq<char>,
        >("failed to load mcp servers: "@ + e),
        s.stage == Stage::PluginMcpTools(i) && i < s.plugins.len() ==> setup_step(
            s,
            SetupEventView::PluginMcpTools(Err(e)),
        ).1 == Err::<Option<Seq<char>>, Seq<char>>(
            "failed to load mcp servers for plugin '"@ + s.plugins[i as int] + "': "@ + e,
        ),
        s.stage == Stage::Subagents ==> setup_step(s, SetupEventView::Subagents(Err(e))).1 == Err::<
            Option<Seq<char>>,
            Seq<char>,
        >("failed to load subagents: "@ + e),
        s.stage == Stage::Subagents ==> setup_step(s, SetupEventView::Subagents(Err(e))).0.stage
            == Stage::Failed,
{
}

/// How many tools were loaded is told, if any were.
pub proof fn law_loaded_tools_are_told(s: SetupView, names: Seq<Seq<char>>)
    ensures
        s.stage == Stage::WasmTools && names.len() > 0 ==> (setup_step(
            s,
            SetupEventView::WasmTools(Ok(names)),
        ).1 matches Ok(Some(text)) && text == "loaded "@ + decimal(names.len())
            + " wasm plugin tool(s) from .agent/tools/"@),
        s.stage == Stage::McpTools && names.len() > 0 ==> (setup_step(
            s,
            SetupEventView::McpTools(Ok(names)),
        ).1 matches Ok(Some(text)) && text == "loaded "@ + decimal(names.len())
            + " mcp tool(s) from .agent/mcp.toml"@),
        s.stage == Stage::McpTools && names.len() == 0 ==> setup_step(
            s,
            SetupEventView::McpTools(Ok(names)),
        ).1 == Ok::<Option<Seq<char>>, Seq<char>>(None),
{
}

proof fn lemma_slot_at(slots: Seq<SlotView>, name: Seq<char>, i: int)
    requires
        0 <= i,
    ensures
        match crate::setup::slot_at(slots, name, i) {
            Some(k) => i <= k < slots.len() && slots[k].name == name && forall|j: int|
                i <= j < k ==> (#[trigger] slots[j]).name != name,
            None => forall|j: int| i <= j < slots.len() ==> (#[trigger] slots[j]).name != name,
        },
    decreases slots.len() - i,
{
    if i < slots.len() && slots[i].name != name {
        lemma_slot_at(slots, name, i + 1);
    }
}

/// An agent of the project takes the place of the one with its name, or stands
/// behind the others.
pub proof fn law_agent_has_its_place(slots: Seq<SlotView>, name: Seq<char>, found: nat, k: int)
    ensures
        0 <= k < slots.len() && slots[k].name == name && (forall|j: int|
            0 <= j < k ==> (#[trigger] slots[j]).name != name) ==> with_agent(slots, name, found)
            == slots.update(k, SlotView { name, found: Some(found) }),
        (forall|j: int| 0 <= j < slots.len() ==> (#[trigger] slots[j]).name != name) ==> with_agent(
            slots,
            name,
            found,
        ) == slots.push(SlotView { name, found: Some(found) }),
{
    lemma_slot_at(slots, name, 0);
}

} // verus!
