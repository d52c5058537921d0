//! The AI service: the models and command-line tools it knows, the agent
//! configuration, and the rules that turn a chat message into one invocation
//! of the agent.

use vstd::prelude::*;
use vstd::string::StringExecFns;
use crate::backend::{BackendNames, BackendTag};
use crate::error::{AppError, AppResult};
use crate::runner::{CodeagentRunResult, CodeagentRunSpec};
use crate::text::{clone_text, opt_text, push_text, same_text, texts};

verus! {

/// The working directory of an invocation where none is configured.
pub const DEFAULT_WORKDIR: &'static str = ".";

/// How the agent executable is to be invoked.
#[derive(Clone, Debug, Default, PartialEq, Eq)]
pub struct CodeagentWrapperConfig {
    /// Optional explicit path to the agent executable.
    pub binary_path: Option<String>,
    /// The name of the backend to use. If omitted, or if it is not the name
    /// of a backend, the backend is derived from the request.
    pub backend: Option<String>,
    /// Working directory passed to the agent, and used as the process's
    /// current directory.
    pub workdir: Option<String>,
    /// Skip the agent's permission prompts.
    pub skip_permissions: bool,
    /// Timeout in milliseconds.
    pub timeout_ms: Option<u64>,
    /// Limit on parallel workers.
    pub max_parallel_workers: Option<u32>,
}

/// What the caller chose for one chat message.
#[derive(Clone, Debug, Default, PartialEq, Eq)]
pub struct AiChatOptions {
    /// The command-line tool selected by the caller.
    pub code_cli: Option<String>,
    /// The session to resume.
    pub resume_session_id: Option<String>,
    /// Whether the message is a parallel task description.
    pub parallel: bool,
    /// The model that a codex backend should use.
    pub codex_model: Option<String>,
}

/// The answer to one chat message.
#[derive(Clone, Debug, PartialEq, Eq)]
pub struct AiMessageResult {
    pub message: String,
    pub codeagent_session_id: Option<String>,
}

/// AI model configuration.
#[derive(Clone, Debug, PartialEq, Eq)]
pub struct AiModel {
    /// Model name
    pub name: String,
    /// API endpoint
    pub endpoint: String,
    /// API key
    pub api_key: String,
    /// Is active
    pub is_active: bool,
}

/// Command-line tool configuration.
#[derive(Clone, Debug, PartialEq, Eq)]
pub struct CodeCli {
    /// CLI name
    pub name: String,
    /// Command path
    pub command_path: String,
    /// Command arguments
    pub arguments: Vec<String>,
    /// Is active
    pub is_active: bool,
}

/// The names of the active models of `models`, in order.
pub open spec fn active_model_names(models: Seq<AiModel>) -> Seq<Seq<char>>
    decreases models.len(),
{
    if models.len() == 0 {
        Seq::empty()
    } else if models.last().is_active {
        active_model_names(models.drop_last()).push(models.last().name@)
    } else {
        active_model_names(models.drop_last())
    }
}

/// The names of the active tools of `clis`, in order.
pub open spec fn active_cli_names(clis: Seq<CodeCli>) -> Seq<Seq<char>>
    decreases clis.len(),
{
    if clis.len() == 0 {
        Seq::empty()
    } else if clis.last().is_active {
        active_cli_names(clis.drop_last()).push(clis.last().name@)
    } else {
        active_cli_names(clis.drop_last())
    }
}

/// `models` without the models named `name`, in order.
pub open spec fn models_without(models: Seq<AiModel>, name: Seq<char>) -> Seq<AiModel>
    decreases models.len(),
{
    if models.len() == 0 {
        Seq::empty()
    } else if models.last().name@ == name {
        models_without(models.drop_last(), name)
    } else {
        models_without(models.drop_last(), name).push(models.last())
    }
}

/// `clis` without the tools named `name`, in order.
pub open spec fn clis_without(clis: Seq<CodeCli>, name: Seq<char>) -> Seq<CodeCli>
    decreases clis.len(),
{
    if clis.len() == 0 {
        Seq::empty()
    } else if clis.last().name@ == name {
        clis_without(clis.drop_last(), name)
    } else {
        clis_without(clis.drop_last(), name).push(clis.last())
    }
}

/// Some model of `models` is named `name`.
pub open spec fn has_model(models: Seq<AiModel>, name: Seq<char>) -> bool {
    exists|i: int| 0 <= i < models.len() && (#[trigger] models[i]).name@ == name
}

/// The backend that a configuration names, if it names a known one.
pub open spec fn configured_backend(names: BackendNames, config: CodeagentWrapperConfig) -> Option<
    BackendTag,
> {
    match config.backend {
        Some(name) => names.named(name@),
        None => None,
    }
}

/// The invocation that answers `message` under a configuration, the caller's
/// options and the current model.
///
/// The backend is selected from the configured name, the selected tool and
/// the current model, in this order. The working directory is the configured
/// one, or `.`. Everything else is taken over as it is.
pub open spec fn planned_run(
    names: BackendNames,
    config: CodeagentWrapperConfig,
    current_model: Option<String>,
    message: Seq<char>,
    options: AiChatOptions,
    run: CodeagentRunSpec,
) -> bool {
    &&& run.task@ == message
    &&& run.backend == names.selected(
        configured_backend(names, config),
        opt_text(options.code_cli),
        opt_text(current_model),
    )
    &&& run.workdir@ == (match config.workdir {
        Some(dir) => dir@,
        None => DEFAULT_WORKDIR@,
    })
    &&& run.skip_permissions == config.skip_permissions
    &&& run.timeout_ms == config.timeout_ms
    &&& run.max_parallel_workers == config.max_parallel_workers
    &&& run.binary_path == config.binary_path
    &&& run.resume_session_id == options.resume_session_id
    &&& run.parallel == options.parallel
    &&& run.codex_model == options.codex_model
}

/// Manages the known models and tools, and plans agent invocations.
#[derive(Debug)]
pub struct AiService {
    /// Available AI models
    models: Vec<AiModel>,
    /// Available command-line tools
    code_clis: Vec<CodeCli>,
    /// Current model
    current_model: Option<String>,
    /// Agent configuration
    codeagent: CodeagentWrapperConfig,
    /// The names of the backends
    names: BackendNames,
}

fn clone_config(config: &CodeagentWrapperConfig) -> (out: CodeagentWrapperConfig)
    ensures
        out == *config,
{
    CodeagentWrapperConfig {
        binary_path: clone_text(&config.binary_path),
        backend: clone_text(&config.backend),
        workdir: clone_text(&config.workdir),
        skip_permissions: config.skip_permissions,
        timeout_ms: config.timeout_ms,
        max_parallel_workers: config.max_parallel_workers,
    }
}

impl AiService {
    /// The known models, in order.
    pub closed spec fn models(&self) -> Seq<AiModel> {
        self.models@
    }

    /// The known command-line tools, in order.
    pub closed spec fn code_clis(&self) -> Seq<CodeCli> {
        self.code_clis@
    }

    /// The model in use.
    pub closed spec fn current_model(&self) -> Option<String> {
        self.current_model
    }

    /// The agent configuration.
    pub closed spec fn codeagent_config(&self) -> CodeagentWrapperConfig {
        self.codeagent
    }

    /// The names of the backends.
    pub closed spec fn backend_names(&self) -> BackendNames {
        self.names
    }

    /// A service that knows `models`, uses `current_model`, knows no
    /// command-line tool and has an empty agent configuration.
    pub fn new(names: BackendNames, models: Vec<AiModel>, current_model: Option<String>) -> (service:
        Self)
        ensures
            service.backend_names() == names,
            service.models() == models@,
            service.code_clis().len() == 0,
            service.current_model() == current_model,
            service.codeagent_config() == (CodeagentWrapperConfig {
                binary_path: None,
                backend: None,
                workdir: None,
                skip_permissions: false,
                timeout_ms: None,
                max_parallel_workers: None,
            }),
    {
        AiService {
            models,
            code_clis: Vec::new(),
            current_model,
            codeagent: CodeagentWrapperConfig {
                binary_path: None,
                backend: None,
                workdir: None,
                skip_permissions: false,
                timeout_ms: None,
                max_parallel_workers: None,
            },
            names,
        }
    }

    /// Replaces the agent configuration.
    pub fn set_codeagent_config(&mut self, config: CodeagentWrapperConfig)
        ensures
            final(self).codeagent_config() == config,
            final(self).backend_names() == old(self).backend_names(),
            final(self).models() == old(self).models(),
            final(self).code_clis() == old(self).code_clis(),
            final(self).current_model() == old(self).current_model(),
    {
        self.codeagent = config;
    }

    /// A copy of the agent configuration.
    pub fn get_codeagent_config(&self) -> (config: CodeagentWrapperConfig)
        ensures
            config == self.codeagent_config(),
    {
        clone_config(&self.codeagent)
    }

    /// The names of the active models, in order.
    pub fn get_models(&self) -> (names: Vec<String>)
        ensures
            texts(names@) == active_model_names(self.models()),
    {
        let mut names: Vec<String> = Vec::new();
        let mut i: usize = 0;
        assert(texts(names@) =~= Seq::<Seq<char>>::empty());
        assert(self.models@.take(0) =~= Seq::<AiModel>::empty());
        while i < self.models.len()
            invariant
                i <= self.models.len(),
                texts(names@) == active_model_names(self.models@.take(i as int)),
            decreases self.models.len() - i,
        {
            assert(self.models@.take(i + 1).drop_last() == self.models@.take(i as int));
            if self.models[i].is_active {
                push_text(&mut names, self.models[i].name.clone());
            }
            i += 1;
        }
        assert(self.models@.take(i as int) == self.models@);
        names
    }

    /// Makes `model` the model in use, provided that a model of this name is
    /// known; else reports a configuration error and changes nothing.
    pub fn set_current_model(&mut self, model: String) -> (result: AppResult<()>)
        ensures
            final(self).models() == old(self).models(),
            final(self).code_clis() == old(self).code_clis(),
            final(self).codeagent_config() == old(self).codeagent_config(),
            final(self).backend_names() == old(self).backend_names(),
            has_model(old(self).models(), model@) ==> result is Ok && final(self).current_model()
                == Some(model),
            !has_model(old(self).models(), model@) ==> final(self).current_model() == old(
                self,
            ).current_model() && (result matches Err(AppError::ConfigError(detail)) && detail@
                == "Model not found: "@ + model@),
    {
        let mut i: usize = 0;
        while i < self.models.len()
            invariant
                i <= self.models.len(),
                forall|k: int| 0 <= k < i ==> (#[trigger] self.models@[k]).name@ != model@,
                *self == *old(self),
            decreases self.models.len() - i,
        {
            if same_text(self.models[i].name.as_str(), model.as_str()) {
                self.current_model = Some(model);
                return Ok(());
            }
            i += 1;
        }
        let mut detail = "Model not found: ".to_owned();
        detail.append(model.as_str());
        Err(AppError::ConfigError(detail))
    }

    /// Adds a model at the end of the known models.
    pub fn add_model(&mut self, model: AiModel)
        ensures
            final(self).models() == old(self).models().push(model),
            final(self).code_clis() == old(self).code_clis(),
            final(self).current_model() == old(self).current_model(),
            final(self).codeagent_config() == old(self).codeagent_config(),
            final(self).backend_names() == old(self).backend_names(),
    {
        self.models.push(model);
    }

    /// Removes every model named `name`.
    pub fn remove_model(&mut self, name: &str)
        ensures
            final(self).models() == models_without(old(self).models(), name@),
            final(self).code_clis() == old(self).code_clis(),
            final(self).current_model() == old(self).current_model(),
            final(self).codeagent_config() == old(self).codeagent_config(),
            final(self).backend_names() == old(self).backend_names(),
    {
        let ghost before = self.models@;
        let mut i: usize = 0;
        let ghost mut seen: int = 0;
        assert(before.take(0) =~= Seq::<AiModel>::empty());
        assert(before.skip(0) =~= before);
        while i < self.models.len()
            invariant
                i <= self.models.len(),
                0 <= seen <= before.len(),
                self.models@ == models_without(before.take(seen), name@) + before.skip(seen),
                i == models_without(before.take(seen), name@).len(),
                self.code_clis == old(self).code_clis,
                self.current_model == old(self).current_model,
                self.codeagent == old(self).codeagent,
                self.names == old(self).names,
            decreases self.models.len() - i,
        {
            proof {
                assert(self.models@[i as int] == before.skip(seen)[0]);
                assert(before.take(seen + 1).drop_last() == before.take(seen));
                assert(before.take(seen + 1).last() == before[seen]);
            }
            if same_text(self.models[i].name.as_str(), name) {
                self.models.remove(i);
                proof {
                    assert(self.models@ =~= models_without(before.take(seen + 1), name@)
                        + before.skip(seen + 1));
                }
            } else {
                proof {
                    assert(self.models@ =~= models_without(before.take(seen + 1), name@)
                        + before.skip(seen + 1));
                }
                i += 1;
            }
            proof {
                seen = seen + 1;
            }
        }
        proof {
            assert(before.skip(seen).len() == 0);
            assert(before.take(seen) == before);
            assert(self.models@ =~= models_without(before, name@));
        }
    }

    /// Adds a command-line tool at the end of the known tools.
    pub fn add_code_cli(&mut self, cli: CodeCli)
        ensures
            final(self).code_clis() == old(self).code_clis().push(cli),
            final(self).models() == old(self).models(),
            final(self).current_model() == old(self).current_model(),
            final(self).codeagent_config() == old(self).codeagent_config(),
            final(self).backend_names() == old(self).backend_names(),
    {
        self.code_clis.push(cli);
    }

    /// Removes every command-line tool named `name`.
    pub fn remove_code_cli(&mut self, name: &str)
        ensures
            final(self).code_clis() == clis_without(old(self).code_clis(), name@),
            final(self).models() == old(self).models(),
            final(self).current_model() == old(self).current_model(),
            final(self).codeagent_config() == old(self).codeagent_config(),
            final(self).backend_names() == old(self).backend_names(),
    {
        let ghost before = self.code_clis@;
        let mut i: usize = 0;
        let ghost mut seen: int = 0;
        assert(before.take(0) =~= Seq::<CodeCli>::empty());
        assert(before.skip(0) =~= before);
        while i < self.code_clis.len()
            invariant
                i <= self.code_clis.len(),
                0 <= seen <= before.len(),
                self.code_clis@ == clis_without(before.take(seen), name@) + before.skip(seen),
                i == clis_without(before.take(seen), name@).len(),
                self.models == old(self).models,
                self.current_model == old(self).current_model,
                self.codeagent == old(self).codeagent,
                self.names == old(self).names,
            decreases self.code_clis.len() - i,
        {
            proof {
                assert(self.code_clis@[i as int] == before.skip(seen)[0]);
                assert(before.take(seen + 1).drop_last() == before.take(seen));
                assert(before.take(seen + 1).last() == before[seen]);
            }
            if same_text(self.code_clis[i].name.as_str(), name) {
                self.code_clis.remove(i);
                proof {
                    assert(self.code_clis@ =~= clis_without(before.take(seen + 1), name@)
                        + before.skip(seen + 1));
                }
            } else {
                proof {
                    assert(self.code_clis@ =~= clis_without(before.take(seen + 1), name@)
                        + before.skip(seen + 1));
                }
                i += 1;
            }
            proof {
                seen = seen + 1;
            }
        }
        proof {
            assert(before.skip(seen).len() == 0);
            assert(before.take(seen) == before);
            assert(self.code_clis@ =~= clis_without(before, name@));
        }
    }

    /// The names of the active command-line tools, in order.
    pub fn get_code_clis(&self) -> (names: Vec<String>)
        ensures
            texts(names@) == active_cli_names(self.code_clis()),
    {
        let mut names: Vec<String> = Vec::new();
        let mut i: usize = 0;
        assert(texts(names@) =~= Seq::<Seq<char>>::empty());
        assert(self.code_clis@.take(0) =~= Seq::<CodeCli>::empty());
        while i < self.code_clis.len()
            invariant
                i <= self.code_clis.len(),
                texts(names@) == active_cli_names(self.code_clis@.take(i as int)),
            decreases self.code_clis.len() - i,
        {
            assert(self.code_clis@.take(i + 1).drop_last() == self.code_clis@.take(i as int));
            if self.code_clis[i].is_active {
                push_text(&mut names, self.code_clis[i].name.clone());
            }
            i += 1;
        }
        assert(self.code_clis@.take(i as int) == self.code_clis@);
        names
    }

    /// Plans the invocation of the agent that answers `message`.
    pub fn plan_run(&self, message: &str, options: AiChatOptions) -> (run: CodeagentRunSpec)
        ensures
            planned_run(
                self.backend_names(),
                self.codeagent_config(),
                self.current_model(),
                message@,
                options,
                run,
            ),
    {
        let explicit = match &self.codeagent.backend {
            Some(name) => self.names.from_name(name.as_str()),
            None => None,
        };
        let hint: Option<&str> = match &options.code_cli {
            Some(h) => Some(h.as_str()),
            None => None,
        };
        let current: Option<&str> = match &self.current_model {
            Some(m) => Some(m.as_str()),
            None => None,
        };
        let backend = self.names.select_backend(explicit, hint, current);
        let workdir = match &self.codeagent.workdir {
            Some(dir) => dir.clone(),
            None => DEFAULT_WORKDIR.to_owned(),
        };
        CodeagentRunSpec {
            task: message.to_owned(),
            backend,
            workdir,
            skip_permissions: self.codeagent.skip_permissions,
            timeout_ms: self.codeagent.timeout_ms,
            max_parallel_workers: self.codeagent.max_parallel_workers,
            binary_path: clone_text(&self.codeagent.binary_path),
            resume_session_id: options.resume_session_id,
            parallel: options.parallel,
            codex_model: options.codex_model,
        }
    }
}

/// The answer that a successful invocation gives to the chat message.
pub fn message_result(result: CodeagentRunResult) -> (answer: AiMessageResult)
    ensures
        answer.message == result.message,
        answer.codeagent_session_id == result.session_id,
{
    AiMessageResult { message: result.message, codeagent_session_id: result.session_id }
}

} // verus!
