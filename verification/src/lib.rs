//! A local process supervisor: one actor owns the table of live child
//! processes, serves create/kill/wait/list requests from any number of
//! callers, and enforces the lifecycle policies (fail-fast on error,
//! auto-quit on completion, graceful mass-termination). The surrounding
//! program wires the actor to a thread, the terminal and the configuration
//! files; everything here is the supervision logic itself.
pub mod config;
pub mod errors;
pub mod kb;
pub mod manager;
pub mod process;
pub mod terminal;
pub mod text;

use vstd::prelude::*;
use vstd::string::StringExecFns;

use crate::config::{
    cmd_views, collect_commands_by_recipes, get_running_commands, spec_commands_by_recipes,
    spec_get_running_commands, spec_running_commands, str_views, texts_of, StartTogetherOptions,
    TogetherConfigFile,
};
use crate::errors::{TogetherError, TogetherInternalError, TogetherResult};
use crate::manager::{CreateOptions, ProcessAction, ProcessManagerHandle};
use crate::terminal::Terminal;

verus! {

/// The commands that are already settled before any prompt is shown: the
/// ones selected by recipe, else the remembered running set, else every
/// command when `all` is set. Nothing is settled when the operator must pick
/// interactively.
pub fn preselected_commands(options: &StartTogetherOptions) -> (r: Option<Vec<String>>)
    ensures
        match options.active_recipes {
            Some(recipes) => r matches Some(v) && str_views(v@) == spec_commands_by_recipes(
                cmd_views(options.config.start_options.commands@),
                str_views(recipes@),
            ),
            None => match spec_running_commands(options.config) {
                Some(texts) => r matches Some(v) && str_views(v@) == texts,
                None => {
                    if options.config.start_options.all {
                        r matches Some(v) && str_views(v@) == texts_of(
                            cmd_views(options.config.start_options.commands@),
                        )
                    } else {
                        r is None
                    }
                },
            },
        },
{
    if let Some(recipes) = &options.active_recipes {
        Terminal::log("Running commands from recipes...");
        let selected = collect_commands_by_recipes(&options.config.start_options, recipes);
        return Some(selected);
    }
    match options.config.running_commands() {
        Some(commands) => {
            Terminal::log("Running commands from configuration...");
            Some(commands)
        },
        None => {
            if options.config.start_options.all {
                Terminal::log("Running all commands...");
                Some(options.config.start_options.as_commands())
            } else {
                None
            }
        },
    }
}

/// The startup steps of a configuration: the commands its `startup` indices
/// resolve to, in order.
pub fn startup_commands(config: &TogetherConfigFile) -> (r: Vec<String>)
    ensures
        match config.startup {
            Some(startup) => str_views(r@) == spec_get_running_commands(
                cmd_views(config.start_options.commands@),
                crate::config::idx_views(startup@),
            ),
            None => r@.len() == 0,
        },
{
    match &config.startup {
        Some(startup) => get_running_commands(config, startup.as_slice()),
        None => Vec::new(),
    }
}

/// Runs every startup command to completion, one after the other: each is
/// spawned (with stdout silenced when `quiet_startup` asks for it) and then
/// awaited before the next one starts.
pub fn execute_startup_commands(manager: &ProcessManagerHandle, config: &TogetherConfigFile) -> (r:
    TogetherResult<()>)
    ensures
        r matches Err(e) ==> (e is DynError || e is ChannelRecvError || e matches
            TogetherError::InternalError(TogetherInternalError::UnexpectedResponse)),
{
    let commands = startup_commands(config);
    if commands.len() == 0 {
        return Ok(());
    }
    Terminal::log("Running startup commands...");
    let sender = manager.subscribe();
    let opts = if config.start_options.quiet_startup {
        CreateOptions::default().with_stderr_only()
    } else {
        CreateOptions::default()
    };
    let mut i: usize = 0;
    while i < commands.len()
        decreases commands@.len() - i,
    {
        let command = &commands[i];
        let id = match sender.spawn_advanced(command.as_str(), &opts) {
            Ok(id) => id,
            Err(e) => {
                return Err(e);
            },
        };
        match sender.wait(id) {
            Ok(()) => {},
            Err(e) => {
                return Err(e);
            },
        }
        let mut line = "Startup command '".to_owned();
        line.append(command.as_str());
        line.append("' completed");
        Terminal::log(line.as_str());
        i += 1;
    }
    Ok(())
}

/// Hands every selected command to the actor as a `Create` request.
pub fn execute_together_commands(manager: &ProcessManagerHandle, selected_commands: Vec<String>) -> (
    r: TogetherResult<()>)
    ensures
        r matches Err(e) ==> (e is DynError || e is ChannelRecvError),
{
    let sender = manager.subscribe();
    let mut i: usize = 0;
    while i < selected_commands.len()
        decreases selected_commands@.len() - i,
    {
        match sender.send(ProcessAction::Create(selected_commands[i].clone())) {
            Ok(_) => {},
            Err(e) => {
                return Err(e);
            },
        }
        i += 1;
    }
    Ok(())
}

} // verus!
