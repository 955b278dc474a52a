//! The configuration the application read before it had an interface:
//! registries, their commands, and how commands run.

use vstd::prelude::*;
use crate::name_map::NameMap;

verus! {

/// Shell commands that act on one registry.
pub struct RegistryCommands {
    /// Deletes an image.
    pub delete_image: String,
    /// Lists the digests in a project's registry.
    pub list_digests: String,
}

/// How an external command runs: in the background, or in the foreground.
#[derive(Debug, Clone, Copy, PartialEq, Eq, Structural)]
pub enum CommandBehaviour {
    Async,
    Interactive,
}

impl Default for CommandBehaviour {
    /// Commands run in the background unless configured otherwise.
    fn default() -> (b: CommandBehaviour)
        ensures
            b == CommandBehaviour::Async,
    {
        CommandBehaviour::Async
    }
}

/// The behaviour of each kind of external command.
#[derive(Debug, Clone, Copy, PartialEq, Eq, Structural)]
pub struct CommandBehaviours {
    pub push_image: CommandBehaviour,
    pub delete_image: CommandBehaviour,
}

impl Default for CommandBehaviours {
    /// Pushes run in the foreground, deletions in the background.
    fn default() -> (b: CommandBehaviours)
        ensures
            b.push_image == CommandBehaviour::Interactive,
            b.delete_image == CommandBehaviour::Async,
    {
        CommandBehaviours { push_image: CommandBehaviour::Interactive, delete_image: CommandBehaviour::default() }
    }
}

/// The configuration.
pub struct Config {
    /// The registry of each project.
    pub project_registries: NameMap<String>,
    /// The commands of each registry.
    pub registry_commands: NameMap<RegistryCommands>,
    pub command_behaviours: CommandBehaviours,
}

impl Default for Config {
    /// No registries, and the default behaviours.
    fn default() -> (c: Config)
        ensures
            c.project_registries@ == Map::<Seq<char>, String>::empty(),
            c.registry_commands@ == Map::<Seq<char>, RegistryCommands>::empty(),
            c.command_behaviours.push_image == CommandBehaviour::Interactive,
            c.command_behaviours.delete_image == CommandBehaviour::Async,
    {
        Config {
            project_registries: NameMap::new(),
            registry_commands: NameMap::new(),
            command_behaviours: CommandBehaviours::default(),
        }
    }
}

} // verus!
