//! The built-in slash commands.

use vstd::prelude::*;

verus! {

/// Built-in slash commands supported by the CodexPotter TUI.
#[derive(Clone, Copy, PartialEq, Eq, Structural, Hash, Debug)]
pub enum SlashCommand {
    /// Insert a file mention trigger (`@`) into the composer.
    Mention,
    /// Open the syntax theme picker (`/theme`).
    Theme,
    /// Exit the TUI (`/exit`).
    Exit,
}

impl SlashCommand {
    /// User-visible description shown in the `/` command popup.
    pub open spec fn description_v(self) -> Seq<char> {
        match self {
            SlashCommand::Mention => "mention a file"@,
            SlashCommand::Theme => "choose a syntax highlighting theme"@,
            SlashCommand::Exit => "exit CodexPotter"@,
        }
    }

    /// User-visible description shown in the `/` command popup.
    pub fn description(self) -> (s: &'static str)
        ensures
            s@ == self.description_v(),
    {
        match self {
            SlashCommand::Mention => "mention a file",
            SlashCommand::Theme => "choose a syntax highlighting theme",
            SlashCommand::Exit => "exit CodexPotter",
        }
    }

    /// Command string without the leading '/'.
    pub open spec fn command_v(self) -> Seq<char> {
        match self {
            SlashCommand::Mention => "mention"@,
            SlashCommand::Theme => "theme"@,
            SlashCommand::Exit => "exit"@,
        }
    }

    /// Command string without the leading '/'.
    pub fn command(self) -> (s: &'static str)
        ensures
            s@ == self.command_v(),
    {
        match self {
            SlashCommand::Mention => "mention",
            SlashCommand::Theme => "theme",
            SlashCommand::Exit => "exit",
        }
    }

    /// Whether this command can be run while a task is in progress.
    pub fn available_during_task(self) -> (b: bool)
        ensures
            b == (self != SlashCommand::Theme),
    {
        match self {
            SlashCommand::Theme => false,
            SlashCommand::Mention | SlashCommand::Exit => true,
        }
    }

    /// Whether this command supports inline args.
    pub fn supports_inline_args(self) -> (b: bool)
        ensures
            !b,
    {
        false
    }
}

/// All built-in commands in popup presentation order.
pub open spec fn built_ins() -> Seq<SlashCommand> {
    seq![SlashCommand::Mention, SlashCommand::Theme, SlashCommand::Exit]
}

/// Return all built-in commands, each with its name, in popup presentation order.
pub fn built_in_slash_commands() -> (r: Vec<(&'static str, SlashCommand)>)
    ensures
        r@.len() == built_ins().len(),
        forall|i: int|
            0 <= i < r@.len() ==> (#[trigger] r@[i]).1 == built_ins()[i] && r@[i].0@
                == built_ins()[i].command_v(),
{
    let mut r: Vec<(&'static str, SlashCommand)> = Vec::new();
    r.push((SlashCommand::Mention.command(), SlashCommand::Mention));
    r.push((SlashCommand::Theme.command(), SlashCommand::Theme));
    r.push((SlashCommand::Exit.command(), SlashCommand::Exit));
    r
}

/// Two different commands have different names.
pub proof fn law_command_names_differ(a: SlashCommand, b: SlashCommand)
    requires
        a.command_v() == b.command_v(),
    ensures
        a == b,
{
    reveal_strlit("mention");
    reveal_strlit("theme");
    reveal_strlit("exit");
    assert("mention"@.len() == 7 && "theme"@.len() == 5 && "exit"@.len() == 4);
}

/// The description of a command says its name, and every command is offered, once.
pub proof fn law_every_command_is_offered(command: SlashCommand)
    ensures
        exists|k: int|
            0 <= k && k + command.command_v().len() <= command.description_v().len()
                && #[trigger] command.description_v().subrange(
                k,
                k + command.command_v().len(),
            ) == command.command_v(),
        built_ins().contains(command),
        built_ins().no_duplicates(),
        built_ins().len() == 3,
{
    reveal_strlit("mention");
    reveal_strlit("theme");
    reveal_strlit("exit");
    reveal_strlit("mention a file");
    reveal_strlit("choose a syntax highlighting theme");
    reveal_strlit("exit CodexPotter");
    let name = command.command_v();
    let k: int = if command == SlashCommand::Theme {
        29
    } else {
        0
    };
    assert(command.description_v().subrange(k, k + name.len()) =~= name);
    assert(built_ins()[0] == SlashCommand::Mention);
    assert(built_ins()[1] == SlashCommand::Theme);
    assert(built_ins()[2] == SlashCommand::Exit);
}

} // verus!
