//! The slash commands the chat box offers, and which of them to suggest
//! for what the user has typed.

use vstd::prelude::*;
use crate::api::{has_prefix, starts_with};
use crate::text::{lowercase, str_eq, to_lowercase};

verus! {

/// A slash command: its name, what it does and how to write it.
#[derive(Debug, Clone, Copy)]
pub struct CommandInfo {
    pub name: &'static str,
    pub description: &'static str,
    pub usage: &'static str,
}

/// Whether a command is suggested for `prefix`: its name in lower case
/// begins with the prefix in lower case.
pub open spec fn matches_prefix(c: CommandInfo, prefix: Seq<char>) -> bool {
    has_prefix(lowercase(c.name@), lowercase(prefix))
}

/// The commands of `cs` that match `prefix`, in order.
pub open spec fn matching(cs: Seq<CommandInfo>, prefix: Seq<char>) -> Seq<CommandInfo> {
    cs.filter(|c: CommandInfo| matches_prefix(c, prefix))
}

/// What the suggestion list shows for the typed `input`: nothing unless
/// it starts with `/`; every command for `/` alone; else the matching
/// commands, and nothing when none matches.
pub open spec fn suggested(cs: Seq<CommandInfo>, input: Seq<char>) -> Option<Seq<CommandInfo>> {
    if !has_prefix(input, "/"@) {
        None
    } else {
        let shown = if input == "/"@ {
            cs
        } else {
            matching(cs, input)
        };
        if shown.len() == 0 {
            None
        } else {
            Some(shown)
        }
    }
}

/// The slash commands.
#[derive(Debug)]
pub struct CommandRegistry {
    commands: Vec<CommandInfo>,
}

impl CommandRegistry {
    /// The commands, in order.
    pub closed spec fn model(&self) -> Seq<CommandInfo> {
        self.commands@
    }

    /// The registry of the chat box's commands.
    pub fn new() -> (r: CommandRegistry)
        ensures
            r.model().len() == 8,
            r.model()[0].name@ == "/see"@,
            r.model()[1].name@ == "/create"@,
            r.model()[2].name@ == "/edit"@,
            r.model()[3].name@ == "/delete"@,
            r.model()[4].name@ == "/run"@,
            r.model()[5].name@ == "/install"@,
            r.model()[6].name@ == "/projects"@,
            r.model()[7].name@ == "/help"@,
    {
        let mut commands: Vec<CommandInfo> = Vec::new();
        commands.push(CommandInfo { name: "/see", description: "View a file from linked codebase", usage: "/see <filename>" });
        commands.push(CommandInfo { name: "/create", description: "Create a new file", usage: "/create <path>" });
        commands.push(CommandInfo { name: "/edit", description: "Edit an existing file", usage: "/edit <path>" });
        commands.push(CommandInfo { name: "/delete", description: "Delete a file", usage: "/delete <path>" });
        commands.push(CommandInfo { name: "/run", description: "Run a shell command in sandbox", usage: "/run <command>" });
        commands.push(CommandInfo { name: "/install", description: "Install a dependency", usage: "/install <package>" });
        commands.push(CommandInfo { name: "/projects", description: "List linked projects", usage: "/projects" });
        commands.push(CommandInfo { name: "/help", description: "Show all available commands", usage: "/help" });
        CommandRegistry { commands }
    }

    /// The commands whose name begins with `prefix`, ignoring case (see
    /// `matching`).
    pub fn find_matches(&self, prefix: &str) -> (r: Vec<CommandInfo>)
        ensures
            r@ == matching(self.model(), prefix@),
    {
        let lower = to_lowercase(prefix);
        let mut r: Vec<CommandInfo> = Vec::new();
        let mut i: usize = 0;
        let ghost cs = self.commands@;
        let ghost pred = |c: CommandInfo| matches_prefix(c, prefix@);
        assert(cs.take(0).filter(pred) =~= Seq::<CommandInfo>::empty());
        while i < self.commands.len()
            invariant
                i <= cs.len(),
                cs == self.commands@,
                lower@ == lowercase(prefix@),
                pred == (|c: CommandInfo| matches_prefix(c, prefix@)),
                r@ == cs.take(i as int).filter(pred),
            decreases cs.len() - i,
        {
            let c = self.commands[i];
            let name = to_lowercase(c.name);
            proof {
                assert(cs.take(i + 1).drop_last() =~= cs.take(i as int));
                assert(cs.take(i + 1).last() == c);
                cs.take(i as int).lemma_filter_push(c, pred);
            }
            if starts_with(name.as_str(), lower.as_str()) {
                r.push(c);
            }
            assert(cs.take(i as int).push(c) =~= cs.take(i + 1));
            i = i + 1;
        }
        assert(cs.take(cs.len() as int) =~= cs);
        r
    }

    /// Every command, in order.
    pub fn all_commands(&self) -> (r: Vec<CommandInfo>)
        ensures
            r@ == self.model(),
    {
        let mut r: Vec<CommandInfo> = Vec::new();
        let mut i: usize = 0;
        while i < self.commands.len()
            invariant
                i <= self.commands@.len(),
                r@ == self.commands@.take(i as int),
            decreases self.commands@.len() - i,
        {
            r.push(self.commands[i]);
            assert(self.commands@.take(i + 1) =~= self.commands@.take(i as int).push(self.commands@[i as int]));
            i = i + 1;
        }
        assert(self.commands@.take(self.commands@.len() as int) =~= self.commands@);
        r
    }

    /// The commands to suggest for the typed `input`, or `None` when the
    /// suggestion list is to be hidden (see `suggested`).
    pub fn suggestions(&self, input: &str) -> (r: Option<Vec<CommandInfo>>)
        ensures
            match suggested(self.model(), input@) {
                Some(s) => r matches Some(v) && v@ == s,
                None => r is None,
            },
    {
        if !starts_with(input, "/") {
            return None;
        }
        let shown = if str_eq(input, "/") {
            self.all_commands()
        } else {
            self.find_matches(input)
        };
        if shown.len() == 0 {
            None
        } else {
            Some(shown)
        }
    }
}

} // verus!
