//! The command palette: editor actions that can be run by name.

use crate::keybindings::Action;
use crate::fuzzy::{fuzzy_match, is_subsequence, lowercased, to_lowercase};
use vstd::prelude::*;

verus! {

/// An action under the name by which the palette offers it.
#[derive(Debug, Clone)]
pub struct Command {
    /// What the palette shows, such as "Open File".
    pub name: String,
    /// One line on what the command does.
    pub description: String,
    pub action: Action,
}

/// A command as text.
pub struct CommandView {
    pub name: Seq<char>,
    pub description: Seq<char>,
    pub action: Action,
}

impl View for Command {
    type V = CommandView;

    open spec fn view(&self) -> CommandView {
        CommandView { name: self.name@, description: self.description@, action: self.action }
    }
}

/// One entry of a completion list.
#[derive(Debug, Clone, PartialEq)]
pub struct Suggestion {
    /// What the list shows.
    pub text: String,
    pub description: Option<String>,
    /// What is taken when the entry is chosen; the text itself where absent.
    pub value: Option<String>,
}

/// A suggestion as text.
pub struct SuggestionView {
    pub text: Seq<char>,
    pub description: Option<Seq<char>>,
    pub value: Option<Seq<char>>,
}

impl View for Suggestion {
    type V = SuggestionView;

    open spec fn view(&self) -> SuggestionView {
        SuggestionView {
            text: self.text@,
            description: match self.description {
                Some(d) => Some(d@),
                None => None,
            },
            value: match self.value {
                Some(v) => Some(v@),
                None => None,
            },
        }
    }
}

impl SuggestionView {
    /// What choosing the suggestion yields.
    pub open spec fn chosen(self) -> Seq<char> {
        match self.value {
            Some(v) => v,
            None => self.text,
        }
    }
}

impl Suggestion {
    /// A suggestion that shows `text` and yields it when chosen.
    pub fn new(text: String) -> (s: Self)
        ensures
            s == (Suggestion { text, description: None, value: None }),
    {
        Self { text, description: None, value: None }
    }

    /// A suggestion that shows `text` beside a description.
    pub fn with_description(text: String, description: String) -> (s: Self)
        ensures
            s == (Suggestion { text, description: Some(description), value: None }),
    {
        Self { text, description: Some(description), value: None }
    }

    /// What choosing the suggestion yields: its value, or its text where it
    /// has no value.
    pub fn get_value(&self) -> (v: &str)
        ensures
            v@ == self@.chosen(),
    {
        match &self.value {
            Some(v) => v.as_str(),
            None => self.text.as_str(),
        }
    }
}

/// The views of a list of commands.
pub open spec fn command_views(s: Seq<Command>) -> Seq<CommandView> {
    s.map_values(|c: Command| c@)
}

/// The views of a list of suggestions.
pub open spec fn suggestion_views(s: Seq<Suggestion>) -> Seq<SuggestionView> {
    s.map_values(|s: Suggestion| s@)
}

/// The palette, in the order in which it is shown.
pub open spec fn palette() -> Seq<CommandView> {
    seq![
        CommandView {
            name: "Open File"@,
            description: "Open a file in a new or existing buffer"@,
            action: Action::Open,
        },
        CommandView {
            name: "Save File"@,
            description: "Save the current buffer to disk"@,
            action: Action::Save,
        },
        CommandView { name: "Quit"@, description: "Exit the editor"@, action: Action::Quit },
        CommandView {
            name: "Show Help"@,
            description: "Display the help page with all keybindings"@,
            action: Action::ShowHelp,
        },
        CommandView { name: "Undo"@, description: "Undo the last edit"@, action: Action::Undo },
        CommandView {
            name: "Redo"@,
            description: "Redo the last undone edit"@,
            action: Action::Redo,
        },
        CommandView {
            name: "Copy"@,
            description: "Copy selection to clipboard"@,
            action: Action::Copy,
        },
        CommandView {
            name: "Cut"@,
            description: "Cut selection to clipboard"@,
            action: Action::Cut,
        },
        CommandView { name: "Paste"@, description: "Paste from clipboard"@, action: Action::Paste },
        CommandView {
            name: "Select All"@,
            description: "Select all text in the buffer"@,
            action: Action::SelectAll,
        },
        CommandView {
            name: "Select Word"@,
            description: "Select the word under the cursor"@,
            action: Action::SelectWord,
        },
        CommandView {
            name: "Select Line"@,
            description: "Select the current line"@,
            action: Action::SelectLine,
        },
        CommandView {
            name: "Expand Selection"@,
            description: "Expand the current selection by one word"@,
            action: Action::ExpandSelection,
        },
        CommandView {
            name: "Add Cursor Above"@,
            description: "Add a cursor on the line above"@,
            action: Action::AddCursorAbove,
        },
        CommandView {
            name: "Add Cursor Below"@,
            description: "Add a cursor on the line below"@,
            action: Action::AddCursorBelow,
        },
        CommandView {
            name: "Add Cursor at Next Match"@,
            description: "Add a cursor at the next occurrence of the selection"@,
            action: Action::AddCursorNextMatch,
        },
        CommandView {
            name: "Remove Secondary Cursors"@,
            description: "Remove all cursors except the primary"@,
            action: Action::RemoveSecondaryCursors,
        },
    ]
}

/// Every command of the palette.
pub fn get_all_commands() -> (commands: Vec<Command>)
    ensures
        command_views(commands@) == palette(),
{
    let commands = vec![
        Command {
            name: "Open File".to_string(),
            description: "Open a file in a new or existing buffer".to_string(),
            action: Action::Open,
        },
        Command {
            name: "Save File".to_string(),
            description: "Save the current buffer to disk".to_string(),
            action: Action::Save,
        },
        Command {
            name: "Quit".to_string(),
            description: "Exit the editor".to_string(),
            action: Action::Quit,
        },
        Command {
            name: "Show Help".to_string(),
            description: "Display the help page with all keybindings".to_string(),
            action: Action::ShowHelp,
        },
        Command {
            name: "Undo".to_string(),
            description: "Undo the last edit".to_string(),
            action: Action::Undo,
        },
        Command {
            name: "Redo".to_string(),
            description: "Redo the last undone edit".to_string(),
            action: Action::Redo,
        },
        Command {
            name: "Copy".to_string(),
            description: "Copy selection to clipboard".to_string(),
            action: Action::Copy,
        },
        Command {
            name: "Cut".to_string(),
            description: "Cut selection to clipboard".to_string(),
            action: Action::Cut,
        },
        Command {
            name: "Paste".to_string(),
            description: "Paste from clipboard".to_string(),
            action: Action::Paste,
        },
        Command {
            name: "Select All".to_string(),
            description: "Select all text in the buffer".to_string(),
            action: Action::SelectAll,
        },
        Command {
            name: "Select Word".to_string(),
            description: "Select the word under the cursor".to_string(),
            action: Action::SelectWord,
        },
        Command {
            name: "Select Line".to_string(),
            description: "Select the current line".to_string(),
            action: Action::SelectLine,
        },
        Command {
            name: "Expand Selection".to_string(),
            description: "Expand the current selection by one word".to_string(),
            action: Action::ExpandSelection,
        },
        Command {
            name: "Add Cursor Above".to_string(),
            description: "Add a cursor on the line above".to_string(),
            action: Action::AddCursorAbove,
        },
        Command {
            name: "Add Cursor Below".to_string(),
            description: "Add a cursor on the line below".to_string(),
            action: Action::AddCursorBelow,
        },
        Command {
            name: "Add Cursor at Next Match".to_string(),
            description: "Add a cursor at the next occurrence of the selection".to_string(),
            action: Action::AddCursorNextMatch,
        },
        Command {
            name: "Remove Secondary Cursors".to_string(),
            description: "Remove all cursors except the primary".to_string(),
            action: Action::RemoveSecondaryCursors,
        },
    ];
    proof {
        assert(command_views(commands@) =~= palette());
    }
    commands
}

/// The commands offered for `query`: all of them for an empty query, else
/// those whose name holds the characters of the query in order, case aside.
pub open spec fn offered_for(query: Seq<char>) -> spec_fn(CommandView) -> bool {
    |c: CommandView| query.len() == 0 || is_subsequence(lowercased(query), lowercased(c.name))
}

/// The completion entry that stands for a command: its name, with its
/// description beside it.
pub open spec fn as_suggestion(c: CommandView) -> SuggestionView {
    SuggestionView { text: c.name, description: Some(c.description), value: None }
}

/// The completion entries for a list of commands, in the same order.
pub open spec fn suggestions_of(commands: Seq<CommandView>) -> Seq<SuggestionView> {
    commands.map_values(|c: CommandView| as_suggestion(c))
}

/// The palette's commands that match `query`, in palette order, as
/// completion entries.
pub fn filter_commands(query: &str) -> (found: Vec<Suggestion>)
    ensures
        suggestion_views(found@) == suggestions_of(palette().filter(offered_for(query@))),
{
    let query_lower = to_lowercase(query);
    let show_all = query.is_empty();
    let commands = get_all_commands();
    let ghost all = commands@;
    let ghost wanted = offered_for(query@);
    let mut found: Vec<Suggestion> = Vec::new();
    for cmd in it: commands
        invariant
            it.seq() == all,
            command_views(all) == palette(),
            wanted == offered_for(query@),
            show_all == (query@.len() == 0),
            query_lower@ == lowercased(query@),
            suggestion_views(found@) == suggestions_of(
                command_views(all.take(it.index() as int)).filter(wanted),
            ),
    {
        let ghost seen = command_views(all.take(it.index() as int));
        proof {
            assert(command_views(all.take(it.index() + 1)) =~= seen.push(cmd@));
            Seq::lemma_filter_push(seen, cmd@, wanted);
        }
        let offered = show_all || {
            let name_lower = to_lowercase(cmd.name.as_str());
            fuzzy_match(query_lower.as_str(), name_lower.as_str())
        };
        if offered {
            let suggestion = Suggestion::with_description(cmd.name.clone(), cmd.description);
            proof {
                assert(suggestion@ == as_suggestion(cmd@));
                assert(suggestion_views(found@.push(suggestion)) =~= suggestion_views(
                    found@,
                ).push(suggestion@));
                assert(suggestions_of(seen.filter(wanted).push(cmd@)) =~= suggestions_of(
                    seen.filter(wanted),
                ).push(as_suggestion(cmd@)));
            }
            found.push(suggestion);
        }
    }
    proof {
        assert(all.take(all.len() as int) =~= all);
    }
    found
}

} // verus!
