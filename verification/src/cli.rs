use vstd::prelude::*;
use crate::sync::NetworkCommand;
use crate::text::{
    all_whitespace, ends_quoted, lemma_scan_after_whitespace, lemma_words_before_whitespace, split_words,
    word_is, words_spec,
};

verus! {

/// What the interactive prompt does with one line of input.
#[derive(Debug, Clone)]
pub enum CliAction {
    /// A blank line: prompt again.
    Empty,
    /// A known command with the wrong number of arguments: print this usage.
    Usage(String),
    /// Hand `command` to the node; print `confirmation`, if any, once it was
    /// accepted.
    Send { command: NetworkCommand, confirmation: Option<String> },
    /// Print the list of commands.
    Help,
    /// Say goodbye and leave the prompt.
    Quit,
    /// The first word names no command.
    Unknown(String),
}

/// The action for a line whose words are `w`.
pub open spec fn cli_action_for(w: Seq<Seq<char>>, r: CliAction) -> bool {
    if w.len() == 0 {
        r is Empty
    } else if w[0] == "set"@ {
        if w.len() != 3 {
            r matches CliAction::Usage(u) && u@ == "Usage: set <key> <value>"@
        } else {
            r matches CliAction::Send { command: NetworkCommand::SetKey { key, value }, confirmation: Some(c) }
                && key@ == w[1] && value@ == w[2] && c@ == "Key set successfully"@
        }
    } else if w[0] == "get"@ {
        if w.len() != 2 {
            r matches CliAction::Usage(u) && u@ == "Usage: get <key>"@
        } else {
            r matches CliAction::Send { command: NetworkCommand::GetKey { key }, confirmation: None }
                && key@ == w[1]
        }
    } else if w[0] == "delete"@ {
        if w.len() != 2 {
            r matches CliAction::Usage(u) && u@ == "Usage: delete <key>"@
        } else {
            r matches CliAction::Send { command: NetworkCommand::DeleteKey { key }, confirmation: Some(c) }
                && key@ == w[1] && c@ == "Key deleted successfully"@
        }
    } else if w[0] == "list"@ {
        r matches CliAction::Send { command: NetworkCommand::ListKeys, confirmation: None }
    } else if w[0] == "help"@ {
        r is Help
    } else if w[0] == "quit"@ || w[0] == "exit"@ {
        r is Quit
    } else {
        r matches CliAction::Unknown(u) && u@ == w[0]
    }
}

/// Decides what one line typed at the prompt asks for. Words are separated
/// by whitespace, a double-quoted part keeps its spaces inside its word (so
/// `set mykey "Hello, World!"` sets `Hello, World!`), and the first word
/// names the command.
pub fn parse_cli_line(input: &str) -> (r: CliAction)
    ensures
        cli_action_for(words_spec(input@), r),
{
    let words = split_words(input);
    let ghost w = words_spec(input@);
    assert(words@.len() == w.len());
    if words.len() == 0 {
        return CliAction::Empty;
    }
    assert(words@[0]@ == w[0]);
    let first = &words[0];
    if word_is(first, "set") {
        if words.len() != 3 {
            CliAction::Usage("Usage: set <key> <value>".to_string())
        } else {
            assert(words@[1]@ == w[1] && words@[2]@ == w[2]);
            CliAction::Send {
                command: NetworkCommand::SetKey { key: words[1].clone(), value: words[2].clone() },
                confirmation: Some("Key set successfully".to_string()),
            }
        }
    } else if word_is(first, "get") {
        if words.len() != 2 {
            CliAction::Usage("Usage: get <key>".to_string())
        } else {
            assert(words@[1]@ == w[1]);
            CliAction::Send {
                command: NetworkCommand::GetKey { key: words[1].clone() },
                confirmation: None,
            }
        }
    } else if word_is(first, "delete") {
        if words.len() != 2 {
            CliAction::Usage("Usage: delete <key>".to_string())
        } else {
            assert(words@[1]@ == w[1]);
            CliAction::Send {
                command: NetworkCommand::DeleteKey { key: words[1].clone() },
                confirmation: Some("Key deleted successfully".to_string()),
            }
        }
    } else if word_is(first, "list") {
        CliAction::Send { command: NetworkCommand::ListKeys, confirmation: None }
    } else if word_is(first, "help") {
        CliAction::Help
    } else if word_is(first, "quit") || word_is(first, "exit") {
        CliAction::Quit
    } else {
        CliAction::Unknown(first.clone())
    }
}

/// Whitespace around a line does not change what it asks for: the words,
/// and so the command, are those of the line without it. (Whitespace after
/// quotes left open belongs to the quoted word, so such lines are left out.)
pub proof fn law_surrounding_whitespace_is_ignored(pre: Seq<char>, s: Seq<char>, post: Seq<char>)
    requires
        all_whitespace(pre),
        all_whitespace(post),
        !ends_quoted(s),
    ensures
        words_spec(pre + s + post) == words_spec(s),
        forall|r: CliAction| cli_action_for(words_spec(pre + s + post), r) == cli_action_for(words_spec(s), r),
{
    lemma_scan_after_whitespace(pre, s);
    lemma_words_before_whitespace(pre + s, post);
}

/// A command is sent only with exactly its words: `set` with a key and a
/// value (three words), `get` and `delete` with a key (two words), and the
/// command's key and value are those words. A `set`, `get` or `delete` line
/// with any other number of words is answered with its usage message, and
/// nothing is sent.
pub proof fn law_commands_take_exactly_their_words(line: Seq<char>, r: CliAction)
    requires
        cli_action_for(words_spec(line), r),
    ensures
        r matches CliAction::Send { command: NetworkCommand::SetKey { key, value }, .. } ==> {
            &&& words_spec(line).len() == 3
            &&& words_spec(line)[0] == "set"@
            &&& key@ == words_spec(line)[1]
            &&& value@ == words_spec(line)[2]
        },
        r matches CliAction::Send { command: NetworkCommand::GetKey { key }, .. } ==> {
            &&& words_spec(line).len() == 2
            &&& words_spec(line)[0] == "get"@
            &&& key@ == words_spec(line)[1]
        },
        r matches CliAction::Send { command: NetworkCommand::DeleteKey { key }, .. } ==> {
            &&& words_spec(line).len() == 2
            &&& words_spec(line)[0] == "delete"@
            &&& key@ == words_spec(line)[1]
        },
        words_spec(line).len() > 0 && words_spec(line)[0] == "set"@ && words_spec(line).len() != 3
            ==> (r matches CliAction::Usage(u) && u@ == "Usage: set <key> <value>"@),
        words_spec(line).len() > 0 && words_spec(line)[0] == "get"@ && words_spec(line).len() != 2
            ==> (r matches CliAction::Usage(u) && u@ == "Usage: get <key>"@),
        words_spec(line).len() > 0 && words_spec(line)[0] == "delete"@ && words_spec(line).len() != 2
            ==> (r matches CliAction::Usage(u) && u@ == "Usage: delete <key>"@),
{
    reveal_strlit("set");
    reveal_strlit("get");
    reveal_strlit("delete");
    assert("set"@[0] != "get"@[0]);
}

} // verus!
