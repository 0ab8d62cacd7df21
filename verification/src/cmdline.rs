//! Command line behind the `:` prompt.
//!
//! The buffer is split on white space and the first word picks the command.
//! There is no quoting and no escaping. Anything else is
//! [`Command::Unknown`], with the trimmed input to echo back.
use crate::text::{
    join_words, joined, same_text, split_words, trim, trim_end, trim_start, trimmed, views,
    white_space, word_len, words, lemma_word_len,
};
use vstd::prelude::*;

verus! {

/// A parsed command.
#[derive(Debug, Clone, PartialEq, Eq)]
pub enum Command {
    /// `:q`, `:quit`
    Quit,
    /// `:reload`
    Reload,
    /// `:back`
    Back,
    /// `:forward`
    Forward,
    /// `:open <url>`
    Open(String),
    /// `:tabnew`
    TabNew,
    /// `:set <key> <value>`
    SetOption { key: String, value: String },
    /// `:find <query>`
    Find(String),
    /// `:bookmark <tags...>`
    Bookmark { tags: Vec<String> },
    /// `:devtools`
    DevTools,
    /// Anything else, trimmed.
    Unknown(String),
}

/// Mathematical value of a [`Command`].
#[verifier::ext_equal]
pub enum CommandValue {
    Quit,
    Reload,
    Back,
    Forward,
    Open(Seq<char>),
    TabNew,
    SetOption { key: Seq<char>, value: Seq<char> },
    Find(Seq<char>),
    Bookmark { tags: Seq<Seq<char>> },
    DevTools,
    Unknown(Seq<char>),
}

impl View for Command {
    type V = CommandValue;

    open spec fn view(&self) -> CommandValue {
        match *self {
            Command::Quit => CommandValue::Quit,
            Command::Reload => CommandValue::Reload,
            Command::Back => CommandValue::Back,
            Command::Forward => CommandValue::Forward,
            Command::Open(s) => CommandValue::Open(s@),
            Command::TabNew => CommandValue::TabNew,
            Command::SetOption { key, value } => CommandValue::SetOption { key: key@, value: value@ },
            Command::Find(s) => CommandValue::Find(s@),
            Command::Bookmark { tags } => CommandValue::Bookmark { tags: views(tags@) },
            Command::DevTools => CommandValue::DevTools,
            Command::Unknown(s) => CommandValue::Unknown(s@),
        }
    }
}

/// The command with these words, if they form one.
pub open spec fn known(list: Seq<Seq<char>>) -> Option<CommandValue> {
    if list.len() == 0 {
        None
    } else {
        let head = list[0];
        let rest = list.skip(1);
        if head == "q"@ || head == "quit"@ {
            Some(CommandValue::Quit)
        } else if head == "reload"@ {
            Some(CommandValue::Reload)
        } else if head == "back"@ {
            Some(CommandValue::Back)
        } else if head == "forward"@ {
            Some(CommandValue::Forward)
        } else if head == "tabnew"@ {
            Some(CommandValue::TabNew)
        } else if head == "devtools"@ {
            Some(CommandValue::DevTools)
        } else if head == "open"@ && rest.len() > 0 {
            Some(CommandValue::Open(joined(rest)))
        } else if head == "find"@ && rest.len() > 0 {
            Some(CommandValue::Find(joined(rest)))
        } else if head == "set"@ && rest.len() == 2 {
            Some(CommandValue::SetOption { key: rest[0], value: rest[1] })
        } else if head == "bookmark"@ {
            Some(CommandValue::Bookmark { tags: rest })
        } else {
            None
        }
    }
}

/// The command that a buffer stands for.
pub open spec fn command_of(input: Seq<char>) -> CommandValue {
    match known(words(input)) {
        Some(c) => c,
        None => CommandValue::Unknown(trimmed(input)),
    }
}

/// `list` without its first word.
fn tail(list: &Vec<String>) -> (r: Vec<String>)
    requires
        list@.len() > 0,
    ensures
        views(r@) == views(list@).skip(1),
{
    let mut out: Vec<String> = Vec::new();
    let mut i: usize = 1;
    while i < list.len()
        invariant
            1 <= i <= list@.len(),
            views(out@) == views(list@).subrange(1, i as int),
        decreases list@.len() - i,
    {
        let ghost before = out@;
        let word = list[i].clone();
        out.push(word);
        assert(views(out@) =~= views(before).push(word@));
        assert(views(list@).subrange(1, i + 1) =~= views(list@).subrange(1, i as int).push(word@));
        i += 1;
    }
    assert(views(list@).subrange(1, list@.len() as int) =~= views(list@).skip(1));
    out
}

/// Parse a command-line buffer without its leading `:`.
pub fn parse(input: &str) -> (r: Command)
    ensures
        r@ == command_of(input@),
{
    let list = split_words(input);
    let unknown = trim(input);
    if list.len() == 0 {
        return Command::Unknown(unknown);
    }
    let n: usize = list.len();
    assert(views(list@)[0] == list@[0]@);
    let head = list[0].as_str();
    if same_text(head, "q") || same_text(head, "quit") {
        Command::Quit
    } else if same_text(head, "reload") {
        Command::Reload
    } else if same_text(head, "back") {
        Command::Back
    } else if same_text(head, "forward") {
        Command::Forward
    } else if same_text(head, "tabnew") {
        Command::TabNew
    } else if same_text(head, "devtools") {
        Command::DevTools
    } else if same_text(head, "open") && n > 1 {
        Command::Open(join_words(&list, 1))
    } else if same_text(head, "find") && n > 1 {
        Command::Find(join_words(&list, 1))
    } else if same_text(head, "set") && n == 3 {
        Command::SetOption { key: list[1].clone(), value: list[2].clone() }
    } else if same_text(head, "bookmark") {
        Command::Bookmark { tags: tail(&list) }
    } else {
        Command::Unknown(unknown)
    }
}

/// Command names for completion, in alphabetical order.
pub const COMMAND_NAMES: [&'static str; 11] = [
    "back",
    "bookmark",
    "devtools",
    "find",
    "forward",
    "open",
    "q",
    "quit",
    "reload",
    "set",
    "tabnew",
];

/// White space around a text has no part in its words.
proof fn lemma_words_trim_start(s: Seq<char>)
    ensures
        words(trim_start(s)) == words(s),
    decreases s.len(),
{
    if s.len() > 0 && white_space(s[0]) {
        lemma_words_trim_start(s.drop_first());
    }
}

/// Nor has white space after it.
proof fn lemma_words_drop_last(s: Seq<char>)
    requires
        s.len() > 0,
        white_space(s.last()),
    ensures
        words(s.drop_last()) == words(s),
    decreases s.len(),
{
    if s.len() == 1 {
        assert(words(s.drop_first()) == Seq::<Seq<char>>::empty());
    } else if white_space(s[0]) {
        lemma_words_drop_last(s.drop_first());
        assert(s.drop_last().drop_first() == s.drop_first().drop_last());
    } else {
        lemma_word_len_drop_last(s);
        lemma_word_len(s);
        lemma_word_len(s.drop_last());
        let n = word_len(s) as int;
        let rest = s.skip(n);
        assert(n < s.len());
        lemma_words_drop_last(rest);
        assert(rest.drop_last() == s.drop_last().skip(n));
        assert(s.drop_last().take(n) == s.take(n));
    }
}

/// A word ends before trailing white space.
proof fn lemma_word_len_drop_last(s: Seq<char>)
    requires
        s.len() > 0,
        white_space(s.last()),
    ensures
        word_len(s.drop_last()) == word_len(s),
        word_len(s) < s.len(),
    decreases s.len(),
{
    if s.len() > 1 && !white_space(s[0]) {
        lemma_word_len_drop_last(s.drop_first());
        assert(s.drop_last().drop_first() == s.drop_first().drop_last());
    }
}

proof fn lemma_words_trim_end(s: Seq<char>)
    ensures
        words(trim_end(s)) == words(s),
    decreases s.len(),
{
    if s.len() > 0 && white_space(s.last()) {
        lemma_words_trim_end(s.drop_last());
        lemma_words_drop_last(s);
    }
}

/// Trimming twice is trimming once.
proof fn lemma_trimmed_twice(s: Seq<char>)
    ensures
        trimmed(trimmed(s)) == trimmed(s),
{
    let t = trim_start(s);
    lemma_trim_start_head(s);
    lemma_trim_end_head(t);
    let u = trim_end(t);
    assert(trim_start(u) == u);
    lemma_trim_end_last(t);
}

proof fn lemma_trim_start_head(s: Seq<char>)
    ensures
        trim_start(s).len() > 0 ==> !white_space(trim_start(s)[0]),
    decreases s.len(),
{
    if s.len() > 0 && white_space(s[0]) {
        lemma_trim_start_head(s.drop_first());
    }
}

proof fn lemma_trim_end_head(s: Seq<char>)
    ensures
        trim_end(s).len() > 0 ==> s.len() > 0 && trim_end(s)[0] == s[0],
    decreases s.len(),
{
    if s.len() > 0 && white_space(s.last()) {
        lemma_trim_end_head(s.drop_last());
    }
}

proof fn lemma_trim_end_last(s: Seq<char>)
    ensures
        trim_end(trim_end(s)) == trim_end(s),
    decreases s.len(),
{
    if s.len() > 0 && white_space(s.last()) {
        lemma_trim_end_last(s.drop_last());
    }
}

/// White space around the buffer has no effect.
pub proof fn law_outer_white_space_is_ignored(input: Seq<char>)
    ensures
        command_of(trimmed(input)) == command_of(input),
{
    lemma_words_trim_start(input);
    lemma_words_trim_end(trim_start(input));
    lemma_trimmed_twice(input);
}

/// Only the words count: two buffers with the same words are the same
/// command, or are both unknown.
pub proof fn law_words_decide(x: Seq<char>, y: Seq<char>)
    requires
        words(x) == words(y),
    ensures
        command_of(x) is Unknown <==> command_of(y) is Unknown,
        !(command_of(x) is Unknown) ==> command_of(x) == command_of(y),
{
}

/// A buffer without words is unknown, with nothing to echo.
pub proof fn law_blank_input_is_unknown(input: Seq<char>)
    requires
        forall|i: int| 0 <= i < input.len() ==> white_space(#[trigger] input[i]),
    ensures
        command_of(input) == CommandValue::Unknown(Seq::empty()),
{
    lemma_blank(input);
}

proof fn lemma_blank(s: Seq<char>)
    requires
        forall|i: int| 0 <= i < s.len() ==> white_space(#[trigger] s[i]),
    ensures
        trim_start(s) == Seq::<char>::empty(),
        words(s) == Seq::<Seq<char>>::empty(),
    decreases s.len(),
{
    if s.len() > 0 {
        lemma_blank(s.drop_first());
    }
}

/// The first word picks the command: each of the names stands for one command
/// and no other word does.
pub proof fn law_names_pick_commands(input: Seq<char>)
    ensures
        ({
            let w = words(input);
            let c = command_of(input);
            &&& c is Quit <==> w.len() > 0 && (w[0] == "q"@ || w[0] == "quit"@)
            &&& c is Reload <==> w.len() > 0 && w[0] == "reload"@
            &&& c is Back <==> w.len() > 0 && w[0] == "back"@
            &&& c is Forward <==> w.len() > 0 && w[0] == "forward"@
            &&& c is TabNew <==> w.len() > 0 && w[0] == "tabnew"@
            &&& c is DevTools <==> w.len() > 0 && w[0] == "devtools"@
            &&& c is Open <==> w.len() > 1 && w[0] == "open"@
            &&& c is Find <==> w.len() > 1 && w[0] == "find"@
            &&& c is SetOption <==> w.len() == 3 && w[0] == "set"@
            &&& c is Bookmark <==> w.len() > 0 && w[0] == "bookmark"@
        }),
{
    lemma_names_differ();
}

/// What follows the name is the argument: the rest of the words, joined, for
/// an address or a query, the two words of an option, each word for a tag.
/// Anything that is no command is echoed back trimmed.
pub proof fn law_arguments_are_carried(input: Seq<char>)
    ensures
        ({
            let w = words(input);
            match command_of(input) {
                CommandValue::Open(url) => url == joined(w.subrange(1, w.len() as int)),
                CommandValue::Find(query) => query == joined(w.subrange(1, w.len() as int)),
                CommandValue::SetOption { key, value } => key == w[1] && value == w[2],
                CommandValue::Bookmark { tags } => tags == w.subrange(1, w.len() as int),
                CommandValue::Unknown(text) => text == trimmed(input),
                _ => true,
            }
        }),
{
    let w = words(input);
    lemma_names_differ();
    if w.len() > 0 {
        assert(w.skip(1) =~= w.subrange(1, w.len() as int));
    }
}

/// No two names are the same.
proof fn lemma_names_differ()
    ensures
        "q"@.len() == 1,
        "quit"@.len() == 4 && "quit"@[0] == 'q',
        "reload"@.len() == 6 && "reload"@[0] == 'r',
        "back"@.len() == 4 && "back"@[0] == 'b',
        "forward"@.len() == 7,
        "tabnew"@.len() == 6 && "tabnew"@[0] == 't',
        "devtools"@.len() == 8 && "devtools"@[0] == 'd',
        "open"@.len() == 4 && "open"@[0] == 'o',
        "find"@.len() == 4 && "find"@[0] == 'f',
        "set"@.len() == 3,
        "bookmark"@.len() == 8 && "bookmark"@[0] == 'b',
{
    reveal_strlit("q");
    reveal_strlit("quit");
    reveal_strlit("reload");
    reveal_strlit("back");
    reveal_strlit("forward");
    reveal_strlit("tabnew");
    reveal_strlit("devtools");
    reveal_strlit("open");
    reveal_strlit("find");
    reveal_strlit("set");
    reveal_strlit("bookmark");
}

/// A command is read off part by part.
pub proof fn law_command_is_read_off(text: String, value: String, tags: Vec<String>, i: int)
    ensures
        Command::Quit@ == CommandValue::Quit,
        Command::Reload@ == CommandValue::Reload,
        Command::Back@ == CommandValue::Back,
        Command::Forward@ == CommandValue::Forward,
        Command::Open(text)@ == CommandValue::Open(text@),
        Command::TabNew@ == CommandValue::TabNew,
        (Command::SetOption { key: text, value })@ == (CommandValue::SetOption {
            key: text@,
            value: value@,
        }),
        Command::Find(text)@ == CommandValue::Find(text@),
        (Command::Bookmark { tags })@ is Bookmark,
        (Command::Bookmark { tags })@->tags.len() == tags@.len(),
        0 <= i < tags@.len() ==> (Command::Bookmark { tags })@->tags[i] == tags@[i]@,
        Command::DevTools@ == CommandValue::DevTools,
        Command::Unknown(text)@ == CommandValue::Unknown(text@),
{
}

} // verus!
