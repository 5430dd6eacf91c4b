//! The commands of the console, as they are typed.

use vstd::prelude::*;

use crate::config::{ascii_alphanumeric, is_slug, validate_slug};
use crate::order::texts;
use crate::text::{
    back_dropped, begins, chars_of, drop_back, drop_front, first_position, front_dropped,
    is_whitespace, law_back_dropped_keeps_the_rest, law_begins_with_what_stands_in_front,
    law_first_position, law_front_dropped_keeps_the_rest, law_trimmed_behind_a_word,
    law_white_space_around_is_lost, position, slice, spells, strip_prefix, trim, trimmed, whole,
    CharSet,
};

verus! {

/// A command, as typed.
#[derive(Debug)]
pub enum Command {
    Help,
    Reload,
    Disable { name: String },
    Add { name: String, command: String, args: Vec<String> },
    List,
    Status,
    Exit,
    /// A command that something is wrong with, and the text that says so.
    Complaint(String),
}

/// What a `Command` is.
pub enum CommandV {
    Help,
    Reload,
    Disable { name: Seq<char> },
    Add { name: Seq<char>, command: Seq<char>, args: Seq<Seq<char>> },
    List,
    Status,
    Exit,
    Complaint(Seq<char>),
}

impl View for Command {
    type V = CommandV;

    open spec fn view(&self) -> CommandV {
        match *self {
            Command::Help => CommandV::Help,
            Command::Reload => CommandV::Reload,
            Command::Disable { name } => CommandV::Disable { name: name@ },
            Command::Add { name, command, args } => CommandV::Add {
                name: name@,
                command: command@,
                args: texts(args@),
            },
            Command::List => CommandV::List,
            Command::Status => CommandV::Status,
            Command::Exit => CommandV::Exit,
            Command::Complaint(text) => CommandV::Complaint(text@),
        }
    }
}

/// `s` without the double quotes around it, where there are both.
pub open spec fn unquoted(s: Seq<char>) -> Seq<char> {
    if s.len() >= 2 && s[0] == '"' && s.last() == '"' {
        s.subrange(1, s.len() - 1)
    } else {
        s
    }
}

/// The first word of `s`, up to the first space, and what follows it.
pub open spec fn word_and_rest(s: Seq<char>) -> (Seq<char>, Seq<char>) {
    match first_position(s, ' ') {
        Some(i) => (trimmed(s.take(i)), trimmed(s.skip(i))),
        None => (trimmed(s), Seq::empty()),
    }
}

/// The name that `s` begins with, and what follows it: a word, or what stands between double
/// quotes. There is none where a quote is not closed.
pub open spec fn name_and_rest(s: Seq<char>) -> Option<(Seq<char>, Seq<char>)> {
    if begins(s, "\""@) {
        let inner = s.skip(1);
        match first_position(inner, '"') {
            Some(i) => Some((trimmed(inner.take(i)), trimmed(inner.skip(i + 1)))),
            None => None,
        }
    } else {
        Some(word_and_rest(s))
    }
}

/// A character between arguments.
pub open spec fn is_separator(c: char) -> bool {
    is_whitespace(c) || c == ','
}

/// The argument that a double quote opens, read from behind the quote, and how many characters
/// it takes. A backslash stands for the character behind it.
pub open spec fn quoted(s: Seq<char>, escaped: bool) -> (Seq<char>, nat)
    decreases s.len(),
{
    if s.len() == 0 {
        (Seq::empty(), 0)
    } else if !escaped && s[0] == '"' {
        (Seq::empty(), 1)
    } else if !escaped && s[0] == '\\' {
        let (arg, n) = quoted(s.skip(1), true);
        (arg, n + 1)
    } else {
        let (arg, n) = quoted(s.skip(1), false);
        (seq![s[0]] + arg, n + 1)
    }
}

/// How many characters of `s` come before a separator or a double quote.
pub open spec fn bare(s: Seq<char>) -> nat
    decreases s.len(),
{
    if s.len() == 0 || is_separator(s[0]) || s[0] == '"' {
        0
    } else {
        bare(s.skip(1)) + 1
    }
}

/// The arguments in `s`: bare or in double quotes, with white space or commas between them.
pub open spec fn arguments(s: Seq<char>) -> Seq<Seq<char>>
    decreases s.len(),
{
    if s.len() == 0 {
        Seq::empty()
    } else if is_separator(s[0]) {
        arguments(s.skip(1))
    } else if s[0] == '"' {
        proof {
            lemma_quoted_within(s.skip(1), false);
        }
        let (arg, n) = quoted(s.skip(1), false);
        seq![arg] + arguments(s.skip(1).skip(n as int))
    } else {
        proof {
            lemma_bare_within(s.skip(1));
        }
        let n = bare(s.skip(1)) + 1;
        seq![s.take(n as int)] + arguments(s.skip(n as int))
    }
}

/// The part of a line that holds the arguments, without angle and square brackets around it.
pub open spec fn unbracketed(s: Seq<char>) -> Seq<char> {
    let angle = back_dropped(front_dropped(s, CharSet::Only('<')), CharSet::Only('>'));
    trimmed(back_dropped(front_dropped(angle, CharSet::Only('[')), CharSet::Only(']')))
}

/// The command to add a server; `s` is what follows the words of the command.
pub open spec fn parsed_add(s: Seq<char>) -> CommandV {
    match name_and_rest(s) {
        None => CommandV::Complaint("Error: unclosed double quotes in tool name."@),
        Some((name, rest)) => {
            let (command, args) = word_and_rest(rest);
            if name.len() == 0 {
                CommandV::Complaint(
                    "Error: please specify a tool name, e.g.: /mcp add \"mcp-filesystem\" npx \"args\""@,
                )
            } else if command.len() == 0 {
                CommandV::Complaint(
                    "Error: missing command for tool \""@ + name
                        + "\". Usage: /mcp add \"tool_name\" <command> [args]"@,
                )
            } else if !is_slug(name) {
                CommandV::Complaint(
                    "Error: invalid tool name '"@ + name + "': invalid server id: "@ + name,
                )
            } else {
                CommandV::Add { name, command, args: arguments(unbracketed(args)) }
            }
        },
    }
}

/// The command to disable a server; `s` is what follows the words of the command.
pub open spec fn parsed_disable(s: Seq<char>) -> CommandV {
    if unquoted(s).len() == 0 {
        CommandV::Complaint(
            "Error: please specify a tool name to disable, e.g.: /mcp disable \"mcp-filesystem\""@,
        )
    } else {
        CommandV::Disable { name: unquoted(s) }
    }
}

/// The command that a line holds.
pub open spec fn parsed(line: Seq<char>) -> CommandV {
    let input = trimmed(line);
    if input == "/help"@ || input == "/mcp help"@ || input == "help"@ {
        CommandV::Help
    } else if input == "/mcp server reload"@ || input == "/server reload"@ {
        CommandV::Reload
    } else if begins(input, "/mcp disable"@) {
        parsed_disable(trimmed(input.skip("/mcp disable"@.len() as int)))
    } else if begins(input, "/mcp add"@) {
        parsed_add(trimmed(input.skip("/mcp add"@.len() as int)))
    } else if input == "/list"@ || input == "/mcp list"@ || input == "list"@ {
        CommandV::List
    } else if input == "/status"@ || input == "/mcp status"@ || input == "status"@ {
        CommandV::Status
    } else if input == "/exit"@ || input == "/shutdown"@ || input == "exit"@ {
        CommandV::Exit
    } else {
        CommandV::Complaint(
            "Unknown command: '"@ + input + "'. Type /help for all available control commands."@,
        )
    }
}

/// A quoted argument lies within the text.
pub proof fn lemma_quoted_within(s: Seq<char>, escaped: bool)
    ensures
        quoted(s, escaped).1 <= s.len(),
    decreases s.len(),
{
    if s.len() > 0 {
        lemma_quoted_within(s.skip(1), true);
        lemma_quoted_within(s.skip(1), false);
    }
}

/// A bare argument lies within the text.
pub proof fn lemma_bare_within(s: Seq<char>)
    ensures
        bare(s) <= s.len(),
    decreases s.len(),
{
    if s.len() > 0 {
        lemma_bare_within(s.skip(1));
    }
}

fn separates(c: char) -> (r: bool)
    ensures
        r == is_separator(c),
{
    CharSet::Whitespace.contains(c) || c == ','
}

/// Reads a quoted argument from `chars[from..]`; also returns where it ends.
fn read_quoted(chars: &Vec<char>, from: usize) -> (r: (String, usize))
    requires
        from <= chars@.len(),
    ensures
        r.0@ == quoted(chars@.skip(from as int), false).0,
        r.1 == from + quoted(chars@.skip(from as int), false).1,
        r.1 <= chars@.len(),
{
    let ghost all = quoted(chars@.skip(from as int), false);
    let mut arg: String = String::new();
    let mut escaped: bool = false;
    let mut i: usize = from;
    let mut open: bool = true;
    assert(arg@ + all.0 =~= all.0);
    while open && i < chars.len()
        invariant
            from <= i <= chars@.len(),
            all == quoted(chars@.skip(from as int), false),
            open ==> all.0 == arg@ + quoted(chars@.skip(i as int), escaped).0,
            open ==> from + all.1 == i + quoted(chars@.skip(i as int), escaped).1,
            !open ==> all.0 == arg@ && from + all.1 == i,
        decreases chars@.len() - i,
    {
        let c: char = chars[i];
        let ghost rest = chars@.skip(i as int);
        let ghost before = arg@;
        assert(rest.skip(1) == chars@.skip(i + 1));
        assert(rest[0] == c);
        if escaped {
            arg.push(c);
            escaped = false;
            assert(before + (seq![c] + quoted(rest.skip(1), false).0) =~= arg@ + quoted(
                rest.skip(1),
                false,
            ).0);
        } else if c == '\\' {
            escaped = true;
        } else if c == '"' {
            open = false;
            assert(before + Seq::<char>::empty() =~= before);
        } else {
            arg.push(c);
            assert(before + (seq![c] + quoted(rest.skip(1), false).0) =~= arg@ + quoted(
                rest.skip(1),
                false,
            ).0);
        }
        i = i + 1;
    }
    proof {
        assert(open ==> chars@.skip(i as int).len() == 0);
        assert(arg@ + Seq::<char>::empty() =~= arg@);
    }
    (arg, i)
}

/// Reads the arguments in `chars`.
pub fn parse_arguments(chars: &Vec<char>) -> (args: Vec<String>)
    ensures
        texts(args@) == arguments(chars@),
{
    let ghost all = arguments(chars@);
    let mut args: Vec<String> = Vec::new();
    let mut i: usize = 0;
    assert(chars@.skip(0) == chars@);
    assert(texts(args@) + all =~= all);
    while i < chars.len()
        invariant
            i <= chars@.len(),
            all == texts(args@) + arguments(chars@.skip(i as int)),
        decreases chars@.len() - i,
    {
        let ghost rest = chars@.skip(i as int);
        let ghost before = args@;
        assert(rest[0] == chars@[i as int]);
        assert(rest.skip(1) == chars@.skip(i + 1));
        let c: char = chars[i];
        if separates(c) {
            i = i + 1;
        } else if c == '"' {
            let (arg, end) = read_quoted(chars, i + 1);
            proof {
                let n = quoted(rest.skip(1), false).1;
                assert(rest.skip(1).skip(n as int) =~= chars@.skip(end as int));
                assert(texts(before.push(arg)) =~= texts(before).push(arg@));
                assert(texts(before) + (seq![arg@] + arguments(chars@.skip(end as int)))
                    =~= texts(before).push(arg@) + arguments(chars@.skip(end as int)));
            }
            args.push(arg);
            i = end;
        } else {
            let from: usize = i;
            i = i + 1;
            while i < chars.len() && !separates(chars[i]) && chars[i] != '"'
                invariant
                    from < i <= chars@.len(),
                    bare(chars@.skip(from + 1)) + 1 == i - from + bare(chars@.skip(i as int)),
                decreases chars@.len() - i,
            {
                assert(chars@.skip(i as int).skip(1) == chars@.skip(i + 1));
                i = i + 1;
            }
            let arg: String = whole(&slice(chars, from, i));
            proof {
                let n = bare(rest.skip(1)) + 1;
                assert(bare(chars@.skip(i as int)) == 0);
                assert(n == i - from);
                assert(rest.take(n as int) =~= chars@.subrange(from as int, i as int));
                assert(rest.skip(n as int) =~= chars@.skip(i as int));
                assert(texts(before.push(arg)) =~= texts(before).push(arg@));
                assert(texts(before) + (seq![arg@] + arguments(chars@.skip(i as int)))
                    =~= texts(before).push(arg@) + arguments(chars@.skip(i as int)));
            }
            args.push(arg);
        }
    }
    assert(chars@.skip(i as int).len() == 0);
    assert(texts(args@) + Seq::<Seq<char>>::empty() =~= texts(args@));
    args
}

fn split_word(chars: &Vec<char>) -> (r: (Vec<char>, Vec<char>))
    ensures
        (r.0@, r.1@) == word_and_rest(chars@),
{
    match position(chars, ' ') {
        Some(i) => {
            assert(chars@.take(i as int) == chars@.subrange(0, i as int));
            assert(chars@.skip(i as int) == chars@.subrange(i as int, chars@.len() as int));
            (trim(&slice(chars, 0, i)), trim(&slice(chars, i, chars.len())))
        },
        None => (trim(chars), Vec::new()),
    }
}

fn split_name(chars: &Vec<char>) -> (r: Option<(Vec<char>, Vec<char>)>)
    ensures
        (match r {
            Some((name, rest)) => name_and_rest(chars@) == Some((name@, rest@)),
            None => name_and_rest(chars@) is None,
        }),
{
    proof {
        reveal_strlit("\"");
    }
    match strip_prefix(chars, "\"") {
        Some(inner) => match position(&inner, '"') {
            Some(i) => {
                let n: usize = inner.len();
                assert(inner@.take(i as int) == inner@.subrange(0, i as int));
                assert(inner@.skip(i + 1) == inner@.subrange(i + 1, n as int));
                Some((trim(&slice(&inner, 0, i)), trim(&slice(&inner, i + 1, n))))
            },
            None => None,
        },
        None => Some(split_word(chars)),
    }
}

fn unquote(chars: Vec<char>) -> (r: Vec<char>)
    ensures
        r@ == unquoted(chars@),
{
    let n: usize = chars.len();
    if n >= 2 && chars[0] == '"' && chars[n - 1] == '"' {
        slice(&chars, 1, n - 1)
    } else {
        chars
    }
}

fn unbracket(chars: &Vec<char>) -> (r: Vec<char>)
    ensures
        r@ == unbracketed(chars@),
{
    let angle: Vec<char> = drop_back(
        &drop_front(chars, CharSet::Only('<')),
        CharSet::Only('>'),
    );
    let square: Vec<char> = drop_back(
        &drop_front(&angle, CharSet::Only('[')),
        CharSet::Only(']'),
    );
    trim(&square)
}

fn parse_add(chars: &Vec<char>) -> (command: Command)
    ensures
        command@ == parsed_add(chars@),
{
    let (name, rest) = match split_name(chars) {
        Some(parts) => parts,
        None => {
            return Command::Complaint("Error: unclosed double quotes in tool name.".to_owned());
        },
    };
    let (command, args) = split_word(&rest);
    if name.len() == 0 {
        return Command::Complaint(
            "Error: please specify a tool name, e.g.: /mcp add \"mcp-filesystem\" npx \"args\"".to_owned(),
        );
    }
    let name: String = whole(&name);
    if command.len() == 0 {
        return Command::Complaint(
            "Error: missing command for tool \"".to_owned().concat(name.as_str()).concat(
                "\". Usage: /mcp add \"tool_name\" <command> [args]",
            ),
        );
    }
    if let Err(e) = validate_slug(name.as_str()) {
        let text: String = "Error: invalid tool name '".to_owned().concat(name.as_str()).concat(
            "': ",
        ).concat(e.to_string().as_str());
        proof {
            reveal_strlit("': ");
            reveal_strlit("invalid server id: ");
            reveal_strlit("': invalid server id: ");
            assert(text@ =~= "Error: invalid tool name '"@ + name@ + "': invalid server id: "@
                + name@);
        }
        return Command::Complaint(text);
    }
    Command::Add { name, command: whole(&command), args: parse_arguments(&unbracket(&args)) }
}

fn parse_disable(chars: Vec<char>) -> (command: Command)
    ensures
        command@ == parsed_disable(chars@),
{
    let name: Vec<char> = unquote(chars);
    if name.len() == 0 {
        Command::Complaint(
            "Error: please specify a tool name to disable, e.g.: /mcp disable \"mcp-filesystem\"".to_owned(),
        )
    } else {
        Command::Disable { name: whole(&name) }
    }
}

/// Reads a command from a line.
pub fn parse_command(line: &str) -> (command: Command)
    ensures
        command@ == parsed(line@),
{
    let input: Vec<char> = trim(&chars_of(line));
    if spells(&input, "/help") || spells(&input, "/mcp help") || spells(&input, "help") {
        return Command::Help;
    }
    if spells(&input, "/mcp server reload") || spells(&input, "/server reload") {
        return Command::Reload;
    }
    if let Some(rest) = strip_prefix(&input, "/mcp disable") {
        return parse_disable(trim(&rest));
    }
    if let Some(rest) = strip_prefix(&input, "/mcp add") {
        return parse_add(&trim(&rest));
    }
    if spells(&input, "/list") || spells(&input, "/mcp list") || spells(&input, "list") {
        return Command::List;
    }
    if spells(&input, "/status") || spells(&input, "/mcp status") || spells(&input, "status") {
        return Command::Status;
    }
    if spells(&input, "/exit") || spells(&input, "/shutdown") || spells(&input, "exit") {
        return Command::Exit;
    }
    Command::Complaint(
        "Unknown command: '".to_owned().concat(whole(&input).as_str()).concat(
            "'. Type /help for all available control commands.",
        ),
    )
}

/// `s` with a backslash before each double quote and each backslash.
pub open spec fn escaped(s: Seq<char>) -> Seq<char>
    decreases s.len(),
{
    if s.len() == 0 {
        Seq::empty()
    } else if s[0] == '"' || s[0] == '\\' {
        seq!['\\', s[0]] + escaped(s.skip(1))
    } else {
        seq![s[0]] + escaped(s.skip(1))
    }
}

proof fn lemma_escaped_reads_back(s: Seq<char>, rest: Seq<char>)
    ensures
        quoted(escaped(s) + seq!['"'] + rest, false) == (s, escaped(s).len() + 1),
    decreases s.len(),
{
    let text = escaped(s) + seq!['"'] + rest;
    if s.len() == 0 {
        assert(text[0] == '"');
        assert(s =~= Seq::empty());
    } else {
        let tail = escaped(s.skip(1)) + seq!['"'] + rest;
        lemma_escaped_reads_back(s.skip(1), rest);
        assert(seq![s[0]] + s.skip(1) =~= s);
        if s[0] == '"' || s[0] == '\\' {
            assert(text.skip(1) =~= seq![s[0]] + tail);
            assert(text.skip(1).skip(1) =~= tail);
            assert(quoted(text.skip(1), true) == (s, escaped(s.skip(1)).len() + 2));
        } else {
            assert(text.skip(1) =~= tail);
        }
    }
}

/// Any text at all can be given as an argument: in double quotes, with a backslash before each
/// double quote and each backslash in it, it is read as it is.
pub proof fn law_quoted_argument_reads_back(arg: Seq<char>)
    ensures
        arguments(seq!['"'] + escaped(arg) + seq!['"']) == seq![arg],
{
    let text = seq!['"'] + escaped(arg) + seq!['"'];
    lemma_escaped_reads_back(arg, Seq::empty());
    assert(text.skip(1) =~= escaped(arg) + seq!['"'] + Seq::<char>::empty());
    let rest = text.skip(1).skip((escaped(arg).len() + 1) as int);
    assert(arguments(rest) == Seq::<Seq<char>>::empty());
    assert(text[0] == '"');
    assert(arguments(text) =~= seq![arg]);
}

/// Arguments as they can be typed: each in double quotes, behind a space.
pub open spec fn written_arguments(args: Seq<Seq<char>>) -> Seq<char>
    decreases args.len(),
{
    if args.len() == 0 {
        Seq::empty()
    } else {
        seq![' ', '"'] + escaped(args[0]) + seq!['"'] + written_arguments(args.skip(1))
    }
}

/// A text without white space, and not empty.
pub open spec fn is_word(s: Seq<char>) -> bool {
    s.len() > 0 && forall|i: int| 0 <= i < s.len() ==> !is_whitespace(#[trigger] s[i])
}

proof fn lemma_written_arguments(args: Seq<Seq<char>>)
    ensures
        arguments(written_arguments(args)) == args,
        args.len() > 0 ==> {
            let text = written_arguments(args);
            text.len() > 2 && text[0] == ' ' && text[1] == '"' && text.last() == '"'
        },
    decreases args.len(),
{
    let text = written_arguments(args);
    if args.len() == 0 {
        assert(arguments(text) =~= args);
    } else {
        let rest = written_arguments(args.skip(1));
        lemma_written_arguments(args.skip(1));
        lemma_escaped_reads_back(args[0], rest);
        let inner = text.skip(1);
        assert(inner[0] == '"');
        assert(inner.skip(1) =~= escaped(args[0]) + seq!['"'] + rest);
        assert(inner.skip(1).skip((escaped(args[0]).len() + 1) as int) =~= rest);
        assert(arguments(inner) == seq![args[0]] + arguments(rest));
        assert(arguments(text) == arguments(inner));
        assert(seq![args[0]] + args.skip(1) =~= args);
        if rest.len() == 0 {
            assert(text =~= seq![' ', '"'] + escaped(args[0]) + seq!['"']);
        } else {
            assert(args.skip(1).len() > 0);
            assert(text.last() == rest.last());
        }
    }
}

/// A character that is not in `a` is first found right behind it.
proof fn lemma_found_behind(a: Seq<char>, c: char, b: Seq<char>)
    requires
        !a.contains(c),
    ensures
        first_position(a + seq![c] + b, c) == Some(a.len() as int),
    decreases a.len(),
{
    let s = a + seq![c] + b;
    if a.len() == 0 {
        assert(s[0] == c);
    } else {
        assert(a.contains(a[0]));
        assert forall|x: char| a.skip(1).contains(x) implies a.contains(x) by {
            let i = choose|i: int| 0 <= i < a.skip(1).len() && a.skip(1)[i] == x;
            assert(a[i + 1] == x);
        }
        lemma_found_behind(a.skip(1), c, b);
        assert(s.skip(1) =~= a.skip(1) + seq![c] + b);
        assert(s[0] == a[0]);
    }
}

/// A text that neither begins nor ends with white space is trimmed already, also behind a space.
proof fn lemma_trimmed_already(s: Seq<char>)
    requires
        s.len() > 0,
        !is_whitespace(s[0]),
        !is_whitespace(s.last()),
    ensures
        trimmed(s) == s,
        trimmed(seq![' '] + s) == s,
{
    assert((seq![' '] + s).skip(1) =~= s);
    assert(front_dropped(seq![' '] + s, CharSet::Whitespace) == front_dropped(
        (seq![' '] + s).skip(1),
        CharSet::Whitespace,
    ));
}

/// A command and its arguments are read as they were written.
proof fn lemma_command_reads_back(command: Seq<char>, args: Seq<Seq<char>>)
    requires
        is_word(command),
    ensures
        ({
            let text = command + written_arguments(args);
            let (word, rest) = word_and_rest(text);
            &&& word == command
            &&& arguments(unbracketed(rest)) == args
            &&& !is_whitespace(text[0])
            &&& !is_whitespace(text.last())
        }),
{
    let written = written_arguments(args);
    let text = command + written;
    lemma_written_arguments(args);
    lemma_trimmed_already(command);
    assert(!command.contains(' ')) by {
        if command.contains(' ') {
            let i = choose|i: int| 0 <= i < command.len() && command[i] == ' ';
            assert(!is_whitespace(command[i]));
        }
    }
    if args.len() == 0 {
        assert(text =~= command);
        law_first_position(command, ' ');
        assert(unbracketed(Seq::<char>::empty()) =~= Seq::empty());
        assert(written =~= Seq::empty());
    } else {
        let tail = written.skip(1);
        assert(written =~= seq![' '] + tail);
        assert(text =~= command + seq![' '] + tail);
        lemma_found_behind(command, ' ', tail);
        assert(text.take(command.len() as int) =~= command);
        assert(text.skip(command.len() as int) =~= seq![' '] + tail);
        lemma_trimmed_already(tail);
        assert(tail[0] == '"' && tail.last() == '"');
        assert(unbracketed(tail) == tail);
        assert(arguments(written) == arguments(tail));
    }
}

/// The name of a server has no white space and no double quote in it.
proof fn lemma_slug_characters(name: Seq<char>)
    requires
        is_slug(name),
    ensures
        is_word(name),
        !name.contains('"'),
{
    assert forall|i: int| 0 <= i < name.len() implies !is_whitespace(#[trigger] name[i]) && name[i]
        != '"' by {
        if i == 0 {
            assert(ascii_alphanumeric(name[0]));
        }
    }
}

/// Whatever server is added as the help says, with its name in double quotes and its arguments
/// too, is added just so.
pub proof fn law_add_command_reads_back(
    name: Seq<char>,
    command: Seq<char>,
    args: Seq<Seq<char>>,
)
    requires
        is_slug(name),
        is_word(command),
    ensures
        parsed("/mcp add \""@ + name + "\" "@ + command + written_arguments(args))
            == (CommandV::Add { name, command, args }),
{
    let rest = command + written_arguments(args);
    let line = "/mcp add \""@ + name + "\" "@ + command + written_arguments(args);
    reveal_strlit("/mcp add \"");
    reveal_strlit("\" ");
    reveal_strlit("\"");
    reveal_strlit("/help");
    reveal_strlit("/mcp help");
    reveal_strlit("help");
    reveal_strlit("/mcp server reload");
    reveal_strlit("/server reload");
    reveal_strlit("/mcp disable");
    reveal_strlit("/mcp add");
    lemma_command_reads_back(command, args);
    lemma_slug_characters(name);
    lemma_trimmed_already(name);
    lemma_trimmed_already(rest);
    lemma_trimmed_already(line);
    assert(line.last() == rest.last());
    assert(line[5] == 'a' && line[1] == 'm');
    assert("/mcp help"@[5] == 'h');
    assert("/mcp server reload"@[5] == 's');
    assert("/server reload"@[1] == 's');
    assert("/help"@[1] == 'h');
    assert("help"@[0] == 'h');
    assert(!begins(line, "/mcp disable"@)) by {
        if begins(line, "/mcp disable"@) {
            assert(line.take(12)[5] == 'd');
        }
    }
    assert(line.take(8) =~= "/mcp add"@);
    let behind = line.skip(8);
    let typed = seq!['"'] + name + seq!['"'] + (seq![' '] + rest);
    assert(behind =~= seq![' '] + typed);
    assert(typed.last() == rest.last());
    lemma_trimmed_already(typed);
    assert(typed.take(1) =~= "\""@);
    let inner = typed.skip(1);
    assert(inner =~= name + seq!['"'] + (seq![' '] + rest));
    lemma_found_behind(name, '"', seq![' '] + rest);
    assert(inner.take(name.len() as int) =~= name);
    assert(inner.skip((name.len() + 1) as int) =~= seq![' '] + rest);
}

/// Whatever server is disabled as the help says, with its name in double quotes, is disabled.
pub proof fn law_disable_command_reads_back(name: Seq<char>)
    requires
        name.len() > 0,
    ensures
        parsed("/mcp disable \""@ + name + "\""@) == (CommandV::Disable { name }),
{
    let line = "/mcp disable \""@ + name + "\""@;
    reveal_strlit("/mcp disable \"");
    reveal_strlit("\"");
    reveal_strlit("/help");
    reveal_strlit("/mcp help");
    reveal_strlit("help");
    reveal_strlit("/mcp server reload");
    reveal_strlit("/server reload");
    reveal_strlit("/mcp disable");
    lemma_trimmed_already(line);
    assert(line[5] == 'd' && line[1] == 'm');
    assert("/mcp help"@[5] == 'h');
    assert("/mcp server reload"@[5] == 's');
    assert("/server reload"@[1] == 's');
    assert("/help"@[1] == 'h');
    assert("help"@[0] == 'h');
    assert(line.take(12) =~= "/mcp disable"@);
    let typed = seq!['"'] + name + seq!['"'];
    assert(line.skip(12) =~= seq![' '] + typed);
    lemma_trimmed_already(typed);
    assert(typed.subrange(1, typed.len() - 1) =~= name);
}

/// Arguments stand apart by white space and commas, and by nothing else.
pub proof fn law_separators_are_white_space_and_commas(c: char, rest: Seq<char>)
    ensures
        is_separator(c) <==> is_whitespace(c) || c == ',',
        is_whitespace(c) || c == ',' ==> arguments(seq![c] + rest) == arguments(rest),
        arguments(Seq::empty()) == Seq::<Seq<char>>::empty(),
{
    assert((seq![c] + rest).skip(1) =~= rest);
    assert((seq![c] + rest)[0] == c);
}

/// A run of characters that are no white space, comma or double quote is counted whole.
proof fn lemma_bare_run(word: Seq<char>, rest: Seq<char>)
    requires
        forall|i: int|
            0 <= i < word.len() ==> !is_whitespace(#[trigger] word[i]) && word[i] != ',' && word[i]
                != '"',
        rest.len() > 0 ==> is_whitespace(rest[0]) || rest[0] == ',' || rest[0] == '"',
    ensures
        bare(word + rest) == word.len(),
    decreases word.len(),
{
    let s = word + rest;
    if word.len() == 0 {
        assert(s =~= rest);
    } else {
        assert(s[0] == word[0]);
        assert(s.skip(1) =~= word.skip(1) + rest);
        lemma_bare_run(word.skip(1), rest);
    }
}

/// An argument without white space, comma and double quote in it is read whole, up to the next of
/// these or to the end; what follows is read on its own.
pub proof fn law_bare_argument_is_read_whole(word: Seq<char>, rest: Seq<char>)
    requires
        word.len() > 0,
        forall|i: int|
            0 <= i < word.len() ==> !is_whitespace(#[trigger] word[i]) && word[i] != ',' && word[i]
                != '"',
        rest.len() > 0 ==> is_whitespace(rest[0]) || rest[0] == ',' || rest[0] == '"',
    ensures
        arguments(word + rest) == seq![word] + arguments(rest),
{
    let s = word + rest;
    assert(s[0] == word[0]);
    assert(s.skip(1) =~= word.skip(1) + rest);
    lemma_bare_run(word.skip(1), rest);
    assert(s.take(word.len() as int) =~= word);
    assert(s.skip(word.len() as int) =~= rest);
}

/// Texts with single spaces between them.
pub open spec fn spaced(args: Seq<Seq<char>>) -> Seq<char>
    decreases args.len(),
{
    if args.len() == 0 {
        Seq::empty()
    } else if args.len() == 1 {
        args[0]
    } else {
        args[0] + seq![' '] + spaced(args.skip(1))
    }
}

/// Arguments that need no quotes read back: written with single spaces between them, any texts
/// without white space, comma and double quote in them are read as they are.
pub proof fn law_bare_arguments_read_back(args: Seq<Seq<char>>)
    requires
        forall|k: int| 0 <= k < args.len() ==> (#[trigger] args[k]).len() > 0,
        forall|k: int, i: int|
            0 <= k < args.len() && 0 <= i < args[k].len() ==> !is_whitespace(
                #[trigger] args[k][i],
            ) && args[k][i] != ',' && args[k][i] != '"',
    ensures
        arguments(spaced(args)) == args,
    decreases args.len(),
{
    if args.len() == 0 {
        assert(args =~= Seq::empty());
    } else {
        let word = args[0];
        let others = args.skip(1);
        assert(seq![word] + others =~= args);
        if args.len() == 1 {
            law_bare_argument_is_read_whole(word, Seq::empty());
            assert(word + Seq::<char>::empty() =~= word);
            assert(arguments(word) =~= args);
        } else {
            assert forall|k: int| 0 <= k < others.len() implies (#[trigger] others[k]).len() > 0 by {
                assert(args[k + 1].len() > 0);
            }
            assert forall|k: int, i: int|
                0 <= k < others.len() && 0 <= i < others[k].len() implies !is_whitespace(
                #[trigger] others[k][i],
            ) && others[k][i] != ',' && others[k][i] != '"' by {
                assert(!is_whitespace(args[k + 1][i]));
            }
            law_bare_arguments_read_back(others);
            let rest = seq![' '] + spaced(others);
            law_bare_argument_is_read_whole(word, rest);
            law_separators_are_white_space_and_commas(' ', spaced(others));
            assert(spaced(args) =~= word + rest);
        }
    }
}

/// How a quoted argument is read, from behind the quote that opens it: up to the next double
/// quote, where a backslash stands for the character behind it and every other character for
/// itself. One that is not closed ends with the text.
pub proof fn law_quoted_arguments_are_read_character_by_character(c: char, rest: Seq<char>)
    ensures
        quoted(seq!['"'] + rest, false) == (Seq::<char>::empty(), 1nat),
        quoted(seq!['\\', c] + rest, false) == (
            seq![c] + quoted(rest, false).0,
            quoted(rest, false).1 + 2,
        ),
        c != '"' && c != '\\' ==> quoted(seq![c] + rest, false) == (
            seq![c] + quoted(rest, false).0,
            quoted(rest, false).1 + 1,
        ),
        quoted(Seq::empty(), false) == (Seq::<char>::empty(), 0nat),
        quoted(seq!['\\'], false) == (Seq::<char>::empty(), 1nat),
{
    assert((seq!['"'] + rest)[0] == '"');
    let pair = seq!['\\', c] + rest;
    assert(pair[0] == '\\');
    assert(pair.skip(1)[0] == c);
    assert(pair.skip(1).skip(1) =~= rest);
    assert(quoted(pair.skip(1), true).0 == seq![c] + quoted(rest, false).0);
    assert((seq![c] + rest)[0] == c);
    assert((seq![c] + rest).skip(1) =~= rest);
    assert(seq!['\\'].skip(1) =~= Seq::<char>::empty());
    assert(quoted(seq!['\\'].skip(1), true) == (Seq::<char>::empty(), 0nat));
}

/// A double quote opens an argument of its own, and what follows the argument is read on.
pub proof fn law_a_quote_opens_an_argument(rest: Seq<char>)
    ensures
        quoted(rest, false).1 <= rest.len(),
        arguments(seq!['"'] + rest) == seq![quoted(rest, false).0] + arguments(
            rest.skip(quoted(rest, false).1 as int),
        ),
{
    lemma_quoted_within(rest, false);
    assert((seq!['"'] + rest)[0] == '"');
    assert((seq!['"'] + rest).skip(1) =~= rest);
}

/// What stands in double quotes with neither a double quote nor a backslash in it is one argument,
/// white space and commas and all, whether or not the quote is closed.
pub proof fn law_quotes_keep_what_they_hold(inside: Seq<char>, rest: Seq<char>)
    requires
        forall|i: int|
            0 <= i < inside.len() ==> #[trigger] inside[i] != '"' && inside[i] != '\\',
    ensures
        quoted(inside + seq!['"'] + rest, false) == (inside, inside.len() + 1),
        quoted(inside, false) == (inside, inside.len()),
        arguments(seq!['"'] + inside + seq!['"'] + rest) == seq![inside] + arguments(rest),
        arguments(seq!['"'] + inside) == seq![inside],
    decreases inside.len(),
{
    let closed = inside + seq!['"'] + rest;
    if inside.len() == 0 {
        assert(closed =~= seq!['"'] + rest);
        law_quoted_arguments_are_read_character_by_character(' ', rest);
        assert(inside =~= Seq::empty());
    } else {
        let c = inside[0];
        let others = inside.skip(1);
        assert(closed =~= seq![c] + (others + seq!['"'] + rest));
        assert(inside =~= seq![c] + others);
        law_quotes_keep_what_they_hold(others, rest);
        law_quoted_arguments_are_read_character_by_character(c, others + seq!['"'] + rest);
        law_quoted_arguments_are_read_character_by_character(c, others);
    }
    law_a_quote_opens_an_argument(closed);
    law_a_quote_opens_an_argument(inside);
    assert(seq!['"'] + inside + seq!['"'] + rest =~= seq!['"'] + closed);
    assert(closed.skip((inside.len() + 1) as int) =~= rest);
    assert(inside.skip(inside.len() as int) =~= Seq::empty());
    law_separators_are_white_space_and_commas(' ', Seq::empty());
    assert(seq![inside] + Seq::<Seq<char>>::empty() =~= seq![inside]);
}

/// Brackets around the arguments are taken off: angle brackets outside, square brackets inside
/// them, as many as there are. What stands between is kept, without white space at its ends.
pub proof fn law_brackets_are_taken_off(
    angle: Seq<char>,
    square: Seq<char>,
    core: Seq<char>,
    square_end: Seq<char>,
    angle_end: Seq<char>,
)
    requires
        forall|i: int| 0 <= i < angle.len() ==> #[trigger] angle[i] == '<',
        forall|i: int| 0 <= i < square.len() ==> #[trigger] square[i] == '[',
        forall|i: int| 0 <= i < square_end.len() ==> #[trigger] square_end[i] == ']',
        forall|i: int| 0 <= i < angle_end.len() ==> #[trigger] angle_end[i] == '>',
        core.len() > 0 ==> core[0] != '[' && core.last() != ']',
        core.len() > 0 && square.len() == 0 ==> core[0] != '<',
        core.len() > 0 && square_end.len() == 0 ==> core.last() != '>',
    ensures
        unbracketed(angle + square + core + square_end + angle_end) == trimmed(core),
{
    let s = angle + square + core + square_end + angle_end;
    let inner = square + core + square_end;
    assert(s =~= angle + (inner + angle_end));
    if inner.len() == 0 {
        assert(inner + angle_end =~= angle_end);
    }
    law_front_dropped_keeps_the_rest(angle, inner + angle_end, CharSet::Only('<'));
    if inner.len() > 0 {
        if square_end.len() > 0 {
            assert(inner.last() == square_end.last());
            assert(square_end[square_end.len() - 1] == ']');
        } else if core.len() > 0 {
            assert(inner.last() == core.last());
        } else {
            assert(inner.last() == square.last());
            assert(square[square.len() - 1] == '[');
        }
    }
    law_back_dropped_keeps_the_rest(inner, angle_end, CharSet::Only('>'));
    assert(inner =~= square + (core + square_end));
    law_front_dropped_keeps_the_rest(square, core + square_end, CharSet::Only('['));
    law_back_dropped_keeps_the_rest(core, square_end, CharSet::Only(']'));
}

/// Double quotes around a name are taken off where there are both, and only then.
pub proof fn law_quotes_around_a_name_are_taken_off(name: Seq<char>)
    ensures
        unquoted(seq!['"'] + name + seq!['"']) == name,
        name.len() < 2 || name[0] != '"' || name.last() != '"' ==> unquoted(name) == name,
{
    let s = seq!['"'] + name + seq!['"'];
    assert(s.subrange(1, s.len() - 1) =~= name);
}

/// A word ends at the first space: it is what stands before, and the rest what stands behind.
pub proof fn law_a_word_ends_at_the_first_space(word: Seq<char>, rest: Seq<char>)
    requires
        !word.contains(' '),
    ensures
        word_and_rest(word + seq![' '] + rest) == (trimmed(word), trimmed(rest)),
        word_and_rest(word) == (trimmed(word), Seq::<char>::empty()),
{
    let s = word + seq![' '] + rest;
    lemma_found_behind(word, ' ', rest);
    assert(s.take(word.len() as int) =~= word);
    assert(s.skip(word.len() as int) =~= seq![' '] + rest);
    law_white_space_around_is_lost(rest, ' ');
    law_first_position(word, ' ');
}

/// A name in double quotes ends at the next double quote, and one without them at the first space;
/// one whose quote is not closed is none.
pub proof fn law_a_name_ends_at_its_quote(name: Seq<char>, rest: Seq<char>)
    ensures
        !name.contains('"') ==> name_and_rest(seq!['"'] + name + seq!['"'] + rest) == Some(
            (trimmed(name), trimmed(rest)),
        ),
        !name.contains('"') ==> name_and_rest(seq!['"'] + name) is None,
        name.len() == 0 || name[0] != '"' ==> name_and_rest(name) == Some(word_and_rest(name)),
{
    reveal_strlit("\"");
    if !name.contains('"') {
        let s = seq!['"'] + name + seq!['"'] + rest;
        assert(s.take(1) =~= "\""@);
        assert(s.skip(1) =~= name + seq!['"'] + rest);
        lemma_found_behind(name, '"', rest);
        assert(s.skip(1).take(name.len() as int) =~= name);
        assert(s.skip(1).skip((name.len() + 1) as int) =~= rest);
        let open = seq!['"'] + name;
        assert(open.take(1) =~= "\""@);
        assert(open.skip(1) =~= name);
        law_first_position(name, '"');
    }
    if name.len() > 0 && name[0] != '"' {
        assert(name.take(1)[0] != "\""@[0]);
    }
}

/// White space before or behind a line does not matter.
pub proof fn law_white_space_around_a_line_does_not_matter(line: Seq<char>, c: char)
    requires
        is_whitespace(c),
    ensures
        parsed(seq![c] + line) == parsed(line),
        parsed(line.push(c)) == parsed(line),
{
    law_white_space_around_is_lost(line, c);
}

/// The words of `/mcp disable` are no other command, whatever follows them.
proof fn lemma_disable_words(input: Seq<char>)
    requires
        begins(input, "/mcp disable"@),
    ensures
        input != "/help"@ && input != "/mcp help"@ && input != "help"@,
        input != "/mcp server reload"@ && input != "/server reload"@,
{
    reveal_strlit("/mcp disable");
    reveal_strlit("/help");
    reveal_strlit("/mcp help");
    reveal_strlit("help");
    reveal_strlit("/mcp server reload");
    reveal_strlit("/server reload");
    assert(input.take(12)[5] == 'd' && input.take(12)[1] == 'm');
    assert("/mcp server reload"@[5] == 's');
    assert("/server reload"@[1] == 's');
}

/// The words of `/mcp add` are no other command, whatever follows them.
proof fn lemma_add_words(input: Seq<char>)
    requires
        begins(input, "/mcp add"@),
    ensures
        input != "/help"@ && input != "/mcp help"@ && input != "help"@,
        input != "/mcp server reload"@ && input != "/server reload"@,
        !begins(input, "/mcp disable"@),
{
    reveal_strlit("/mcp add");
    reveal_strlit("/mcp disable");
    reveal_strlit("/help");
    reveal_strlit("/mcp help");
    reveal_strlit("help");
    reveal_strlit("/mcp server reload");
    reveal_strlit("/server reload");
    assert(input.take(8)[5] == 'a' && input.take(8)[1] == 'm');
    assert("/mcp help"@[5] == 'h');
    assert("/mcp server reload"@[5] == 's');
    assert("/server reload"@[1] == 's');
    if begins(input, "/mcp disable"@) {
        assert(input.take(12)[5] == 'd');
    }
}

/// Whatever follows the words of the command, but for white space and double quotes around it, is
/// the name of the server to disable; where nothing follows, the line is complained of.
pub proof fn law_disable_takes_what_follows(rest: Seq<char>, name: Seq<char>)
    ensures
        trimmed(rest) == seq!['"'] + name + seq!['"'] && name.len() > 0 ==> parsed(
            "/mcp disable"@ + rest,
        ) == (CommandV::Disable { name }),
        trimmed(rest) == name && name.len() > 0 && !(name.len() >= 2 && name[0] == '"'
            && name.last() == '"') ==> parsed("/mcp disable"@ + rest) == (CommandV::Disable {
            name,
        }),
        trimmed(rest).len() == 0 || trimmed(rest) == seq!['"', '"'] ==> parsed(
            "/mcp disable"@ + rest,
        ) == CommandV::Complaint(
            "Error: please specify a tool name to disable, e.g.: /mcp disable \"mcp-filesystem\""@,
        ),
{
    reveal_strlit("/mcp disable");
    let line = "/mcp disable"@ + rest;
    law_trimmed_behind_a_word("/mcp disable"@, rest);
    lemma_disable_words(trimmed(line));
    assert(parsed(line) == parsed_disable(trimmed(rest)));
    law_quotes_around_a_name_are_taken_off(name);
    assert(seq!['"', '"'].subrange(1, 1).len() == 0);
}

/// What follows the words of the command to add a server is all that it goes by.
pub proof fn law_add_takes_what_follows(rest: Seq<char>)
    ensures
        parsed("/mcp add"@ + rest) == parsed_add(trimmed(rest)),
{
    reveal_strlit("/mcp add");
    law_trimmed_behind_a_word("/mcp add"@, rest);
    lemma_add_words(trimmed("/mcp add"@ + rest));
}

/// What is wrong with a line that is to add a server is told, in this order: a quote that is not
/// closed, no name, no command, and a name that cannot be one.
pub proof fn law_what_is_wrong_with_an_added_server_is_told(
    s: Seq<char>,
    name: Seq<char>,
    command: Seq<char>,
    args: Seq<char>,
)
    requires
        !name.contains('"'),
        name.len() > 0 ==> !is_whitespace(name[0]) && !is_whitespace(name.last()),
        is_word(command),
    ensures
        parsed_add(seq!['"'] + name) == CommandV::Complaint(
            "Error: unclosed double quotes in tool name."@,
        ),
        parsed_add(Seq::empty()) == CommandV::Complaint(
            "Error: please specify a tool name, e.g.: /mcp add \"mcp-filesystem\" npx \"args\""@,
        ),
        parsed_add(seq!['"', '"'] + s) == CommandV::Complaint(
            "Error: please specify a tool name, e.g.: /mcp add \"mcp-filesystem\" npx \"args\""@,
        ),
        name.len() > 0 ==> parsed_add(seq!['"'] + name + seq!['"']) == CommandV::Complaint(
            "Error: missing command for tool \""@ + name
                + "\". Usage: /mcp add \"tool_name\" <command> [args]"@,
        ),
        name.len() > 0 && !name.contains(' ') ==> parsed_add(name) == CommandV::Complaint(
            "Error: missing command for tool \""@ + name
                + "\". Usage: /mcp add \"tool_name\" <command> [args]"@,
        ),
        name.len() > 0 && !is_slug(name) ==> parsed_add(
            seq!['"'] + name + seq!['"'] + command + seq![' '] + args,
        ) == CommandV::Complaint(
            "Error: invalid tool name '"@ + name + "': invalid server id: "@ + name,
        ),
        name.len() > 0 && !is_slug(name) && !name.contains(' ') ==> parsed_add(
            name + seq![' '] + command + seq![' '] + args,
        ) == CommandV::Complaint(
            "Error: invalid tool name '"@ + name + "': invalid server id: "@ + name,
        ),
{
    let empty = Seq::<char>::empty();
    lemma_word_has_no_space(command);
    lemma_trimmed_already(command);
    assert(trimmed(empty) =~= empty);
    law_a_word_ends_at_the_first_space(empty, empty);
    law_a_name_ends_at_its_quote(name, empty);
    law_a_name_ends_at_its_quote(empty, s);
    assert(seq!['"', '"'] + s =~= seq!['"'] + empty + seq!['"'] + s);
    assert(seq!['"'] + name + seq!['"'] + empty =~= seq!['"'] + name + seq!['"']);
    let typed = command + seq![' '] + args;
    law_a_word_ends_at_the_first_space(command, args);
    if name.len() > 0 {
        lemma_trimmed_already(name);
        if name[0] == '"' {
            assert(name.contains('"'));
        }
        law_a_name_ends_at_its_quote(name, typed);
        assert(seq!['"'] + name + seq!['"'] + command + seq![' '] + args =~= seq!['"'] + name
            + seq!['"'] + typed);
        lemma_word_of_trimmed(command, args);
        if !name.contains(' ') {
            law_a_word_ends_at_the_first_space(name, typed);
            let line = name + seq![' '] + command + seq![' '] + args;
            assert(line =~= name + seq![' '] + typed);
            law_a_name_ends_at_its_quote(line, empty);
            assert(line[0] == name[0]);
        }
    }
}

/// A word has no space in it.
proof fn lemma_word_has_no_space(word: Seq<char>)
    requires
        is_word(word),
    ensures
        !word.contains(' '),
{
    if word.contains(' ') {
        let i = choose|i: int| 0 <= i < word.len() && word[i] == ' ';
        assert(!is_whitespace(word[i]));
    }
}

/// The command that a text begins with, and what follows it, are the same once it is trimmed.
proof fn lemma_word_of_trimmed(command: Seq<char>, args: Seq<char>)
    requires
        is_word(command),
    ensures
        word_and_rest(trimmed(command + seq![' '] + args)) == (command, trimmed(args)),
        word_and_rest(trimmed(command)) == (command, Seq::<char>::empty()),
    decreases args.len(),
{
    let text = command + seq![' '] + args;
    lemma_word_has_no_space(command);
    lemma_trimmed_already(command);
    law_a_word_ends_at_the_first_space(command, args);
    if args.len() == 0 {
        law_white_space_around_is_lost(command, ' ');
        assert(text =~= command.push(' '));
        assert(trimmed(args) =~= Seq::empty());
    } else if is_whitespace(args.last()) {
        let less = args.drop_last();
        assert(less.push(args.last()) =~= args);
        assert((command + seq![' '] + less).push(args.last()) =~= text);
        law_white_space_around_is_lost(less, args.last());
        law_white_space_around_is_lost(command + seq![' '] + less, args.last());
        lemma_word_of_trimmed(command, less);
    } else {
        assert(text[0] == command[0] && text.last() == args.last());
        lemma_trimmed_already(text);
    }
}

/// A server is added under the name that was typed, in double quotes or bare, with the command
/// that follows it and the arguments that follow that, whatever they are.
pub proof fn law_add_goes_by_name_command_and_arguments(
    name: Seq<char>,
    command: Seq<char>,
    args: Seq<char>,
)
    requires
        is_slug(name),
        is_word(command),
    ensures
        parsed("/mcp add \""@ + name + "\" "@ + command + " "@ + args) == (CommandV::Add {
            name,
            command,
            args: arguments(unbracketed(trimmed(args))),
        }),
        parsed("/mcp add "@ + name + " "@ + command + " "@ + args) == (CommandV::Add {
            name,
            command,
            args: arguments(unbracketed(trimmed(args))),
        }),
        parsed("/mcp add "@ + name + " "@ + command) == (CommandV::Add {
            name,
            command,
            args: Seq::empty(),
        }),
{
    reveal_strlit("/mcp add \"");
    reveal_strlit("/mcp add ");
    reveal_strlit("/mcp add");
    reveal_strlit("\" ");
    reveal_strlit(" ");
    let empty = Seq::<char>::empty();
    let typed = command + seq![' '] + args;
    lemma_slug_characters(name);
    lemma_trimmed_already(name);
    lemma_word_has_no_space(name);
    lemma_word_of_trimmed(command, args);
    assert(name[0] != '"') by {
        if name[0] == '"' {
            assert(name.contains('"'));
        }
    }
    // The name in double quotes.
    let in_quotes = seq!['"'] + name + seq!['"'];
    let behind = seq![' '] + typed;
    assert("/mcp add \""@ + name + "\" "@ + command + " "@ + args =~= "/mcp add"@ + (seq![' '] + (
    in_quotes + behind)));
    law_add_takes_what_follows(seq![' '] + (in_quotes + behind));
    law_white_space_around_is_lost(in_quotes + behind, ' ');
    law_white_space_around_is_lost(typed, ' ');
    law_trimmed_behind_a_word(in_quotes, behind);
    let quoted_rest = trimmed(in_quotes + behind).skip(in_quotes.len() as int);
    law_begins_with_what_stands_in_front(trimmed(in_quotes + behind), in_quotes, empty);
    law_a_name_ends_at_its_quote(name, quoted_rest);
    assert(in_quotes + quoted_rest =~= seq!['"'] + name + seq!['"'] + quoted_rest);
    // The name bare.
    let bare_line = name + seq![' '] + typed;
    assert("/mcp add "@ + name + " "@ + command + " "@ + args =~= "/mcp add"@ + (seq![' ']
        + bare_line));
    law_add_takes_what_follows(seq![' '] + bare_line);
    law_white_space_around_is_lost(bare_line, ' ');
    lemma_word_of_trimmed(name, typed);
    law_trimmed_behind_a_word(name, behind);
    assert(bare_line =~= name + behind);
    law_begins_with_what_stands_in_front(trimmed(bare_line), name, empty);
    law_a_name_ends_at_its_quote(trimmed(bare_line), empty);
    assert(trimmed(bare_line)[0] == name[0]);
    // The name bare, and no arguments.
    let short = name + seq![' '] + command;
    assert("/mcp add "@ + name + " "@ + command =~= "/mcp add"@ + (seq![' '] + short));
    law_add_takes_what_follows(seq![' '] + short);
    assert(short[0] == name[0] && short.last() == command.last());
    lemma_trimmed_already(short);
    law_a_name_ends_at_its_quote(short, empty);
    law_a_word_ends_at_the_first_space(name, command);
    lemma_trimmed_already(command);
    lemma_word_has_no_space(command);
    law_a_word_ends_at_the_first_space(command, empty);
    law_brackets_are_taken_off(empty, empty, empty, empty, empty);
    assert(empty + empty + empty + empty + empty =~= empty);
    assert(trimmed(empty) =~= empty);
    law_separators_are_white_space_and_commas(' ', empty);
}

/// The commands that are words alone: each spelling gives its command.
pub proof fn law_each_word_gives_its_command(word: Seq<char>)
    ensures
        word == "/help"@ || word == "/mcp help"@ || word == "help"@ ==> parsed(word)
            == CommandV::Help,
        word == "/mcp server reload"@ || word == "/server reload"@ ==> parsed(word)
            == CommandV::Reload,
        word == "/list"@ || word == "/mcp list"@ || word == "list"@ ==> parsed(word)
            == CommandV::List,
        word == "/status"@ || word == "/mcp status"@ || word == "status"@ ==> parsed(word)
            == CommandV::Status,
        word == "/exit"@ || word == "/shutdown"@ || word == "exit"@ ==> parsed(word)
            == CommandV::Exit,
{
    reveal_strlit("/help");
    reveal_strlit("/mcp help");
    reveal_strlit("help");
    reveal_strlit("/mcp server reload");
    reveal_strlit("/server reload");
    reveal_strlit("/mcp disable");
    reveal_strlit("/mcp add");
    reveal_strlit("/list");
    reveal_strlit("/mcp list");
    reveal_strlit("list");
    reveal_strlit("/status");
    reveal_strlit("/mcp status");
    reveal_strlit("status");
    reveal_strlit("/exit");
    reveal_strlit("/shutdown");
    reveal_strlit("exit");
    assert("help"@[0] == 'h' && "list"@[0] == 'l' && "exit"@[0] == 'e' && "status"@[0] == 's');
    assert("/help"@[1] == 'h' && "/list"@[1] == 'l' && "/exit"@[1] == 'e' && "/status"@[1] == 's');
    assert("/shutdown"@[1] == 's' && "/shutdown"@[2] == 'h' && "/status"@[2] == 't');
    assert("/mcp help"@[5] == 'h' && "/mcp list"@[5] == 'l' && "/mcp status"@[5] == 's');
    assert("/mcp server reload"@[5] == 's' && "/server reload"@[1] == 's');
    assert("/mcp help"@[1] == 'm' && "/mcp list"@[1] == 'm' && "/mcp status"@[1] == 'm');
    assert("/mcp server reload"@[1] == 'm');
    if begins(word, "/mcp disable"@) {
        assert(word.take(12)[1] == 'm' && word.take(12)[5] == 'd');
    }
    if begins(word, "/mcp add"@) {
        assert(word.take(8)[1] == 'm' && word.take(8)[5] == 'a');
    }
    if word.len() > 0 && !is_whitespace(word[0]) && !is_whitespace(word.last()) {
        lemma_trimmed_already(word);
    }
}

/// A line that is no command is complained of, and shown whole.
pub proof fn law_other_lines_are_complained_of(input: Seq<char>)
    requires
        input.len() > 0 ==> !is_whitespace(input[0]) && !is_whitespace(input.last()),
        input != "/help"@ && input != "/mcp help"@ && input != "help"@,
        input != "/mcp server reload"@ && input != "/server reload"@,
        input != "/list"@ && input != "/mcp list"@ && input != "list"@,
        input != "/status"@ && input != "/mcp status"@ && input != "status"@,
        input != "/exit"@ && input != "/shutdown"@ && input != "exit"@,
        forall|rest: Seq<char>| input != #[trigger] ("/mcp disable"@ + rest),
        forall|rest: Seq<char>| input != #[trigger] ("/mcp add"@ + rest),
    ensures
        parsed(input) == CommandV::Complaint(
            "Unknown command: '"@ + input + "'. Type /help for all available control commands."@,
        ),
{
    if input.len() > 0 {
        lemma_trimmed_already(input);
    }
    assert(trimmed(input) == input);
    law_begins_with_what_stands_in_front(input, "/mcp disable"@, Seq::empty());
    law_begins_with_what_stands_in_front(input, "/mcp add"@, Seq::empty());
    if begins(input, "/mcp disable"@) {
        assert(input == "/mcp disable"@ + input.skip("/mcp disable"@.len() as int));
    }
    if begins(input, "/mcp add"@) {
        assert(input == "/mcp add"@ + input.skip("/mcp add"@.len() as int));
    }
}

/// A command is told whole: its names, its command line and every argument in its order.
pub proof fn law_commands_are_told_whole(
    name: String,
    command: String,
    args: Vec<String>,
    text: String,
    i: int,
)
    ensures
        Command::Help@ == CommandV::Help,
        Command::Reload@ == CommandV::Reload,
        Command::List@ == CommandV::List,
        Command::Status@ == CommandV::Status,
        Command::Exit@ == CommandV::Exit,
        (Command::Disable { name })@ == (CommandV::Disable { name: name@ }),
        Command::Complaint(text)@ == CommandV::Complaint(text@),
        (Command::Add { name, command, args })@ matches CommandV::Add {
            name: told_name,
            command: told_command,
            args: told,
        } && told_name == name@ && told_command == command@ && told.len() == args@.len() && (0
            <= i < args@.len() ==> told[i] == args@[i]@),
{
}

/// What a line that is to add a server comes to goes by its parts alone: the name that it begins
/// with, the command behind the name, and what is left.
pub proof fn law_the_parts_of_a_line_settle_what_is_added(
    s: Seq<char>,
    name: Seq<char>,
    rest: Seq<char>,
    command: Seq<char>,
    args: Seq<char>,
)
    ensures
        name_and_rest(s) is None ==> parsed_add(s) == CommandV::Complaint(
            "Error: unclosed double quotes in tool name."@,
        ),
        name_and_rest(s) == Some((name, rest)) && word_and_rest(rest) == (command, args) ==> {
            &&& name.len() == 0 ==> parsed_add(s) == CommandV::Complaint(
                "Error: please specify a tool name, e.g.: /mcp add \"mcp-filesystem\" npx \"args\""@,
            )
            &&& name.len() > 0 && command.len() == 0 ==> parsed_add(s) == CommandV::Complaint(
                "Error: missing command for tool \""@ + name
                    + "\". Usage: /mcp add \"tool_name\" <command> [args]"@,
            )
            &&& name.len() > 0 && command.len() > 0 && !is_slug(name) ==> parsed_add(s)
                == CommandV::Complaint(
                "Error: invalid tool name '"@ + name + "': invalid server id: "@ + name,
            )
            &&& command.len() > 0 && is_slug(name) ==> parsed_add(s) == (CommandV::Add {
                name,
                command,
                args: arguments(unbracketed(args)),
            })
        },
{
}

/// Texts with spaces between them begin as the first of them and end as the last.
proof fn lemma_spaced_ends(args: Seq<Seq<char>>)
    requires
        args.len() > 0,
        forall|k: int| 0 <= k < args.len() ==> (#[trigger] args[k]).len() > 0,
    ensures
        spaced(args).len() > 0,
        spaced(args)[0] == args[0][0],
        spaced(args).last() == args.last().last(),
    decreases args.len(),
{
    assert(args[0].len() > 0);
    if args.len() > 1 {
        let others = args.skip(1);
        assert forall|k: int| 0 <= k < others.len() implies (#[trigger] others[k]).len() > 0 by {
            assert(args[k + 1].len() > 0);
        }
        lemma_spaced_ends(others);
        assert(others.last() == args.last());
    }
}

/// A server can be added without any quotes: its name, its command and its arguments are read as
/// they were typed, where the arguments have no white space, comma and double quote in them and no
/// brackets around them.
pub proof fn law_bare_add_command_reads_back(
    name: Seq<char>,
    command: Seq<char>,
    args: Seq<Seq<char>>,
)
    requires
        is_slug(name),
        is_word(command),
        args.len() > 0,
        forall|k: int| 0 <= k < args.len() ==> (#[trigger] args[k]).len() > 0,
        forall|k: int, i: int|
            0 <= k < args.len() && 0 <= i < args[k].len() ==> !is_whitespace(
                #[trigger] args[k][i],
            ) && args[k][i] != ',' && args[k][i] != '"',
        args[0][0] != '<' && args[0][0] != '[',
        args.last().last() != '>' && args.last().last() != ']',
    ensures
        parsed("/mcp add "@ + name + " "@ + command + " "@ + spaced(args)) == (CommandV::Add {
            name,
            command,
            args,
        }),
{
    let empty = Seq::<char>::empty();
    let typed = spaced(args);
    lemma_spaced_ends(args);
    assert(args[args.len() - 1].len() > 0);
    assert(!is_whitespace(args[0][0]));
    assert(!is_whitespace(args[args.len() - 1][args[args.len() - 1].len() - 1]));
    lemma_trimmed_already(typed);
    law_brackets_are_taken_off(empty, empty, typed, empty, empty);
    assert(empty + empty + typed + empty + empty =~= typed);
    law_bare_arguments_read_back(args);
    law_add_goes_by_name_command_and_arguments(name, command, typed);
}

} // verus!
