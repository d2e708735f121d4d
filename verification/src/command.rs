//! Commands in messages: `/name@bot argument`.

use crate::text::{
    after_first, before_first, count_free_prefix, first_of_joined, free_prefix, nothing_to_split,
    split_first, white_space, CharClass,
};
use vstd::prelude::*;

verus! {

/// A command as a message gives it.
#[derive(Debug, PartialEq, Eq)]
pub struct Command {
    /// The word behind the slash.
    pub name: String,
    /// The user name of the bot that the command is meant for.
    pub via: Option<String>,
    /// What follows the command.
    pub arg: Option<String>,
}

/// The texts of a [`Command`].
pub struct CommandView {
    pub name: Seq<char>,
    pub via: Option<Seq<char>>,
    pub arg: Option<Seq<char>>,
}

impl View for Command {
    type V = CommandView;

    open spec fn view(&self) -> CommandView {
        CommandView {
            name: self.name@,
            via: self.via.deep_view(),
            arg: self.arg.deep_view(),
        }
    }
}

/// The command that `text` holds, if it starts with a slash. The command's head
/// runs to the first white space, and its argument is what stands behind that one
/// character. Within the head the name runs to the first `@`.
pub open spec fn command_of(text: Seq<char>) -> Option<CommandView> {
    if text.len() == 0 || text[0] != '/' {
        None
    } else {
        let body = text.skip(1);
        let end = free_prefix(body, CharClass::WhiteSpace) as int;
        let head = body.take(end);
        Some(
            CommandView {
                name: before_first(head, '@'),
                via: after_first(head, '@'),
                arg: if end < body.len() {
                    Some(body.skip(end + 1))
                } else {
                    None
                },
            },
        )
    }
}

/// Reads the command that `text` starts with.
pub fn parse_command(text: &str) -> (command: Option<Command>)
    ensures
        match command {
            Some(found) => command_of(text@) == Some(found@),
            None => command_of(text@) is None,
        },
{
    let n: usize = text.unicode_len();
    if n == 0 || text.get_char(0) != '/' {
        return None;
    }
    let body = text.substring_char(1, n);
    let end: usize = count_free_prefix(body, CharClass::WhiteSpace);
    let head = body.substring_char(0, end);
    let (name, via) = split_first(head, '@');
    let arg: Option<String> = if end < n - 1 {
        Some(body.substring_char(end + 1, n - 1).to_owned())
    } else {
        None
    };
    let via: Option<String> = match via {
        Some(via) => Some(via.to_owned()),
        None => None,
    };
    Some(Command { name: name.to_owned(), via, arg })
}

/// Law: a command is read back as it was written, with or without the bot that it
/// is meant for and with or without an argument.
pub proof fn law_command_reads_back(command: CommandView)
    requires
        forall|i: int|
            0 <= i < command.name.len() ==> !white_space(#[trigger] command.name[i])
                && command.name[i] != '@',
        command.via is Some ==> forall|i: int|
            0 <= i < command.via->0.len() ==> !white_space(#[trigger] command.via->0[i]),
    ensures
        command_of(command_text(command)) == Some(command),
{
    let head = command_head(command);
    let tail = match command.arg {
        Some(arg) => seq![' '] + arg,
        None => Seq::empty(),
    };
    let text = command_text(command);
    let body = text.skip(1);
    assert(body =~= head + tail);
    assert forall|i: int| 0 <= i < head.len() implies !white_space(#[trigger] head[i]) by {
        if i < command.name.len() {
            assert(head[i] == command.name[i]);
        } else if i > command.name.len() {
            assert(head[i] == command.via->0[i - command.name.len() - 1]);
        }
    }
    head_is_free(head, tail);
    assert(body.take(head.len() as int) =~= head);
    if command.name.contains('@') {
        let i = choose|i: int| 0 <= i < command.name.len() && command.name[i] == '@';
        assert(command.name[i] != '@');
    }
    match command.via {
        Some(via) => {
            first_of_joined(command.name, '@', via);
        },
        None => {
            assert(head =~= command.name);
            nothing_to_split(head, '@');
        },
    }
    if command.arg is Some {
        assert(body.skip(head.len() as int + 1) =~= command.arg->0);
    }
}

/// The head of a command: its name, and the bot that it is meant for.
pub open spec fn command_head(command: CommandView) -> Seq<char> {
    match command.via {
        Some(via) => command.name + seq!['@'] + via,
        None => command.name,
    }
}

/// A command as a user writes it.
pub open spec fn command_text(command: CommandView) -> Seq<char> {
    seq!['/'] + command_head(command) + match command.arg {
        Some(arg) => seq![' '] + arg,
        None => Seq::empty(),
    }
}

proof fn head_is_free(head: Seq<char>, tail: Seq<char>)
    requires
        forall|i: int| 0 <= i < head.len() ==> !white_space(#[trigger] head[i]),
        tail.len() == 0 || white_space(tail[0]),
    ensures
        free_prefix(head + tail, CharClass::WhiteSpace) == head.len(),
    decreases head.len(),
{
    let whole = head + tail;
    if head.len() == 0 {
        assert(whole =~= tail);
    } else {
        let rest = head.skip(1);
        assert(whole.skip(1) =~= rest + tail);
        assert forall|i: int| 0 <= i < rest.len() implies !white_space(#[trigger] rest[i]) by {
            assert(rest[i] == head[i + 1]);
        }
        head_is_free(rest, tail);
    }
}

/// Law: a text that starts with a slash is read as a command. Its name runs to the
/// first white space, or to an `@` before that; behind the `@` stands the bot that it is
/// meant for, and behind the one white-space character the argument, as it is. No other
/// text is.
pub proof fn law_commands_are_read(
    name: Seq<char>,
    target: Seq<char>,
    space: char,
    arg: Seq<char>,
)
    requires
        forall|i: int|
            0 <= i < name.len() ==> !white_space(#[trigger] name[i]) && name[i] != '@',
        forall|i: int| 0 <= i < target.len() ==> !white_space(#[trigger] target[i]),
        white_space(space),
    ensures
        command_of(seq!['/'] + name) == Some(CommandView { name, via: None, arg: None }),
        command_of(seq!['/'] + name + seq![space] + arg) == Some(
            CommandView { name, via: None, arg: Some(arg) },
        ),
        command_of(seq!['/'] + name + seq!['@'] + target) == Some(
            CommandView { name, via: Some(target), arg: None },
        ),
        command_of(seq!['/'] + name + seq!['@'] + target + seq![space] + arg) == Some(
            CommandView { name, via: Some(target), arg: Some(arg) },
        ),
{
    let none = Seq::<char>::empty();
    let tail = seq![space] + arg;
    let long = name + seq!['@'] + target;
    assert forall|i: int| 0 <= i < long.len() implies !white_space(#[trigger] long[i]) by {
        if i < name.len() {
            assert(long[i] == name[i]);
        } else if i > name.len() {
            assert(long[i] == target[i - name.len() - 1]);
        }
    }
    assert((seq!['/'] + name).skip(1) =~= name + none);
    assert((seq!['/'] + name + seq![space] + arg).skip(1) =~= name + tail);
    assert((seq!['/'] + name + seq!['@'] + target).skip(1) =~= long + none);
    assert((seq!['/'] + name + seq!['@'] + target + seq![space] + arg).skip(1) =~= long + tail);
    head_is_free(name, none);
    head_is_free(name, tail);
    head_is_free(long, none);
    head_is_free(long, tail);
    assert((name + none).take(name.len() as int) =~= name);
    assert((name + tail).take(name.len() as int) =~= name);
    assert((long + none).take(long.len() as int) =~= long);
    assert((long + tail).take(long.len() as int) =~= long);
    assert((name + tail).skip(name.len() as int + 1) =~= arg);
    assert((long + tail).skip(long.len() as int + 1) =~= arg);
    first_of_joined(name, '@', target);
    nothing_to_split(name, '@');
}

/// Law: a text without a slash before everything else holds no command.
pub proof fn law_other_texts_hold_no_command(text: Seq<char>)
    requires
        text.len() == 0 || text[0] != '/',
    ensures
        command_of(text) is None,
{
}

/// Law: a command has the texts that it was made of.
pub proof fn law_commands_show_their_texts(command: Command)
    ensures
        command@.name == command.name@,
        command.via is None <==> command@.via is None,
        command.arg is None <==> command@.arg is None,
        command.via is Some ==> command@.via == Some(command.via->0@),
        command.arg is Some ==> command@.arg == Some(command.arg->0@),
{
}

}
