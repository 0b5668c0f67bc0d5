//! The interactive shell: a line editor over the console and a table of
//! commands.

use vstd::prelude::*;
use vstd::string::{StrSliceExecFns, StringSliceAdditionalSpecFns};
use crate::console::{line, CR, LF};
use crate::mmio::{Access, RegisterBus};
use crate::uart::{
    lemma_transmissions_do_not_interleave, lock_acquire, lock_target, receive, since, transmits,
    SharedUart, Uart,
};

verus! {

/// A byte that separates the words of a command line: a space, a tab, a
/// line feed, a vertical tab, a form feed or a carriage return.
pub open spec fn is_blank(byte: u8) -> bool {
    byte == 0x20 || (0x09 <= byte && byte <= 0x0D)
}

/// Where the run of bytes that are not blank and that starts at `i` ends:
/// the first position from `i` on that holds a blank, or the end of the line.
pub open spec fn word_end(line: Seq<u8>, i: int) -> int
    decreases line.len() - i,
{
    if i < 0 || i >= line.len() || is_blank(line[i]) {
        i
    } else {
        word_end(line, i + 1)
    }
}

/// A word ends inside the line, and after its start if it has a byte.
pub proof fn lemma_word_end_bounds(line: Seq<u8>, i: int)
    requires
        0 <= i <= line.len(),
    ensures
        i <= word_end(line, i) <= line.len(),
        i < line.len() && !is_blank(line[i]) ==> i < word_end(line, i),
    decreases line.len() - i,
{
    if i < line.len() && !is_blank(line[i]) {
        lemma_word_end_bounds(line, i + 1);
    }
}

/// The words of the line from position `i` on.
pub open spec fn words_from(line: Seq<u8>, i: int) -> Seq<Seq<u8>>
    decreases line.len() - i,
{
    if i < 0 || i >= line.len() {
        Seq::empty()
    } else if is_blank(line[i]) {
        words_from(line, i + 1)
    } else {
        proof {
            lemma_word_end_bounds(line, i);
        }
        seq![line.subrange(i, word_end(line, i))] + words_from(line, word_end(line, i))
    }
}

/// The words of a command line: its longest runs of bytes that are not
/// blank, in the order in which they stand.
pub open spec fn words(line: Seq<u8>) -> Seq<Seq<u8>> {
    words_from(line, 0)
}

/// What each of a list of byte strings holds.
pub open spec fn contents(list: Seq<Vec<u8>>) -> Seq<Seq<u8>> {
    list.map_values(|item: Vec<u8>| item@)
}

/// Tells whether a byte separates words.
pub fn blank(byte: u8) -> (b: bool)
    ensures
        b == is_blank(byte),
{
    byte == 0x20 || (0x09 <= byte && byte <= 0x0D)
}

/// Splits a command line into its words.
pub fn split_words(line: &[u8]) -> (result: Vec<Vec<u8>>)
    ensures
        contents(result@) == words(line@),
{
    let mut result: Vec<Vec<u8>> = Vec::new();
    let mut i: usize = 0;
    assert(contents(result@) + words_from(line@, 0) =~= words(line@));
    while i < line.len()
        invariant
            i <= line.len(),
            contents(result@) + words_from(line@, i as int) == words(line@),
        decreases line.len() - i,
    {
        if blank(line[i]) {
            i += 1;
        } else {
            let mut word: Vec<u8> = Vec::new();
            let mut j: usize = i;
            while j < line.len() && !blank(line[j])
                invariant
                    i <= j <= line.len(),
                    i < line.len(),
                    !is_blank(line@[i as int]),
                    word@ == line@.subrange(i as int, j as int),
                    word_end(line@, i as int) == word_end(line@, j as int),
                decreases line.len() - j,
            {
                word.push(line[j]);
                assert(word@ =~= line@.subrange(i as int, j + 1));
                j += 1;
            }
            proof {
                assert(word_end(line@, i as int) == j);
                let before = contents(result@);
                let next = result@.push(word);
                assert(contents(next) =~= before.push(word@));
                assert(before.push(word@) + words_from(line@, j as int) =~= before + (seq![
                    word@,
                ] + words_from(line@, j as int)));
            }
            result.push(word);
            i = j;
        }
    }
    assert(contents(result@) + words_from(line@, i as int) =~= contents(result@));
    result
}

/// Tells whether two byte strings hold the same bytes.
pub fn same_bytes(a: &[u8], b: &[u8]) -> (same: bool)
    ensures
        same == (a@ == b@),
{
    if a.len() != b.len() {
        return false;
    }
    let mut i: usize = 0;
    while i < a.len()
        invariant
            i <= a.len(),
            a.len() == b.len(),
            a@.take(i as int) == b@.take(i as int),
        decreases a.len() - i,
    {
        if a[i] != b[i] {
            assert(a@[i as int] != b@[i as int]);
            return false;
        }
        assert(a@.take(i + 1) =~= a@.take(i as int).push(a@[i as int]));
        assert(b@.take(i + 1) =~= b@.take(i as int).push(b@[i as int]));
        i += 1;
    }
    assert(a@ =~= a@.take(i as int));
    assert(b@ =~= b@.take(i as int));
    true
}

/// The longest line that the editor holds, in bytes.
pub const MAX_LINE: usize = 255;

/// Width to which the help listing pads a command name.
pub const NAME_WIDTH: usize = 10;

/// What a command does when it runs.
#[derive(Clone, Copy, Debug, PartialEq, Eq, Structural)]
pub enum CommandFn {
    /// Lists the commands of the shell.
    Help,
    /// Writes its arguments back, with one space between two of them.
    Echo,
    /// Clears the screen.
    Clear,
    /// Tells about the memory.
    MemInfo,
    /// Restarts the system.
    Reboot,
    /// Tells the version of the system and of its toolchain.
    Version,
    /// Runs code that the shell does not hold; `id` tells the caller which.
    Custom { id: usize },
}

/// An entry of the command table.
#[derive(Clone, Copy, Debug)]
pub struct Command {
    /// Name by which the command is called.
    pub name: &'static str,
    /// One line that says what the command does.
    pub description: &'static str,
    /// What runs when the command is called.
    pub function: CommandFn,
}

/// A call of a custom command that the shell hands to its caller.
#[derive(Debug)]
pub struct Request {
    /// The `id` of the custom command.
    pub id: usize,
    /// The words of the command line after the name.
    pub args: Vec<Vec<u8>>,
}

/// What a shell is, to its contracts.
pub struct ShellState {
    /// The line that is being typed.
    pub buffer: Seq<u8>,
    /// The lines that were entered, oldest first.
    pub past: Seq<Seq<u8>>,
    /// The command table, in the order in which the commands were added.
    pub commands: Seq<Command>,
    /// What is written before each line that is to be typed.
    pub prompt: Seq<u8>,
    /// Version of the system, as the `version` command reports it.
    pub os_version: Seq<u8>,
    /// Version of the toolchain, as the `version` command reports it.
    pub toolchain: Seq<u8>,
}

/// The bytes of a text on the wire.
pub open spec fn bytes(text: &str) -> Seq<u8> {
    text.spec_bytes()
}

/// A run of `count` spaces.
pub open spec fn spaces(count: int) -> Seq<u8> {
    Seq::new(
        if count > 0 {
            count as nat
        } else {
            0
        },
        |i: int| 0x20u8,
    )
}

/// The line of the help listing for one command: two spaces, the name,
/// spaces up to the name width, a dash between two spaces, the description.
pub open spec fn help_entry(command: Command) -> Seq<u8> {
    line(
        bytes("  ") + bytes(command.name) + spaces(NAME_WIDTH - command.name@.len()) + bytes(" - ")
            + bytes(command.description),
    )
}

/// The lines of the help listing for a command table, in table order.
pub open spec fn help_entries(commands: Seq<Command>) -> Seq<u8>
    decreases commands.len(),
{
    if commands.len() == 0 {
        Seq::empty()
    } else {
        help_entries(commands.drop_last()) + help_entry(commands.last())
    }
}

/// The words of a list with one space between two of them.
pub open spec fn joined(list: Seq<Seq<u8>>) -> Seq<u8>
    decreases list.len(),
{
    if list.len() == 0 {
        Seq::empty()
    } else if list.len() == 1 {
        list[0]
    } else {
        joined(list.drop_last()) + seq![0x20u8] + list.last()
    }
}

/// What a command that the shell holds writes to the console.
pub open spec fn builtin_output(function: CommandFn, args: Seq<Seq<u8>>, shell: ShellState) -> Seq<
    u8,
> {
    match function {
        CommandFn::Help => line(bytes("Available commands:")) + help_entries(shell.commands),
        CommandFn::Echo => line(joined(args)),
        CommandFn::Clear => bytes("\x1b[2J\x1b[H"),
        CommandFn::MemInfo => line(bytes("Memory information not implemented yet")),
        CommandFn::Reboot => line(bytes("Rebooting...")),
        CommandFn::Version => line(bytes("SAGE OS v") + shell.os_version) + line(
            bytes("Built with Rust ") + shell.toolchain,
        ),
        CommandFn::Custom { .. } => Seq::empty(),
    }
}

/// What the shell writes when no command has the name that was called.
pub open spec fn unknown_output(name: Seq<u8>) -> Seq<u8> {
    line(bytes("Unknown command: ") + name) + line(bytes("Type 'help' for a list of commands"))
}

/// What the shell writes when it starts: two lines of greeting, then the
/// prompt.
pub open spec fn banner(shell: ShellState) -> Seq<u8> {
    line(bytes("SAGE OS Shell")) + line(bytes("Type 'help' for a list of commands")) + shell.prompt
}

/// The first entry from position `i` on whose name is `name`, if there is
/// one.
pub open spec fn lookup_from(commands: Seq<Command>, name: Seq<u8>, i: int) -> Option<int>
    decreases commands.len() - i,
{
    if i < 0 || i >= commands.len() {
        None
    } else if bytes(commands[i].name) == name {
        Some(i)
    } else {
        lookup_from(commands, name, i + 1)
    }
}

/// The first entry of the table whose name is `name`, if there is one.
pub open spec fn lookup(commands: Seq<Command>, name: Seq<u8>) -> Option<int> {
    lookup_from(commands, name, 0)
}

/// The command that a line calls: the first entry of the table with the
/// name that is the first word of the line. A line without a word calls
/// none, and neither does a name that the table does not hold.
pub open spec fn called(shell: ShellState) -> Option<Command> {
    let w = words(shell.buffer);
    if w.len() == 0 {
        None
    } else {
        match lookup(shell.commands, w[0]) {
            Some(i) => Some(shell.commands[i]),
            None => None,
        }
    }
}

/// What running the typed line writes to the console.
pub open spec fn run_output(shell: ShellState) -> Seq<u8> {
    let w = words(shell.buffer);
    if w.len() == 0 {
        Seq::empty()
    } else {
        match called(shell) {
            Some(command) => builtin_output(command.function, w.skip(1), shell),
            None => unknown_output(w[0]),
        }
    }
}

/// The call that running the typed line hands to the caller of the shell:
/// the `id` of a custom command and its arguments.
pub open spec fn run_request(shell: ShellState) -> Option<(usize, Seq<Seq<u8>>)> {
    match called(shell) {
        Some(command) => match command.function {
            CommandFn::Custom { id } => Some((id, words(shell.buffer).skip(1))),
            _ => None,
        },
        None => None,
    }
}

/// The byte enters the line: a carriage return or a line feed.
pub open spec fn is_enter(byte: u8) -> bool {
    byte == CR || byte == LF
}

/// The byte erases a character: backspace or delete.
pub open spec fn is_erase(byte: u8) -> bool {
    byte == 0x08 || byte == 0x7F
}

/// The byte is typed into the line: a printable ASCII character.
pub open spec fn is_printable(byte: u8) -> bool {
    32 <= byte <= 126
}

/// The shell after it has taken one byte from the console.
///
/// Enter files the line, unless it is empty, and starts a new one. An erase
/// drops the last byte of the line, if it has one. A printable byte joins
/// the line, if there is room. Every other byte changes nothing.
pub open spec fn after_byte(shell: ShellState, byte: u8) -> ShellState {
    if is_enter(byte) {
        ShellState {
            buffer: Seq::empty(),
            past: if shell.buffer.len() > 0 {
                shell.past.push(shell.buffer)
            } else {
                shell.past
            },
            ..shell
        }
    } else if is_erase(byte) {
        if shell.buffer.len() > 0 {
            ShellState { buffer: shell.buffer.drop_last(), ..shell }
        } else {
            shell
        }
    } else if is_printable(byte) {
        if shell.buffer.len() < MAX_LINE {
            ShellState { buffer: shell.buffer.push(byte), ..shell }
        } else {
            shell
        }
    } else {
        shell
    }
}

/// What the shell writes to the console when it takes one byte.
///
/// Enter ends the typed line with CR LF, runs it, and writes the prompt,
/// unless the line calls a custom command: then the prompt waits until that
/// command is done. An erase that drops a byte wipes it from the screen
/// with backspace, space, backspace. A printable byte that joins the line
/// is echoed. Nothing else is written.
pub open spec fn byte_output(shell: ShellState, byte: u8) -> Seq<u8> {
    if is_enter(byte) {
        seq![CR, LF] + run_output(shell) + if run_request(shell) is None {
            shell.prompt
        } else {
            Seq::empty()
        }
    } else if is_erase(byte) {
        if shell.buffer.len() > 0 {
            seq![0x08u8, 0x20u8, 0x08u8]
        } else {
            Seq::empty()
        }
    } else if is_printable(byte) {
        if shell.buffer.len() < MAX_LINE {
            seq![byte]
        } else {
            Seq::empty()
        }
    } else {
        Seq::empty()
    }
}

/// The call, if any, that the shell hands to its caller when it takes one
/// byte.
pub open spec fn byte_request(shell: ShellState, byte: u8) -> Option<(usize, Seq<Seq<u8>>)> {
    if is_enter(byte) {
        run_request(shell)
    } else {
        None
    }
}

/// What the shell writes when a custom command is done: the error, if the
/// command failed, on a line of its own, then the prompt.
pub open spec fn done_output(shell: ShellState, outcome: Result<(), &str>) -> Seq<u8> {
    (match outcome {
        Ok(_) => Seq::empty(),
        Err(message) => line(bytes("Error: ") + bytes(message)),
    }) + shell.prompt
}

/// The command table of a new shell.
pub open spec fn builtin_commands() -> Seq<Command> {
    seq![
        Command {
            name: "help",
            description: "Display available commands",
            function: CommandFn::Help,
        },
        Command { name: "echo", description: "Echo text to the console", function: CommandFn::Echo },
        Command { name: "clear", description: "Clear the screen", function: CommandFn::Clear },
        Command {
            name: "meminfo",
            description: "Display memory information",
            function: CommandFn::MemInfo,
        },
        Command { name: "reboot", description: "Reboot the system", function: CommandFn::Reboot },
        Command {
            name: "version",
            description: "Display OS version information",
            function: CommandFn::Version,
        },
    ]
}

/// Sends a text after what has been sent since `start`.
fn put<B: RegisterBus>(
    uart: &mut Uart<B>,
    text: &str,
    Ghost(start): Ghost<Seq<Access>>,
    Ghost(sent): Ghost<Seq<u8>>,
)
    requires
        start.is_prefix_of(old(uart).history()),
        transmits(since(old(uart).history(), start), sent),
    ensures
        start.is_prefix_of(final(uart).history()),
        transmits(since(final(uart).history(), start), sent + bytes(text)),
{
    let ghost middle = uart.history();
    uart.write_string(text);
    proof {
        lemma_transmissions_do_not_interleave(start, middle, uart.history(), sent, bytes(text));
    }
}

/// Sends bytes after what has been sent since `start`.
fn put_bytes<B: RegisterBus>(
    uart: &mut Uart<B>,
    data: &[u8],
    Ghost(start): Ghost<Seq<Access>>,
    Ghost(sent): Ghost<Seq<u8>>,
)
    requires
        start.is_prefix_of(old(uart).history()),
        transmits(since(old(uart).history(), start), sent),
    ensures
        start.is_prefix_of(final(uart).history()),
        transmits(since(final(uart).history(), start), sent + data@),
{
    let ghost middle = uart.history();
    uart.write_bytes(data);
    proof {
        lemma_transmissions_do_not_interleave(start, middle, uart.history(), sent, data@);
    }
}

/// Sends one byte after what has been sent since `start`.
fn put_byte<B: RegisterBus>(
    uart: &mut Uart<B>,
    byte: u8,
    Ghost(start): Ghost<Seq<Access>>,
    Ghost(sent): Ghost<Seq<u8>>,
)
    requires
        start.is_prefix_of(old(uart).history()),
        transmits(since(old(uart).history(), start), sent),
    ensures
        start.is_prefix_of(final(uart).history()),
        transmits(since(final(uart).history(), start), sent.push(byte)),
{
    let ghost middle = uart.history();
    uart.send(byte);
    proof {
        lemma_transmissions_do_not_interleave(start, middle, uart.history(), sent, seq![byte]);
        assert(sent + seq![byte] =~= sent.push(byte));
    }
}

/// Sends the line terminator after what has been sent since `start`.
fn put_end<B: RegisterBus>(
    uart: &mut Uart<B>,
    Ghost(start): Ghost<Seq<Access>>,
    Ghost(sent): Ghost<Seq<u8>>,
)
    requires
        start.is_prefix_of(old(uart).history()),
        transmits(since(old(uart).history(), start), sent),
    ensures
        start.is_prefix_of(final(uart).history()),
        transmits(since(final(uart).history(), start), line(sent)),
{
    put_byte(uart, CR, Ghost(start), Ghost(sent));
    put_byte(uart, LF, Ghost(start), Ghost(sent.push(CR)));
    assert(sent.push(CR).push(LF) =~= line(sent));
}

/// The shell: the line that is being typed, the lines entered before, and
/// the command table.
pub struct Shell {
    buffer: Vec<u8>,
    history: Vec<Vec<u8>>,
    commands: Vec<Command>,
    prompt: &'static str,
    os_version: &'static str,
    toolchain: &'static str,
}

impl Shell {
    /// What the shell is, to its contracts.
    pub closed spec fn view(&self) -> ShellState {
        ShellState {
            buffer: self.buffer@,
            past: contents(self.history@),
            commands: self.commands@,
            prompt: bytes(self.prompt),
            os_version: bytes(self.os_version),
            toolchain: bytes(self.toolchain),
        }
    }

    /// A shell with an empty line, no lines entered, the prompt `sage> `
    /// and the six commands that the shell holds itself.
    pub fn new() -> (shell: Self)
        ensures
            shell@.buffer == Seq::<u8>::empty(),
            shell@.past == Seq::<Seq<u8>>::empty(),
            shell@.commands == builtin_commands(),
            shell@.prompt == bytes("sage> "),
            shell@.os_version == bytes("0.1.0"),
            shell@.toolchain == bytes("unknown"),
    {
        let mut shell = Shell {
            buffer: Vec::with_capacity(256),
            history: Vec::new(),
            commands: Vec::new(),
            prompt: "sage> ",
            os_version: "0.1.0",
            toolchain: "unknown",
        };
        assert(contents(shell.history@) =~= Seq::<Seq<u8>>::empty());
        shell.add_command(
            Command {
                name: "help",
                description: "Display available commands",
                function: CommandFn::Help,
            },
        );
        shell.add_command(
            Command {
                name: "echo",
                description: "Echo text to the console",
                function: CommandFn::Echo,
            },
        );
        shell.add_command(
            Command { name: "clear", description: "Clear the screen", function: CommandFn::Clear },
        );
        shell.add_command(
            Command {
                name: "meminfo",
                description: "Display memory information",
                function: CommandFn::MemInfo,
            },
        );
        shell.add_command(
            Command {
                name: "reboot",
                description: "Reboot the system",
                function: CommandFn::Reboot,
            },
        );
        shell.add_command(
            Command {
                name: "version",
                description: "Display OS version information",
                function: CommandFn::Version,
            },
        );
        assert(shell@.commands =~= builtin_commands());
        shell
    }

    /// Sets the versions that the `version` command reports.
    pub fn set_versions(&mut self, os_version: &'static str, toolchain: &'static str)
        ensures
            final(self)@ == (ShellState {
                os_version: bytes(os_version),
                toolchain: bytes(toolchain),
                ..old(self)@
            }),
    {
        self.os_version = os_version;
        self.toolchain = toolchain;
    }

    /// Adds a command at the end of the table.
    ///
    /// A name that the table already holds keeps calling the earlier entry.
    pub fn add_command(&mut self, command: Command)
        ensures
            final(self)@ == (ShellState {
                commands: old(self)@.commands.push(command),
                ..old(self)@
            }),
    {
        self.commands.push(command);
    }

    /// The line that is being typed.
    pub fn line(&self) -> (line: &Vec<u8>)
        ensures
            line@ == self@.buffer,
    {
        &self.buffer
    }

    /// The lines that were entered, oldest first.
    pub fn entered(&self) -> (lines: &Vec<Vec<u8>>)
        ensures
            contents(lines@) == self@.past,
    {
        &self.history
    }

    /// The command table.
    pub fn commands(&self) -> (table: &Vec<Command>)
        ensures
            table@ == self@.commands,
    {
        &self.commands
    }

    /// Finds the first entry of the table with the given name.
    pub fn find(&self, name: &[u8]) -> (found: Option<usize>)
        ensures
            match found {
                Some(i) => i < self@.commands.len() && lookup(self@.commands, name@) == Some(
                    i as int,
                ),
                None => lookup(self@.commands, name@) is None,
            },
    {
        let mut i: usize = 0;
        while i < self.commands.len()
            invariant
                i <= self.commands.len(),
                lookup_from(self.commands@, name@, i as int) == lookup(self.commands@, name@),
            decreases self.commands.len() - i,
        {
            if same_bytes(self.commands[i].name.as_bytes(), name) {
                return Some(i);
            }
            i += 1;
        }
        None
    }

    /// Writes the help listing: a heading, then one line for each command.
    fn list_commands<B: RegisterBus>(
        &self,
        uart: &mut Uart<B>,
        Ghost(start): Ghost<Seq<Access>>,
        Ghost(sent): Ghost<Seq<u8>>,
    )
        requires
            start.is_prefix_of(old(uart).history()),
            transmits(since(old(uart).history(), start), sent),
        ensures
            start.is_prefix_of(final(uart).history()),
            transmits(
                since(final(uart).history(), start),
                sent + (line(bytes("Available commands:")) + help_entries(self@.commands)),
            ),
    {
        put(uart, "Available commands:", Ghost(start), Ghost(sent));
        put_end(uart, Ghost(start), Ghost(sent + bytes("Available commands:")));
        let ghost head = line(sent + bytes("Available commands:"));
        assert(head =~= sent + line(bytes("Available commands:")));
        let mut i: usize = 0;
        assert(self.commands@.take(0) =~= Seq::<Command>::empty());
        assert(head + help_entries(self.commands@.take(0)) =~= head);
        while i < self.commands.len()
            invariant
                i <= self.commands.len(),
                start.is_prefix_of(uart.history()),
                head == sent + line(bytes("Available commands:")),
                transmits(
                    since(uart.history(), start),
                    head + help_entries(self.commands@.take(i as int)),
                ),
            decreases self.commands.len() - i,
        {
            let command = self.commands[i];
            let ghost before = head + help_entries(self.commands@.take(i as int));
            put(uart, "  ", Ghost(start), Ghost(before));
            put(uart, command.name, Ghost(start), Ghost(before + bytes("  ")));
            let ghost named = before + bytes("  ") + bytes(command.name);
            let length = command.name.unicode_len();
            let mut k: usize = length;
            assert(spaces(0) =~= Seq::<u8>::empty());
            assert(named + spaces(0) =~= named);
            while k < NAME_WIDTH
                invariant
                    length <= k,
                    k == length || k <= NAME_WIDTH,
                    length == command.name@.len(),
                    start.is_prefix_of(uart.history()),
                    transmits(since(uart.history(), start), named + spaces(k - length)),
                decreases NAME_WIDTH - k,
            {
                put_byte(uart, 0x20, Ghost(start), Ghost(named + spaces(k - length)));
                assert((named + spaces(k - length)).push(0x20u8) =~= named + spaces(
                    k + 1 - length,
                ));
                k += 1;
            }
            let ghost padded = named + spaces(NAME_WIDTH - command.name@.len());
            assert(named + spaces(k - length) =~= padded);
            put(uart, " - ", Ghost(start), Ghost(padded));
            put(uart, command.description, Ghost(start), Ghost(padded + bytes(" - ")));
            put_end(
                uart,
                Ghost(start),
                Ghost(padded + bytes(" - ") + bytes(command.description)),
            );
            proof {
                let done = line(padded + bytes(" - ") + bytes(command.description));
                assert(self.commands@.take(i + 1).drop_last() =~= self.commands@.take(i as int));
                assert(self.commands@.take(i + 1).last() == command);
                assert(done =~= before + help_entry(command));
                assert(before + help_entry(command) =~= head + help_entries(
                    self.commands@.take(i + 1),
                ));
            }
            i += 1;
        }
        assert(self.commands@.take(i as int) =~= self.commands@);
        assert(head + help_entries(self@.commands) =~= sent + (line(bytes("Available commands:"))
            + help_entries(self@.commands)));
    }

    /// Writes the words from the second on, with one space between two of
    /// them, and ends the line.
    fn echo_words<B: RegisterBus>(
        uart: &mut Uart<B>,
        parts: &Vec<Vec<u8>>,
        Ghost(start): Ghost<Seq<Access>>,
        Ghost(sent): Ghost<Seq<u8>>,
    )
        requires
            parts.len() >= 1,
            start.is_prefix_of(old(uart).history()),
            transmits(since(old(uart).history(), start), sent),
        ensures
            start.is_prefix_of(final(uart).history()),
            transmits(
                since(final(uart).history(), start),
                sent + line(joined(contents(parts@).skip(1))),
            ),
    {
        let ghost args = contents(parts@).skip(1);
        let mut k: usize = 1;
        assert(args.take(0) =~= Seq::<Seq<u8>>::empty());
        assert(sent + joined(args.take(0)) =~= sent);
        while k < parts.len()
            invariant
                1 <= k <= parts.len(),
                args == contents(parts@).skip(1),
                start.is_prefix_of(uart.history()),
                transmits(since(uart.history(), start), sent + joined(args.take(k - 1))),
            decreases parts.len() - k,
        {
            let ghost before = sent + joined(args.take(k - 1));
            if k > 1 {
                put_byte(uart, 0x20, Ghost(start), Ghost(before));
                put_bytes(uart, parts[k].as_slice(), Ghost(start), Ghost(before.push(0x20u8)));
            } else {
                put_bytes(uart, parts[k].as_slice(), Ghost(start), Ghost(before));
            }
            proof {
                assert(args.take(k as int).drop_last() =~= args.take(k - 1));
                assert(args.take(k as int).last() == parts@[k as int]@);
                if k > 1 {
                    assert(before.push(0x20u8) + parts@[k as int]@ =~= sent + joined(
                        args.take(k as int),
                    ));
                } else {
                    assert(joined(args.take(0)) =~= Seq::<u8>::empty());
                    assert(before + parts@[k as int]@ =~= sent + joined(args.take(k as int)));
                }
            }
            k += 1;
        }
        assert(args.take(k - 1) =~= args);
        put_end(uart, Ghost(start), Ghost(sent + joined(args)));
        assert(line(sent + joined(args)) =~= sent + line(joined(args)));
    }

    /// Runs a command that the shell holds itself. `parts` holds the words
    /// of the command line, the name first.
    fn run_builtin<B: RegisterBus>(
        &self,
        uart: &mut Uart<B>,
        function: CommandFn,
        parts: &Vec<Vec<u8>>,
        Ghost(start): Ghost<Seq<Access>>,
        Ghost(sent): Ghost<Seq<u8>>,
    )
        requires
            parts.len() >= 1,
            start.is_prefix_of(old(uart).history()),
            transmits(since(old(uart).history(), start), sent),
        ensures
            start.is_prefix_of(final(uart).history()),
            transmits(
                since(final(uart).history(), start),
                sent + builtin_output(function, contents(parts@).skip(1), self@),
            ),
    {
        match function {
            CommandFn::Help => {
                self.list_commands(uart, Ghost(start), Ghost(sent));
            },
            CommandFn::Echo => {
                Self::echo_words(uart, parts, Ghost(start), Ghost(sent));
            },
            CommandFn::Clear => {
                put(uart, "\x1b[2J\x1b[H", Ghost(start), Ghost(sent));
            },
            CommandFn::MemInfo => {
                put(uart, "Memory information not implemented yet", Ghost(start), Ghost(sent));
                put_end(
                    uart,
                    Ghost(start),
                    Ghost(sent + bytes("Memory information not implemented yet")),
                );
                assert(line(sent + bytes("Memory information not implemented yet")) =~= sent
                    + line(bytes("Memory information not implemented yet")));
            },
            CommandFn::Reboot => {
                put(uart, "Rebooting...", Ghost(start), Ghost(sent));
                put_end(uart, Ghost(start), Ghost(sent + bytes("Rebooting...")));
                assert(line(sent + bytes("Rebooting...")) =~= sent + line(bytes("Rebooting...")));
            },
            CommandFn::Version => {
                put(uart, "SAGE OS v", Ghost(start), Ghost(sent));
                put(uart, self.os_version, Ghost(start), Ghost(sent + bytes("SAGE OS v")));
                put_end(
                    uart,
                    Ghost(start),
                    Ghost(sent + bytes("SAGE OS v") + bytes(self.os_version)),
                );
                let ghost first = line(sent + bytes("SAGE OS v") + bytes(self.os_version));
                put(uart, "Built with Rust ", Ghost(start), Ghost(first));
                put(
                    uart,
                    self.toolchain,
                    Ghost(start),
                    Ghost(first + bytes("Built with Rust ")),
                );
                put_end(
                    uart,
                    Ghost(start),
                    Ghost(first + bytes("Built with Rust ") + bytes(self.toolchain)),
                );
                assert(line(first + bytes("Built with Rust ") + bytes(self.toolchain)) =~= sent
                    + builtin_output(function, contents(parts@).skip(1), self@));
            },
            CommandFn::Custom { .. } => {
                assert(sent + Seq::<u8>::empty() =~= sent);
            },
        }
    }

    /// Files the typed line and runs it.
    ///
    /// An empty line does nothing. Every other line is filed among the
    /// lines entered. Its first word names the command and the words after
    /// it are the arguments. A command that the shell holds runs here and
    /// writes to the console; a custom command is handed back to the caller
    /// as a `Request`; a name that the table does not hold is reported.
    /// The typed line itself stays as it is.
    pub fn execute_command<B: RegisterBus>(&mut self, uart: &mut Uart<B>) -> (request: Option<
        Request,
    >)
        ensures
            final(self)@ == (ShellState {
                past: if old(self)@.buffer.len() > 0 {
                    old(self)@.past.push(old(self)@.buffer)
                } else {
                    old(self)@.past
                },
                ..old(self)@
            }),
            old(uart).history().is_prefix_of(final(uart).history()),
            transmits(since(final(uart).history(), old(uart).history()), run_output(old(self)@)),
            match request {
                Some(r) => run_request(old(self)@) == Some((r.id, contents(r.args@))),
                None => run_request(old(self)@) is None,
            },
    {
        let ghost start = uart.history();
        let ghost none = Seq::<u8>::empty();
        assert(since(start, start) =~= Seq::<Access>::empty());
        if self.buffer.len() == 0 {
            return None;
        }
        let filed = self.buffer.clone();
        assert(filed@ =~= self.buffer@);
        proof {
            assert(contents(self.history@.push(filed)) =~= contents(self.history@).push(
                self.buffer@,
            ));
        }
        self.history.push(filed);
        let mut parts = split_words(self.buffer.as_slice());
        if parts.len() == 0 {
            return None;
        }
        let found = self.find(parts[0].as_slice());
        match found {
            None => {
                put(uart, "Unknown command: ", Ghost(start), Ghost(none));
                put_bytes(
                    uart,
                    parts[0].as_slice(),
                    Ghost(start),
                    Ghost(none + bytes("Unknown command: ")),
                );
                put_end(
                    uart,
                    Ghost(start),
                    Ghost(none + bytes("Unknown command: ") + parts@[0]@),
                );
                let ghost first = line(none + bytes("Unknown command: ") + parts@[0]@);
                put(uart, "Type 'help' for a list of commands", Ghost(start), Ghost(first));
                put_end(
                    uart,
                    Ghost(start),
                    Ghost(first + bytes("Type 'help' for a list of commands")),
                );
                assert(line(first + bytes("Type 'help' for a list of commands"))
                    =~= unknown_output(parts@[0]@));
                None
            },
            Some(i) => {
                let command = self.commands[i];
                match command.function {
                    CommandFn::Custom { id } => {
                        let ghost all = contents(parts@);
                        parts.remove(0);
                        assert(contents(parts@) =~= all.skip(1));
                        Some(Request { id, args: parts })
                    },
                    _ => {
                        self.run_builtin(uart, command.function, &parts, Ghost(start), Ghost(none));
                        assert(none + builtin_output(
                            command.function,
                            contents(parts@).skip(1),
                            self@,
                        ) =~= run_output(old(self)@));
                        None
                    },
                }
            },
        }
    }

    /// Takes one byte that the console received.
    ///
    /// The shell changes as `after_byte` says and writes what `byte_output`
    /// says. When the byte enters a line that calls a custom command, that
    /// call is handed back; the caller runs it and then calls `complete`.
    pub fn handle_byte<B: RegisterBus>(&mut self, uart: &mut Uart<B>, byte: u8) -> (request:
        Option<Request>)
        ensures
            final(self)@ == after_byte(old(self)@, byte),
            old(uart).history().is_prefix_of(final(uart).history()),
            transmits(
                since(final(uart).history(), old(uart).history()),
                byte_output(old(self)@, byte),
            ),
            match request {
                Some(r) => byte_request(old(self)@, byte) == Some((r.id, contents(r.args@))),
                None => byte_request(old(self)@, byte) is None,
            },
    {
        let ghost start = uart.history();
        let ghost none = Seq::<u8>::empty();
        assert(since(start, start) =~= Seq::<Access>::empty());
        if byte == CR || byte == LF {
            put_end(uart, Ghost(start), Ghost(none));
            let ghost middle = uart.history();
            let request = self.execute_command(uart);
            proof {
                lemma_transmissions_do_not_interleave(
                    start,
                    middle,
                    uart.history(),
                    line(none),
                    run_output(old(self)@),
                );
                assert(line(none) =~= seq![CR, LF]);
            }
            self.buffer.clear();
            if request.is_none() {
                put(uart, self.prompt, Ghost(start), Ghost(seq![CR, LF] + run_output(old(self)@)));
            } else {
                assert(seq![CR, LF] + run_output(old(self)@) + Seq::<u8>::empty() =~= seq![CR, LF]
                    + run_output(old(self)@));
            }
            request
        } else if byte == 0x08 || byte == 0x7F {
            if self.buffer.len() > 0 {
                self.buffer.pop();
                put_byte(uart, 0x08, Ghost(start), Ghost(none));
                put_byte(uart, 0x20, Ghost(start), Ghost(none.push(0x08u8)));
                put_byte(uart, 0x08, Ghost(start), Ghost(none.push(0x08u8).push(0x20u8)));
                assert(none.push(0x08u8).push(0x20u8).push(0x08u8) =~= seq![0x08u8, 0x20u8, 0x08u8]);
            }
            None
        } else if 32 <= byte && byte <= 126 {
            if self.buffer.len() < MAX_LINE {
                self.buffer.push(byte);
                put_byte(uart, byte, Ghost(start), Ghost(none));
                assert(none.push(byte) =~= seq![byte]);
            }
            None
        } else {
            None
        }
    }

    /// Ends the run of a custom command: reports its error, if it failed,
    /// and writes the prompt.
    pub fn complete<B: RegisterBus>(&self, uart: &mut Uart<B>, outcome: Result<(), &str>)
        ensures
            old(uart).history().is_prefix_of(final(uart).history()),
            transmits(
                since(final(uart).history(), old(uart).history()),
                done_output(self@, outcome),
            ),
    {
        let ghost start = uart.history();
        let ghost none = Seq::<u8>::empty();
        assert(since(start, start) =~= Seq::<Access>::empty());
        match outcome {
            Ok(_) => {
                put(uart, self.prompt, Ghost(start), Ghost(none));
            },
            Err(message) => {
                put(uart, "Error: ", Ghost(start), Ghost(none));
                put(uart, message, Ghost(start), Ghost(none + bytes("Error: ")));
                put_end(uart, Ghost(start), Ghost(none + bytes("Error: ") + bytes(message)));
                let ghost first = line(none + bytes("Error: ") + bytes(message));
                put(uart, self.prompt, Ghost(start), Ghost(first));
                assert(first + bytes(self.prompt) =~= done_output(self@, outcome));
            },
        }
    }

    /// Writes the greeting and the first prompt.
    pub fn start<B: RegisterBus>(&self, uart: &mut Uart<B>)
        ensures
            old(uart).history().is_prefix_of(final(uart).history()),
            transmits(since(final(uart).history(), old(uart).history()), banner(self@)),
    {
        let ghost start = uart.history();
        let ghost none = Seq::<u8>::empty();
        assert(since(start, start) =~= Seq::<Access>::empty());
        put(uart, "SAGE OS Shell", Ghost(start), Ghost(none));
        put_end(uart, Ghost(start), Ghost(none + bytes("SAGE OS Shell")));
        let ghost first = line(none + bytes("SAGE OS Shell"));
        put(uart, "Type 'help' for a list of commands", Ghost(start), Ghost(first));
        put_end(
            uart,
            Ghost(start),
            Ghost(first + bytes("Type 'help' for a list of commands")),
        );
        let ghost second = line(first + bytes("Type 'help' for a list of commands"));
        put(uart, self.prompt, Ghost(start), Ghost(second));
        assert(second + bytes(self.prompt) =~= banner(self@));
    }
}

/// Writes the greeting and the first prompt to the shared console, under
/// one hold of its lock.
pub fn start<B: RegisterBus>(shell: &Shell, console: &SharedUart<B>) {
    let mut guard = lock_acquire(&console.lock);
    let uart = lock_target(&mut guard);
    shell.start(uart);
}

/// Hands the shell one byte that the console received. What the shell
/// writes, it writes to the shared console under one hold of its lock.
pub fn feed<B: RegisterBus>(shell: &mut Shell, console: &SharedUart<B>, byte: u8) -> (request:
    Option<Request>)
    ensures
        final(shell)@ == after_byte(old(shell)@, byte),
        match request {
            Some(r) => byte_request(old(shell)@, byte) == Some((r.id, contents(r.args@))),
            None => byte_request(old(shell)@, byte) is None,
        },
{
    let mut guard = lock_acquire(&console.lock);
    let uart = lock_target(&mut guard);
    shell.handle_byte(uart, byte)
}

/// The call that a request stands for: the `id` of the custom command and
/// what its arguments hold, or none without a request.
pub open spec fn asked(request: Option<Request>) -> Option<(usize, Seq<Seq<u8>>)> {
    match request {
        Some(r) => Some((r.id, contents(r.args@))),
        None => None,
    }
}

/// What one turn makes of the shell, and the call that it hands back, when
/// the console had `received` to give: without a byte the shell stays as it
/// is and there is no call; with a byte both are what that byte makes of the
/// shell.
pub open spec fn turn(shell: ShellState, received: Option<u8>) -> (
    ShellState,
    Option<(usize, Seq<Seq<u8>>)>,
) {
    match received {
        Some(byte) => (after_byte(shell, byte), byte_request(shell, byte)),
        None => (shell, None),
    }
}

/// One turn of the shell: takes a byte from the shared console if there is
/// one, and hands it to the shell. Without a byte nothing happens.
///
/// Whether there is a byte, and which, is for the device to say. Whatever
/// it says, one and the same answer decides both what becomes of the shell
/// and which call is handed back.
pub fn poll<B: RegisterBus>(shell: &mut Shell, console: &SharedUart<B>) -> (request: Option<
    Request,
>)
    ensures
        exists|received: Option<u8>|
            (final(shell)@, asked(request)) == #[trigger] turn(old(shell)@, received),
{
    match receive(console) {
        Some(byte) => {
            let request = feed(shell, console, byte);
            assert((shell@, asked(request)) == turn(old(shell)@, Some(byte)));
            request
        },
        None => {
            assert((shell@, asked(None::<Request>)) == turn(old(shell)@, None::<u8>));
            None
        },
    }
}

/// Ends the run of a custom command on the shared console: reports its
/// error, if it failed, and writes the prompt, under one hold of the lock.
pub fn complete<B: RegisterBus>(shell: &Shell, console: &SharedUart<B>, outcome: Result<(), &str>) {
    let mut guard = lock_acquire(&console.lock);
    let uart = lock_target(&mut guard);
    shell.complete(uart, outcome);
}

/// The typed line is one that a shell can hold: at most `MAX_LINE` bytes,
/// each of them printable.
pub open spec fn typed(buffer: Seq<u8>) -> bool {
    buffer.len() <= MAX_LINE && forall|i: int| 0 <= i < buffer.len() ==> is_printable(#[trigger] buffer[i])
}

/// Whatever bytes the console receives, the typed line stays one that a
/// shell can hold.
pub proof fn lemma_line_stays_typed(shell: ShellState, byte: u8)
    requires
        typed(shell.buffer),
    ensures
        typed(after_byte(shell, byte).buffer),
{
}

/// No word of a line is empty and no word holds a blank.
pub proof fn lemma_words_hold_no_blank(line: Seq<u8>, i: int)
    requires
        0 <= i <= line.len(),
    ensures
        forall|k: int, j: int|
            0 <= k < words_from(line, i).len() && 0 <= j < words_from(line, i)[k].len()
                ==> !is_blank(#[trigger] words_from(line, i)[k][j]),
        forall|k: int| 0 <= k < words_from(line, i).len() ==> (#[trigger] words_from(line, i)[k]).len() > 0,
    decreases line.len() - i,
{
    if i >= line.len() {
        assert(words_from(line, i).len() == 0);
    } else if is_blank(line[i]) {
        lemma_words_hold_no_blank(line, i + 1);
        assert(words_from(line, i) == words_from(line, i + 1));
    } else {
        let end = word_end(line, i);
        lemma_word_end_bounds(line, i);
        lemma_words_hold_no_blank(line, end);
        lemma_word_holds_no_blank(line, i);
        let first = line.subrange(i, end);
        let rest = words_from(line, end);
        assert(words_from(line, i) == seq![first] + rest);
        assert forall|k: int, j: int|
            0 <= k < words_from(line, i).len() && 0 <= j < words_from(line, i)[k].len()
            implies !is_blank(#[trigger] words_from(line, i)[k][j]) by {
            if k == 0 {
                assert(words_from(line, i)[0] == first);
                assert(first[j] == line[i + j]);
            } else {
                assert(words_from(line, i)[k] == rest[k - 1]);
            }
        }
        assert forall|k: int| 0 <= k < words_from(line, i).len() implies (#[trigger] words_from(
            line,
            i,
        )[k]).len() > 0 by {
            if k == 0 {
                assert(words_from(line, i)[0] == first);
            } else {
                assert(words_from(line, i)[k] == rest[k - 1]);
            }
        }
    }
}

/// No byte between the start of a word and its end is blank.
pub proof fn lemma_word_holds_no_blank(line: Seq<u8>, i: int)
    requires
        0 <= i <= line.len(),
    ensures
        forall|j: int| i <= j < word_end(line, i) ==> !is_blank(#[trigger] line[j]),
    decreases line.len() - i,
{
    if i < line.len() && !is_blank(line[i]) {
        lemma_word_holds_no_blank(line, i + 1);
    }
}

} // verus!
