//! The command console: a registry of `namespace::name` commands and the
//! execution of free-text command lines against it.
use crate::debug_services::profile::{interval_updated, update_snapshot_interval, ProfileState};
use crate::debug_services::state::DebugState;
use vstd::prelude::*;
use vstd::string::{StrSliceExecFns, StringExecFns};

verus! {

/// Command lines kept in the history; older ones are dropped.
pub const COMMANDS_HISTORY_CAPACITY: usize = 100;

/// An argument of a command line: a decimal number that fits in 64 bits,
/// or any other word as a string.
#[derive(Debug, PartialEq)]
pub enum CommandArgument {
    Number(u64),
    String(String),
}

/// What a registered command does.
#[derive(Debug, Clone, Copy, PartialEq, Eq, Structural)]
pub enum CommandExecutor {
    /// Sets the profiler's snapshot interval to its one numeric argument.
    SetSnapshotInterval,
}

pub struct Command {
    pub namespace: String,
    pub name: String,
    pub executor: CommandExecutor,
}

pub struct CommandRequest {
    pub command: String,
    pub arguments: Vec<CommandArgument>,
}

/// The description of a registered command, for listing.
pub struct CommandRegistryEntry {
    pub namespace: String,
    pub name: String,
    pub args: String,
    pub desc: String,
}

pub struct CommandsState {
    pub history: Vec<String>,
    pub registry: Vec<CommandRegistryEntry>,
    pub index: Vec<Command>,
}

/// Why a command line failed.
#[derive(Debug, Clone, Copy, PartialEq, Eq, Structural)]
pub enum CommandError {
    Empty,
    NotFound,
    BadArgumentsLength,
    ArgumentShouldBeInt,
}

pub open spec fn error_message(e: CommandError) -> Seq<char> {
    match e {
        CommandError::Empty => "Command can't be empty"@,
        CommandError::NotFound => "Command hasn't found"@,
        CommandError::BadArgumentsLength => "bad arguments length"@,
        CommandError::ArgumentShouldBeInt => "Argument should be int"@,
    }
}

impl CommandError {
    /// The human-readable message of this error.
    pub fn message(&self) -> (r: String)
        ensures
            r@ == error_message(*self),
    {
        match self {
            CommandError::Empty => String::from_str("Command can't be empty"),
            CommandError::NotFound => String::from_str("Command hasn't found"),
            CommandError::BadArgumentsLength => String::from_str("bad arguments length"),
            CommandError::ArgumentShouldBeInt => String::from_str("Argument should be int"),
        }
    }
}

impl CommandsState {
    /// The history is within its capacity, and no two commands share a name.
    pub open spec fn wf(&self) -> bool {
        &&& self.history@.len() <= COMMANDS_HISTORY_CAPACITY
        &&& forall|i: int, j: int|
            0 <= i < j < self.index@.len() ==> full_name(#[trigger] self.index@[i]) != full_name(
                #[trigger] self.index@[j],
            )
    }

    pub fn new() -> (r: CommandsState)
        ensures
            r.wf(),
            r.history@.len() == 0,
            r.registry@.len() == 0,
            r.index@.len() == 0,
    {
        CommandsState { history: Vec::new(), registry: Vec::new(), index: Vec::new() }
    }
}

// ---------------------------------------------------------------------------
// Words.
/// The Unicode `White_Space` characters.
pub open spec fn is_white_space(c: char) -> bool {
    ('\u{9}' <= c && c <= '\u{d}') || c == ' ' || c == '\u{85}' || c == '\u{a0}' || c == '\u{1680}'
        || ('\u{2000}' <= c && c <= '\u{200a}') || c == '\u{2028}' || c == '\u{2029}' || c
        == '\u{202f}' || c == '\u{205f}' || c == '\u{3000}'
}

/// Whether `c` is a Unicode `White_Space` character.
pub fn white_space(c: char) -> (r: bool)
    ensures
        r == is_white_space(c),
{
    ('\u{9}' <= c && c <= '\u{d}') || c == ' ' || c == '\u{85}' || c == '\u{a0}' || c == '\u{1680}'
        || ('\u{2000}' <= c && c <= '\u{200a}') || c == '\u{2028}' || c == '\u{2029}' || c
        == '\u{202f}' || c == '\u{205f}' || c == '\u{3000}'
}

/// The maximal runs of non-white-space characters of `s`, in order.
pub open spec fn words(s: Seq<char>) -> Seq<Seq<char>>
    decreases s.len(),
{
    if s.len() == 0 {
        Seq::empty()
    } else {
        let w = words(s.drop_last());
        let c = s.last();
        if is_white_space(c) {
            w
        } else if s.len() >= 2 && !is_white_space(s[s.len() - 2]) {
            w.update(w.len() - 1, w.last().push(c))
        } else {
            w.push(seq![c])
        }
    }
}

pub open spec fn views(v: Seq<String>) -> Seq<Seq<char>> {
    v.map_values(|t: String| t@)
}

proof fn lemma_words_in_word(s: Seq<char>, start: int)
    requires
        0 <= start < s.len(),
        start == 0 || is_white_space(s[start - 1]),
        forall|k: int| start <= k < s.len() ==> !is_white_space(#[trigger] s[k]),
    ensures
        words(s) == words(s.take(start)).push(s.subrange(start, s.len() as int)),
    decreases s.len(),
{
    assert(s.drop_last() =~= s.take(s.len() - 1));
    if s.len() - 1 == start {
        assert(s.take(start) =~= s.drop_last());
        assert(s.subrange(start, s.len() as int) =~= seq![s.last()]);
    } else {
        lemma_words_in_word(s.drop_last(), start);
        assert(s.drop_last().take(start) =~= s.take(start));
        assert(s.drop_last().subrange(start, s.len() - 1).push(s.last()) =~= s.subrange(
            start,
            s.len() as int,
        ));
    }
}

/// Splits `command` at white space into its words.
pub fn split_words(command: &str) -> (r: Vec<String>)
    ensures
        views(r@) == words(command@),
{
    let n = command.unicode_len();
    let mut done: Vec<String> = Vec::new();
    let mut start: usize = 0;
    let mut in_word = false;
    let mut i: usize = 0;
    let ghost s = command@;
    proof {
        assert(s.take(0) =~= Seq::<char>::empty());
        assert(views(done@) =~= Seq::<Seq<char>>::empty());
    }
    while i < n
        invariant
            n == s.len(),
            s == command@,
            i <= n,
            in_word <==> (i > 0 && !is_white_space(s[i - 1])),
            in_word ==> start < i && (start == 0 || is_white_space(s[start - 1])) && forall|k: int|
                start <= k < i ==> !is_white_space(#[trigger] s[k]),
            in_word ==> words(s.take(i as int)) == views(done@).push(s.subrange(start as int, i as int)),
            !in_word ==> words(s.take(i as int)) == views(done@),
        decreases n - i,
    {
        let c = command.get_char(i);
        let ghost t = s.take(i + 1);
        proof {
            assert(t.drop_last() =~= s.take(i as int));
            assert(t.last() == c);
        }
        if white_space(c) {
            if in_word {
                let word = command.substring_char(start, i).to_owned();
                let ghost before = done@;
                done.push(word);
                proof {
                    assert(views(done@) =~= views(before).push(word@));
                }
            }
            in_word = false;
        } else {
            if !in_word {
                start = i;
                proof {
                    assert(s.subrange(i as int, i + 1) =~= seq![c]);
                }
            } else {
                proof {
                    lemma_words_in_word(t, start as int);
                    lemma_words_in_word(s.take(i as int), start as int);
                    assert(t.take(start as int) =~= s.take(i as int).take(start as int));
                    assert(t.subrange(start as int, i + 1) =~= s.subrange(start as int, i + 1));
                    assert(s.take(i as int).subrange(start as int, i as int) =~= s.subrange(start as int, i as int));
                    assert(s.subrange(start as int, i as int).push(c) =~= s.subrange(start as int, i + 1));
                }
            }
            in_word = true;
        }
        i = i + 1;
    }
    proof {
        assert(s.take(n as int) =~= s);
    }
    if in_word {
        let word = command.substring_char(start, n).to_owned();
        let ghost before = done@;
        done.push(word);
        proof {
            assert(views(done@) =~= views(before).push(word@));
        }
    }
    done
}

// ---------------------------------------------------------------------------
// Arguments.
pub open spec fn is_digit(c: char) -> bool {
    '0' <= c && c <= '9'
}

/// The value of a string of decimal digits.
pub open spec fn digits_value(s: Seq<char>) -> int
    decreases s.len(),
{
    if s.len() == 0 {
        0
    } else {
        digits_value(s.drop_last()) * 10 + (s.last() as int - '0' as int)
    }
}

/// `s` is a decimal number that fits in 64 bits.
pub open spec fn is_number(s: Seq<char>) -> bool {
    &&& s.len() > 0
    &&& forall|i: int| 0 <= i < s.len() ==> is_digit(#[trigger] s[i])
    &&& digits_value(s) <= u64::MAX
}

proof fn lemma_digits_value_nonneg(s: Seq<char>)
    requires
        forall|i: int| 0 <= i < s.len() ==> is_digit(#[trigger] s[i]),
    ensures
        digits_value(s) >= 0,
    decreases s.len(),
{
    if s.len() > 0 {
        assert(is_digit(s[s.len() - 1]));
        lemma_digits_value_nonneg(s.drop_last());
    }
}

/// Reads a word as an argument: a number when it is one, text otherwise.
pub fn parse_argument(word: String) -> (r: CommandArgument)
    ensures
        is_number(word@) ==> r == CommandArgument::Number(digits_value(word@) as u64),
        !is_number(word@) ==> r == CommandArgument::String(word),
{
    let n = word.as_str().unicode_len();
    let ghost s = word@;
    let mut value: u64 = 0;
    let mut digits = true;
    let mut fits = true;
    let mut i: usize = 0;
    proof {
        assert(s.take(0) =~= Seq::<char>::empty());
    }
    while i < n
        invariant
            n == s.len(),
            s == word@,
            i <= n,
            digits == forall|k: int| 0 <= k < i ==> is_digit(#[trigger] s[k]),
            digits && fits ==> value == digits_value(s.take(i as int)),
            digits && !fits ==> digits_value(s.take(i as int)) > u64::MAX,
        decreases n - i,
    {
        let c = word.as_str().get_char(i);
        let ghost t = s.take(i + 1);
        proof {
            assert(t.drop_last() =~= s.take(i as int));
            assert(t.last() == c);
        }
        if '0' <= c && c <= '9' {
            if digits && fits {
                let d = (c as u32 - '0' as u32) as u64;
                if value <= (u64::MAX - d) / 10 {
                    value = value * 10 + d;
                } else {
                    fits = false;
                }
            }
        } else {
            digits = false;
            proof {
                assert(!is_digit(s[i as int]));
            }
        }
        i = i + 1;
    }
    proof {
        assert(s.take(n as int) =~= s);
    }
    if n > 0 && digits && fits {
        CommandArgument::Number(value)
    } else {
        CommandArgument::String(word)
    }
}

/// Splits a command line into the command's name and its arguments.
pub fn parse_command(command: &str) -> (r: Result<CommandRequest, CommandError>)
    ensures
        words(command@).len() == 0 ==> r == Err::<CommandRequest, CommandError>(CommandError::Empty),
        words(command@).len() > 0 ==> r is Ok,
        r matches Ok(req) ==> {
            &&& req.command@ == words(command@)[0]
            &&& req.arguments@.len() == words(command@).len() - 1
            &&& forall|i: int|
                #![trigger req.arguments@[i]]
                0 <= i < req.arguments@.len() ==> argument_matches(req.arguments@[i], words(command@)[i + 1])
        },
{
    let mut ws = split_words(command);
    let ghost w = words(command@);
    if ws.len() == 0 {
        return Err(CommandError::Empty);
    }
    let ghost all = ws@;
    let mut arguments: Vec<CommandArgument> = Vec::new();
    let mut i: usize = 1;
    let name = ws[0].clone();
    proof {
        assert(views(all)[0] == all[0]@);
    }
    while i < ws.len()
        invariant
            ws@ == all,
            views(all) == w,
            1 <= i <= all.len(),
            arguments@.len() == i - 1,
            forall|k: int|
                #![trigger arguments@[k]]
                0 <= k < arguments@.len() ==> argument_matches(arguments@[k], w[k + 1]),
        decreases all.len() - i,
    {
        let word = ws[i].clone();
        proof {
            assert(views(all)[i as int] == all[i as int]@);
        }
        let argument = parse_argument(word);
        arguments.push(argument);
        i = i + 1;
    }
    Ok(CommandRequest { command: name, arguments })
}

/// `a` is the argument read from the word `w`.
pub open spec fn argument_matches(a: CommandArgument, w: Seq<char>) -> bool {
    if is_number(w) {
        a == CommandArgument::Number(digits_value(w) as u64)
    } else {
        a is String && a->String_0@ == w
    }
}

// ---------------------------------------------------------------------------
// Registry and execution.
/// The name a command is called by: `namespace::name`.
pub open spec fn full_name(c: Command) -> Seq<char> {
    c.namespace@ + "::"@ + c.name@
}

pub open spec fn is_registered(index: Seq<Command>, name: Seq<char>) -> bool {
    exists|i: int| 0 <= i < index.len() && full_name(#[trigger] index[i]) == name
}

/// What a command line with the words `w` comes to against `index`: the
/// snapshot interval to set, or the error.
pub open spec fn command_result(index: Seq<Command>, w: Seq<Seq<char>>) -> Result<u64, CommandError> {
    if w.len() == 0 {
        Err(CommandError::Empty)
    } else if !is_registered(index, w[0]) {
        Err(CommandError::NotFound)
    } else if w.len() != 2 {
        Err(CommandError::BadArgumentsLength)
    } else if !is_number(w[1]) {
        Err(CommandError::ArgumentShouldBeInt)
    } else {
        Ok(digits_value(w[1]) as u64)
    }
}

/// The history after the command line `c`: the oldest line is dropped
/// when the history is full.
pub open spec fn history_after(h: Seq<Seq<char>>, c: Seq<char>) -> Seq<Seq<char>> {
    if h.len() >= COMMANDS_HISTORY_CAPACITY {
        h.skip(1).push(c)
    } else {
        h.push(c)
    }
}

/// `Ok` when `cond` holds, else the error `msg`.
pub fn require(cond: bool, msg: &str) -> (r: Result<(), String>)
    ensures
        cond <==> r is Ok,
        r matches Err(e) ==> e@ == msg@,
{
    if cond {
        Ok(())
    } else {
        Err(msg.to_owned())
    }
}

/// The index after registering `c`: a command of the same name is
/// replaced, otherwise `c` is appended.
pub open spec fn registered_index(index: Seq<Command>, c: Command) -> Seq<Command> {
    if is_registered(index, full_name(c)) {
        let i = choose|i: int| 0 <= i < index.len() && full_name(#[trigger] index[i]) == full_name(c);
        index.update(i, c)
    } else {
        index.push(c)
    }
}

/// The name `namespace::name` of `c`.
fn command_name(c: &Command) -> (r: String)
    ensures
        r@ == full_name(*c),
{
    let mut full = c.namespace.clone();
    full.append("::");
    full.append(c.name.as_str());
    full
}

/// Registers `command` under `namespace::name`, with a description; a
/// command already registered under that name is replaced.
pub fn register_command(debug_state: &mut DebugState, desc: &str, command: Command)
    requires
        old(debug_state).commands.wf(),
    ensures
        final(debug_state).commands.wf(),
        final(debug_state).profile == old(debug_state).profile,
        final(debug_state).commands.history@ == old(debug_state).commands.history@,
        final(debug_state).commands.index@ == registered_index(old(debug_state).commands.index@, command),
        final(debug_state).commands.registry@.len() == old(debug_state).commands.registry@.len() + 1,
        final(debug_state).commands.registry@.drop_last() == old(debug_state).commands.registry@,
        final(debug_state).commands.registry@.last().namespace == command.namespace,
        final(debug_state).commands.registry@.last().name == command.name,
        final(debug_state).commands.registry@.last().args@ == "<arguments: int>"@,
        final(debug_state).commands.registry@.last().desc@ == desc@,
{
    let entry = CommandRegistryEntry {
        namespace: command.namespace.clone(),
        name: command.name.clone(),
        args: String::from_str("<arguments: int>"),
        desc: desc.to_owned(),
    };
    let ghost registry = debug_state.commands.registry@;
    debug_state.commands.registry.push(entry);
    proof {
        assert(debug_state.commands.registry@.drop_last() =~= registry);
    }
    let name = command_name(&command);
    let ghost index = debug_state.commands.index@;
    let ghost c = command;
    match find_command(&debug_state.commands.index, &name) {
        Some(i) => {
            debug_state.commands.index.set(i, command);
            proof {
                let k = choose|k: int| 0 <= k < index.len() && full_name(#[trigger] index[k]) == full_name(c);
                assert(k == i) by {
                    if k != i {
                        if k < i {
                            assert(full_name(index[k]) != full_name(index[i as int]));
                        } else {
                            assert(full_name(index[i as int]) != full_name(index[k]));
                        }
                    }
                }
                let n = debug_state.commands.index@;
                assert forall|a: int, b: int| 0 <= a < b < n.len() implies full_name(#[trigger] n[a]) != full_name(
                    #[trigger] n[b],
                ) by {
                    assert(full_name(index[a]) != full_name(index[b]));
                }
            }
        },
        None => {
            debug_state.commands.index.push(command);
            proof {
                let n = debug_state.commands.index@;
                assert forall|a: int, b: int| 0 <= a < b < n.len() implies full_name(#[trigger] n[a]) != full_name(
                    #[trigger] n[b],
                ) by {
                    if b < index.len() {
                        assert(full_name(index[a]) != full_name(index[b]));
                    } else {
                        assert(full_name(n[a]) != full_name(c));
                    }
                }
            }
        },
    }
}

/// The position of the command called `name`, if one is registered.
fn find_command(index: &Vec<Command>, name: &String) -> (r: Option<usize>)
    ensures
        r is Some <==> is_registered(index@, name@),
        r matches Some(i) ==> i < index@.len() && full_name(index@[i as int]) == name@,
{
    let mut i: usize = 0;
    while i < index.len()
        invariant
            i <= index@.len(),
            forall|k: int| 0 <= k < i ==> full_name(#[trigger] index@[k]) != name@,
        decreases index@.len() - i,
    {
        let full = command_name(&index[i]);
        if full == *name {
            return Some(i);
        }
        i = i + 1;
    }
    None
}

/// Runs a registered command's executor on `arguments`.
fn run_executor(
    executor: CommandExecutor,
    profile: &mut ProfileState,
    arguments: &Vec<CommandArgument>,
) -> (r: Result<(), CommandError>)
    requires
        old(profile).wf(),
    ensures
        final(profile).wf(),
        arguments@.len() != 1 ==> r == Err::<(), CommandError>(CommandError::BadArgumentsLength),
        arguments@.len() == 1 && arguments@[0] is String ==> r == Err::<(), CommandError>(
            CommandError::ArgumentShouldBeInt,
        ),
        r is Err ==> *final(profile) == *old(profile),
        arguments@.len() == 1 && arguments@[0] is Number ==> r is Ok && interval_updated(
            *final(profile),
            *old(profile),
            arguments@[0]->Number_0 as usize,
        ),
{
    match executor {
        CommandExecutor::SetSnapshotInterval => {
            if arguments.len() != 1 {
                return Err(CommandError::BadArgumentsLength);
            }
            match &arguments[0] {
                CommandArgument::Number(value) => {
                    update_snapshot_interval(profile, *value as usize);
                    Ok(())
                },
                CommandArgument::String(_) => Err(CommandError::ArgumentShouldBeInt),
            }
        },
    }
}

fn push_history(commands: &mut CommandsState, command: &str)
    requires
        old(commands).wf(),
    ensures
        final(commands).wf(),
        views(final(commands).history@) == history_after(views(old(commands).history@), command@),
        final(commands).registry@ == old(commands).registry@,
        final(commands).index@ == old(commands).index@,
{
    let ghost h = commands.history@;
    if commands.history.len() >= COMMANDS_HISTORY_CAPACITY {
        commands.history.remove(0);
        proof {
            assert(commands.history@ =~= h.skip(1));
            assert(views(h.skip(1)) =~= views(h).skip(1));
        }
    }
    let ghost h1 = commands.history@;
    commands.history.push(command.to_owned());
    proof {
        assert(views(commands.history@) =~= views(h1).push(command@));
    }
}

/// Runs the command line `command`: it is added to the history, split into
/// words, and the command named by the first word is run on the others.
/// Returns the error's message when the line is empty, names no registered
/// command, or does not give the command the one number it takes.
pub fn execute_command(debug_state: &mut DebugState, command: &str) -> (r: Result<(), String>)
    requires
        old(debug_state).wf(),
    ensures
        final(debug_state).wf(),
        views(final(debug_state).commands.history@) == history_after(
            views(old(debug_state).commands.history@),
            command@,
        ),
        final(debug_state).commands.registry@ == old(debug_state).commands.registry@,
        final(debug_state).commands.index@ == old(debug_state).commands.index@,
        r is Ok <==> command_result(old(debug_state).commands.index@, words(command@)) is Ok,
        command_result(old(debug_state).commands.index@, words(command@)) matches Err(e) ==> {
            &&& r matches Err(m) && m@ == error_message(e)
            &&& final(debug_state).profile == old(debug_state).profile
        },
        command_result(old(debug_state).commands.index@, words(command@)) matches Ok(n) ==> interval_updated(
            final(debug_state).profile,
            old(debug_state).profile,
            n as usize,
        ),
{
    push_history(&mut debug_state.commands, command);
    let ghost w = words(command@);
    let request = match parse_command(command) {
        Ok(request) => request,
        Err(e) => {
            return Err(e.message());
        },
    };
    let found = find_command(&debug_state.commands.index, &request.command);
    match found {
        None => Err(CommandError::NotFound.message()),
        Some(i) => {
            let executor = debug_state.commands.index[i].executor;
            proof {
                if request.arguments@.len() == 1 {
                    assert(argument_matches(request.arguments@[0], w[0int + 1]));
                }
            }
            match run_executor(executor, &mut debug_state.profile, &request.arguments) {
                Ok(()) => Ok(()),
                Err(e) => Err(e.message()),
            }
        },
    }
}

} // verus!
