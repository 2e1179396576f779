//! Command lines that run on remote hosts over SSH.

use vstd::prelude::*;
use vstd::string::*;
use crate::paths;
use crate::paths::path_file_name;
use crate::text;
use crate::text::{chars_of, join_texts, same_text};

verus! {

/// `s` with each single quote turned into the four characters that close the quotes,
/// add an escaped quote and open them again.
pub open spec fn quote_escaped(s: Seq<char>) -> Seq<char>
    decreases s.len(),
{
    if s.len() == 0 {
        s
    } else if s.last() == '\'' {
        quote_escaped(s.drop_last()) + seq!['\'', '\\', '\'', '\'']
    } else {
        quote_escaped(s.drop_last()).push(s.last())
    }
}

/// `s` as one single-quoted word of a POSIX shell.
pub open spec fn quoted(s: Seq<char>) -> Seq<char> {
    seq!['\''] + quote_escaped(s) + seq!['\'']
}

/// `value` as one single-quoted word of a POSIX shell.
pub fn shell_quote(value: &str) -> (r: String)
    ensures
        r@ == quoted(value@),
{
    let v = chars_of(value);
    let mut out = String::new();
    out.push('\'');
    let mut i: usize = 0;
    while i < v.len()
        invariant
            v@ == value@,
            i <= v@.len(),
            out@ == seq!['\''] + quote_escaped(v@.take(i as int)),
        decreases v@.len() - i,
    {
        assert(v@.take(i + 1).drop_last() =~= v@.take(i as int));
        if v[i] == '\'' {
            out.push('\'');
            out.push('\\');
            out.push('\'');
            out.push('\'');
        } else {
            out.push(v[i]);
        }
        i += 1;
        assert(out@ =~= seq!['\''] + quote_escaped(v@.take(i as int)));
    }
    assert(v@.take(i as int) =~= v@);
    out.push('\'');
    out
}

/// The words, each one quoted, with blanks between them.
pub open spec fn quoted_words(args: Seq<Seq<char>>) -> Seq<char> {
    text::joined(Seq::new(args.len(), |i: int| quoted(args[i])), " "@)
}

fn quote_words(args: &[&str]) -> (r: String)
    ensures
        r@ == quoted_words(args.deep_view()),
{
    let mut words: Vec<String> = Vec::new();
    let mut i: usize = 0;
    while i < args.len()
        invariant
            i <= args@.len(),
            words@.len() == i,
            forall|k: int| 0 <= k < i ==> (#[trigger] words@[k])@ == quoted(args@[k]@),
        decreases args@.len() - i,
    {
        words.push(shell_quote(args[i]));
        i += 1;
    }
    assert(words.deep_view() =~= Seq::new(
        args.deep_view().len(),
        |k: int| quoted(args.deep_view()[k]),
    ));
    join_texts(&words, " ")
}

/// Finds mise on the remote host, in the search path or where it installs itself, and
/// fails as a shell does for a missing command.
pub const FIND_REMOTE_MISE: &'static str = "MISE_BIN=$(command -v mise || true); if [ -z \"$MISE_BIN\" ] && [ -x \"$HOME/.local/bin/mise\" ]; then MISE_BIN=\"$HOME/.local/bin/mise\"; fi; [ -n \"$MISE_BIN\" ] || exit 127; cd ";

/// The shell command that runs mise with `args` in `cwd`, in place of the shell if `exec`.
pub open spec fn mise_command(cwd: Seq<char>, args: Seq<Seq<char>>, exec: bool) -> Seq<char> {
    FIND_REMOTE_MISE@ + quoted(cwd) + " && "@ + (if exec {
        "exec \"$MISE_BIN\""@
    } else {
        "\"$MISE_BIN\""@
    }) + " "@ + quoted_words(args)
}

/// The shell command that runs mise with `args` in `cwd`, in place of the shell if `exec`.
pub fn remote_mise_command(cwd: &str, args: &[&str], exec: bool) -> (r: String)
    ensures
        r@ == mise_command(cwd@, args.deep_view(), exec),
{
    let mut command = FIND_REMOTE_MISE.to_owned();
    command.append(shell_quote(cwd).as_str());
    command.append(" && ");
    if exec {
        command.append("exec \"$MISE_BIN\"");
    } else {
        command.append("\"$MISE_BIN\"");
    }
    command.append(" ");
    command.append(quote_words(args).as_str());
    command
}

/// The shell command that turns into mise with `args` in `cwd`.
pub fn remote_mise_shell_command(cwd: &str, args: &[&str]) -> (r: String)
    ensures
        r@ == mise_command(cwd@, args.deep_view(), true),
{
    remote_mise_command(cwd, args, true)
}

/// The shell command that runs mise with `args` in `cwd` and goes on.
pub fn remote_mise_run_command(cwd: &str, args: &[&str]) -> (r: String)
    ensures
        r@ == mise_command(cwd@, args.deep_view(), false),
{
    remote_mise_command(cwd, args, false)
}

/// The shell command that prints the tool versions of `cwd` as JSON.
pub open spec fn mise_current_command(cwd: Seq<char>) -> Seq<char> {
    FIND_REMOTE_MISE@ + quoted(cwd)
        + " && (\"$MISE_BIN\" current --json 2>/dev/null || \"$MISE_BIN\" ls --current --json)"@
}

/// The shell command that prints the tool versions of `cwd` as JSON.
pub fn remote_mise_current_command(cwd: &str) -> (r: String)
    ensures
        r@ == mise_current_command(cwd@),
{
    let mut command = FIND_REMOTE_MISE.to_owned();
    command.append(shell_quote(cwd).as_str());
    command.append(
        " && (\"$MISE_BIN\" current --json 2>/dev/null || \"$MISE_BIN\" ls --current --json)",
    );
    command
}

/// The shell command that goes to `cwd` and turns into the user's shell.
pub open spec fn respawn_command(cwd: Seq<char>) -> Seq<char> {
    "cd "@ + quoted(cwd)
        + " && if [ -n \"$SHELL\" ] && [ -x \"$SHELL\" ]; then exec \"$SHELL\"; else exec /bin/bash; fi"@
}

/// The shell command that goes to `cwd` and turns into the user's shell.
pub fn remote_shell_respawn_command(cwd: &str) -> (r: String)
    ensures
        r@ == respawn_command(cwd@),
{
    let mut command = "cd ".to_owned();
    command.append(shell_quote(cwd).as_str());
    command.append(
        " && if [ -n \"$SHELL\" ] && [ -x \"$SHELL\" ]; then exec \"$SHELL\"; else exec /bin/bash; fi",
    );
    command
}

/// Whether the arguments start an SSH client that takes a remote command.
pub open spec fn takes_remote_command(argv: Seq<Seq<char>>) -> bool {
    argv.len() > 0 && match paths::file_name(argv[0]) {
        Some(name) => name == "ssh"@ || name == "autossh"@,
        None => false,
    }
}

/// Whether the arguments start an SSH client that takes a remote command.
pub fn ssh_supports_remote_exec(ssh_argv: &Vec<String>) -> (r: bool)
    ensures
        r == takes_remote_command(ssh_argv.deep_view()),
{
    if ssh_argv.len() == 0 {
        return false;
    }
    match path_file_name(ssh_argv[0].as_str()) {
        Some(name) => same_text(name.as_str(), "ssh") || same_text(name.as_str(), "autossh"),
        None => false,
    }
}

/// The flags of SSH, of two characters, whose value is the next argument.
pub open spec fn is_value_flag(arg: Seq<char>) -> bool {
    arg.len() == 2 && arg[0] == '-' && (arg[1] == 'B' || arg[1] == 'b' || arg[1] == 'c' || arg[1]
        == 'D' || arg[1] == 'E' || arg[1] == 'e' || arg[1] == 'F' || arg[1] == 'I' || arg[1] == 'i'
        || arg[1] == 'J' || arg[1] == 'L' || arg[1] == 'l' || arg[1] == 'm' || arg[1] == 'O'
        || arg[1] == 'o' || arg[1] == 'p' || arg[1] == 'Q' || arg[1] == 'R' || arg[1] == 'S'
        || arg[1] == 'W' || arg[1] == 'w')
}

fn takes_value(arg: &str) -> (r: bool)
    ensures
        r == is_value_flag(arg@),
{
    let v = chars_of(arg);
    if v.len() != 2 || v[0] != '-' {
        return false;
    }
    let c = v[1];
    c == 'B' || c == 'b' || c == 'c' || c == 'D' || c == 'E' || c == 'e' || c == 'F' || c == 'I' || c
        == 'i' || c == 'J' || c == 'L' || c == 'l' || c == 'm' || c == 'O' || c == 'o' || c == 'p'
        || c == 'Q' || c == 'R' || c == 'S' || c == 'W' || c == 'w'
}

/// Where the destination stands among the arguments from `i` on: behind the options and
/// their values, or behind `--`. A single hyphen is no option.
pub open spec fn destination_from(argv: Seq<Seq<char>>, i: int) -> Option<int>
    decreases argv.len() - i + 1,
{
    if i < 0 || i >= argv.len() {
        None
    } else {
        let arg = argv[i];
        if arg.len() == 0 || arg[0] != '-' || arg.len() == 1 {
            Some(i)
        } else if arg == "--"@ {
            if i + 1 < argv.len() {
                Some(i + 1)
            } else {
                None
            }
        } else if is_value_flag(arg) {
            destination_from(argv, i + 2)
        } else {
            destination_from(argv, i + 1)
        }
    }
}

/// Where the destination of an SSH command line stands.
pub open spec fn destination(argv: Seq<Seq<char>>) -> Option<int> {
    destination_from(argv, 1)
}

/// Where the destination of an SSH command line stands. The arguments of a running client
/// may go on with a remote command, so the destination need not be the last one.
pub fn ssh_destination_index(argv: &Vec<String>) -> (r: Option<usize>)
    ensures
        r is Some <==> destination(argv.deep_view()) is Some,
        r matches Some(i) ==> destination(argv.deep_view()) == Some(i as int) && 1 <= i < argv@.len(),
{
    let mut i: usize = 1;
    while i < argv.len()
        invariant
            1 <= i,
            destination_from(argv.deep_view(), i as int) == destination(argv.deep_view()),
        decreases argv@.len() - i,
    {
        let arg = argv[i].as_str();
        let v = chars_of(arg);
        assert(argv.deep_view()[i as int] == v@);
        if v.len() == 0 || v[0] != '-' || v.len() == 1 {
            return Some(i);
        }
        if same_text(arg, "--") {
            if i + 1 < argv.len() {
                return Some(i + 1);
            }
            return None;
        }
        if takes_value(arg) {
            if i + 1 >= argv.len() {
                reveal_with_fuel(destination_from, 2);
                return None;
            }
            i += 2;
        } else {
            i += 1;
        }
    }
    None
}

/// The host of a destination: what stands behind the last `@`, trimmed.
pub open spec fn destination_host(argv: Seq<Seq<char>>) -> Option<Seq<char>> {
    match destination(argv) {
        Some(i) => text::filled(text::after_last(text::trimmed(argv[i]), '@')),
        None => None,
    }
}

/// The host that an SSH command line connects to, without the user; none where there is
/// no destination or nothing is left of it.
pub fn ssh_destination_host(argv: &Vec<String>) -> (r: Option<String>)
    ensures
        r.deep_view() == destination_host(argv.deep_view()),
{
    match ssh_destination_index(argv) {
        Some(i) => {
            assert(argv.deep_view()[i as int] == argv@[i as int]@);
            let trimmed = text::trim(argv[i].as_str());
            let host = text::text_after_last(trimmed.as_str(), '@');
            text::trimmed_non_empty(host.as_str())
        },
        None => None,
    }
}

/// Whether one of the arguments settles whether a terminal is allocated.
pub open spec fn settles_tty(args: Seq<Seq<char>>) -> bool {
    exists|i: int|
        0 <= i < args.len() && (#[trigger] args[i] == "-t"@ || args[i] == "-tt"@ || args[i] == "-T"@)
}

/// The SSH command line that connects as `argv` does and runs `command` there: the client,
/// a forced terminal where one is wanted and not settled, the extra options, the options
/// and the destination of `argv`, and the command. What `argv` ran remotely is left out.
pub open spec fn remote_exec(
    argv: Seq<Seq<char>>,
    command: Seq<char>,
    force_tty: bool,
    extra: Seq<Seq<char>>,
) -> Option<Seq<Seq<char>>> {
    if !takes_remote_command(argv) {
        None
    } else {
        match destination(argv) {
            None => None,
            Some(d) => {
                let options = argv.subrange(1, d + 1);
                let tty = if force_tty && !settles_tty(options) {
                    seq!["-tt"@]
                } else {
                    Seq::empty()
                };
                Some(seq![argv[0]] + tty + extra + options + seq![command])
            },
        }
    }
}

/// The SSH command line that connects as `ssh_argv` does and runs `remote_command` there.
pub fn ssh_command_with_remote_exec(
    ssh_argv: &Vec<String>,
    remote_command: String,
    force_tty: bool,
    extra_ssh_args: &[&str],
) -> (r: Option<Vec<String>>)
    ensures
        r.deep_view() == remote_exec(
            ssh_argv.deep_view(),
            remote_command@,
            force_tty,
            extra_ssh_args.deep_view(),
        ),
{
    if !ssh_supports_remote_exec(ssh_argv) {
        return None;
    }
    let last: usize = match ssh_destination_index(ssh_argv) {
        Some(i) => i,
        None => {
            return None;
        },
    };
    let ghost model = ssh_argv.deep_view();
    let ghost options = model.subrange(1, last + 1);
    let mut settled = false;
    let mut i: usize = 1;
    while i <= last
        invariant
            last < ssh_argv.len(),
            1 <= i <= last + 1,
            model == ssh_argv.deep_view(),
            options == model.subrange(1, last + 1),
            settled == settles_tty(options.take(i - 1)),
        decreases last + 1 - i,
    {
        let arg = ssh_argv[i].as_str();
        let settles = same_text(arg, "-t") || same_text(arg, "-tt") || same_text(arg, "-T");
        let ghost seen = options.take(i - 1);
        let ghost next = options.take(i as int);
        proof {
            assert(next =~= seen.push(arg@));
            if settled {
                let k = choose|k: int|
                    0 <= k < seen.len() && (#[trigger] seen[k] == "-t"@ || seen[k] == "-tt"@ || seen[k]
                        == "-T"@);
                assert(next[k] == seen[k]);
            }
            if settles {
                assert(next[i - 1] == arg@);
            }
            if settles_tty(next) && !settles {
                let k = choose|k: int|
                    0 <= k < next.len() && (#[trigger] next[k] == "-t"@ || next[k] == "-tt"@ || next[k]
                        == "-T"@);
                assert(k < seen.len());
                assert(seen[k] == next[k]);
            }
        }
        settled = settled || settles;
        i += 1;
    }
    assert(options.take(i - 1) =~= options);
    let mut argv: Vec<String> = Vec::new();
    argv.push(ssh_argv[0].clone());
    if force_tty && !settled {
        argv.push("-tt".to_owned());
    }
    let ghost tty = if force_tty && !settles_tty(options) {
        seq!["-tt"@]
    } else {
        Seq::<Seq<char>>::empty()
    };
    let ghost start = seq![model[0]] + tty;
    assert(argv.deep_view() =~= start);
    let mut i: usize = 0;
    while i < extra_ssh_args.len()
        invariant
            i <= extra_ssh_args@.len(),
            argv.deep_view() == start + extra_ssh_args.deep_view().take(i as int),
        decreases extra_ssh_args@.len() - i,
    {
        let ghost before = argv.deep_view();
        argv.push(extra_ssh_args[i].to_owned());
        assert(argv.deep_view() =~= before.push(extra_ssh_args@[i as int]@));
        i += 1;
        assert(argv.deep_view() =~= start + extra_ssh_args.deep_view().take(i as int));
    }
    assert(extra_ssh_args.deep_view().take(i as int) =~= extra_ssh_args.deep_view());
    let ghost start = argv.deep_view();
    let mut i: usize = 1;
    while i <= last
        invariant
            last < ssh_argv.len(),
            1 <= i <= last + 1,
            model == ssh_argv.deep_view(),
            options == model.subrange(1, last + 1),
            argv.deep_view() == start + options.take(i - 1),
        decreases last + 1 - i,
    {
        let ghost before = argv.deep_view();
        argv.push(ssh_argv[i].clone());
        assert(argv.deep_view() =~= before.push(model[i as int]));
        i += 1;
        assert(argv.deep_view() =~= start + options.take(i - 1));
    }
    assert(options.take(i - 1) =~= options);
    let ghost before = argv.deep_view();
    let ghost command = remote_command@;
    argv.push(remote_command);
    assert(argv.deep_view() =~= before.push(command));
    assert(argv.deep_view() =~= start + options + seq![command]);
    Some(argv)
}

/// The search for a destination stays within the arguments and reads nothing behind the
/// destination, so the same arguments elsewhere lead to the same place.
proof fn lemma_destination_shifts(a: Seq<Seq<char>>, b: Seq<Seq<char>>, i: int, shift: int)
    requires
        0 <= i,
        0 <= i + shift,
        destination_from(a, i) matches Some(d) && d + shift < b.len() && forall|k: int|
            i <= k <= d ==> #[trigger] a[k] == b[k + shift],
    ensures
        destination_from(a, i)->0 < a.len(),
        i <= destination_from(a, i)->0,
        destination_from(b, i + shift) == Some(destination_from(a, i)->0 + shift),
    decreases a.len() - i + 1,
{
    lemma_destination_in_range(a, i);
    let d = destination_from(a, i)->0;
    let arg = a[i];
    assert(b[i + shift] == arg);
    if arg.len() == 0 || arg[0] != '-' || arg.len() == 1 {
    } else if arg == "--"@ {
    } else if is_value_flag(arg) {
        lemma_destination_in_range(a, i + 2);
        lemma_destination_shifts(a, b, i + 2, shift);
    } else {
        lemma_destination_in_range(a, i + 1);
        lemma_destination_shifts(a, b, i + 1, shift);
    }
}

proof fn lemma_destination_in_range(a: Seq<Seq<char>>, i: int)
    requires
        0 <= i,
    ensures
        destination_from(a, i) matches Some(d) ==> i <= d < a.len(),
    decreases a.len() - i + 1,
{
    if i < a.len() {
        lemma_destination_in_range(a, i + 1);
        lemma_destination_in_range(a, i + 2);
    }
}

/// The extra options that this library passes.
pub open spec fn plain_extra(extra: Seq<Seq<char>>) -> bool {
    ||| extra == Seq::<Seq<char>>::empty()
    ||| extra == seq!["-q"@]
    ||| extra == seq!["-o"@, "BatchMode=yes"@]
}

/// SSH runs the given command and nothing else: in the command line that is built, the
/// destination stands right before the command, and it is the destination of the captured
/// arguments, whatever remote command those ended in.
pub proof fn law_remote_command_follows_the_destination(
    argv: Seq<Seq<char>>,
    command: Seq<char>,
    force_tty: bool,
    extra: Seq<Seq<char>>,
)
    requires
        plain_extra(extra),
    ensures
        remote_exec(argv, command, force_tty, extra) matches Some(line) ==> {
            &&& line.last() == command
            &&& destination(line) == Some(line.len() - 2)
            &&& line[line.len() - 2] == argv[destination(argv)->0]
        },
{
    if let Some(line) = remote_exec(argv, command, force_tty, extra) {
        reveal_strlit("-tt");
        reveal_strlit("-q");
        reveal_strlit("-o");
        reveal_strlit("--");
        let d = destination(argv)->0;
        lemma_destination_in_range(argv, 1);
        let options = argv.subrange(1, d + 1);
        let tty = if force_tty && !settles_tty(options) {
            seq!["-tt"@]
        } else {
            Seq::empty()
        };
        let shift = tty.len() as int + extra.len() as int;
        assert forall|k: int| 1 <= k <= d implies #[trigger] argv[k] == line[k + shift] by {
            assert(options[k - 1] == argv[k]);
        }
        assert("-tt"@ != "--"@ && "-q"@ != "--"@ && "-o"@ != "--"@) by {
            assert("-tt"@.len() == 3 && "--"@.len() == 2);
            assert("-q"@[1] == 'q' && "-o"@[1] == 'o' && "--"@[1] == '-');
        }
        reveal_with_fuel(destination_from, 4);
        if tty.len() == 1 {
            assert(line[1] == "-tt"@);
        }
        if extra.len() == 1 {
            assert(line[1 + tty.len() as int] == "-q"@);
        }
        if extra.len() == 2 {
            assert(line[1 + tty.len() as int] == "-o"@);
        }
        assert(destination_from(line, 1) == destination_from(line, 1 + shift));
        lemma_destination_shifts(argv, line, 1, shift);
        assert(line.len() == d + shift + 2);
    }
}

/// A program called `ssh` takes a remote command.
pub proof fn lemma_ssh_takes_commands(argv: Seq<Seq<char>>)
    requires
        argv.len() > 0,
        argv[0] == "ssh"@,
    ensures
        takes_remote_command(argv),
{
    reveal_strlit("ssh");
    reveal_strlit(".");
    reveal_strlit("..");
    reveal_strlit("/");
    paths::law_components("ssh"@, "ssh"@);
    assert(paths::components("ssh"@).last() == "ssh"@);
}

/// The clients that take a remote command are `ssh` and `autossh`, wherever they are
/// installed, and no others.
pub proof fn law_clients_that_take_commands(dir: Seq<char>, name: Seq<char>, rest: Seq<Seq<char>>)
    requires
        dir.len() > 0,
        dir.last() != '/',
        dir.last() != '.',
        name.len() > 0,
        !name.contains('/'),
        name != "."@,
        name != ".."@,
    ensures
        takes_remote_command(seq![dir + seq!['/'] + name] + rest) <==> name == "ssh"@ || name
            == "autossh"@,
        takes_remote_command(seq![name] + rest) <==> name == "ssh"@ || name == "autossh"@,
        !takes_remote_command(Seq::empty()),
{
    paths::law_names_and_directories(dir, name);
    assert((seq![dir + seq!['/'] + name] + rest)[0] == dir + seq!['/'] + name);
    assert((seq![name] + rest)[0] == name);
}

/// The search for a destination goes by what stands behind.
proof fn lemma_destination_behind(head: Seq<Seq<char>>, rest: Seq<Seq<char>>, i: int)
    requires
        0 <= i,
    ensures
        destination_from(head + rest, head.len() + i) == match destination_from(rest, i) {
            Some(d) => Some(d + head.len() as int),
            None => None,
        },
    decreases rest.len() - i + 1,
{
    if i < rest.len() {
        assert((head + rest)[head.len() + i] == rest[i]);
        lemma_destination_behind(head, rest, i + 1);
        lemma_destination_behind(head, rest, i + 2);
    }
}

/// The flags whose value is the next argument are those of the SSH manual. The value of such
/// a flag is never taken for the destination, and the argument behind any other flag is not
/// passed over.
pub proof fn law_values_of_flags_are_passed_over(
    program: Seq<char>,
    letter: char,
    value: Seq<char>,
    rest: Seq<Seq<char>>,
)
    ensures
        ({
            let flag = seq!['-', letter];
            let takes_value = letter == 'B' || letter == 'b' || letter == 'c' || letter == 'D'
                || letter == 'E' || letter == 'e' || letter == 'F' || letter == 'I' || letter == 'i'
                || letter == 'J' || letter == 'L' || letter == 'l' || letter == 'm' || letter == 'O'
                || letter == 'o' || letter == 'p' || letter == 'Q' || letter == 'R' || letter == 'S'
                || letter == 'W' || letter == 'w';
            let after = destination(seq![program] + rest);
            &&& takes_value ==> destination(seq![program, flag, value] + rest) == match after {
                Some(d) => Some(d + 2),
                None => None,
            }
            &&& !takes_value && letter != '-' ==> destination(seq![program, flag] + rest)
                == match after {
                Some(d) => Some(d + 1),
                None => None,
            }
        }),
{
    reveal_strlit("--");
    let flag = seq!['-', letter];
    let long = seq![program, flag, value] + rest;
    let short = seq![program, flag] + rest;
    let base = seq![program] + rest;
    assert(long[1] == flag && short[1] == flag);
    if letter != '-' {
        assert(flag[1] != "--"@[1]);
        assert(flag != "--"@);
    }
    lemma_destination_behind(seq![program, flag, value], rest, 0);
    lemma_destination_behind(seq![program, flag], rest, 0);
    lemma_destination_behind(seq![program], rest, 0);
}

/// The destination behind one flag with its value.
pub proof fn law_the_destination_follows_a_flag_with_its_value(
    letter: char,
    value: Seq<char>,
    host: Seq<char>,
)
    requires
        letter == 'B' || letter == 'b' || letter == 'c' || letter == 'D' || letter == 'E' || letter
            == 'e' || letter == 'F' || letter == 'I' || letter == 'i' || letter == 'J' || letter
            == 'L' || letter == 'l' || letter == 'm' || letter == 'O' || letter == 'o' || letter
            == 'p' || letter == 'Q' || letter == 'R' || letter == 'S' || letter == 'W' || letter
            == 'w',
        host.len() > 0 ==> host[0] != '-',
    ensures
        destination(seq!["ssh"@, seq!['-', letter], value, host]) == Some(3int),
{
    law_values_of_flags_are_passed_over("ssh"@, letter, value, seq![host]);
    assert(seq!["ssh"@, seq!['-', letter], value] + seq![host] =~= seq![
        "ssh"@,
        seq!['-', letter],
        value,
        host,
    ]);
    law_the_first_plain_argument_is_the_destination("ssh"@, host, Seq::empty());
    assert(seq!["ssh"@] + seq![host] =~= seq!["ssh"@, host] + Seq::<Seq<char>>::empty());
}

/// The first argument that is no option is the destination; behind two hyphens any argument
/// is. Options in one argument, longer than a letter, are passed over alone.
pub proof fn law_the_first_plain_argument_is_the_destination(
    program: Seq<char>,
    arg: Seq<char>,
    rest: Seq<Seq<char>>,
)
    ensures
        arg.len() == 0 || arg[0] != '-' || arg.len() == 1 ==> destination(
            seq![program, arg] + rest,
        ) == Some(1int),
        destination(seq![program, "--"@, arg] + rest) == Some(2int),
        destination(seq![program, "--"@]) is None,
        arg.len() > 2 && arg[0] == '-' ==> destination(seq![program, arg] + rest) == match destination(
            seq![program] + rest,
        ) {
            Some(d) => Some(d + 1),
            None => None,
        },
        destination(seq![program]) is None,
{
    reveal_strlit("--");
    let a = seq![program, arg] + rest;
    assert(a[1] == arg);
    let b = seq![program, "--"@, arg] + rest;
    assert(b[1] == "--"@);
    let c = seq![program, "--"@];
    assert(c[1] == "--"@);
    lemma_destination_behind(seq![program, arg], rest, 0);
    lemma_destination_behind(seq![program], rest, 0);
}

/// The host of a destination is what stands behind the user's name.
pub proof fn law_the_host_of_a_destination(
    user: Seq<char>,
    host: Seq<char>,
    rest: Seq<Seq<char>>,
)
    requires
        host.len() > 0,
        text::trimmed(host) == host,
        !host.contains('@'),
        host[0] != '-',
        user.len() > 0,
        user[0] != '-',
        !text::is_space(user[0]),
        !text::is_space(host.last()),
    ensures
        destination_host(seq!["ssh"@, user + seq!['@'] + host] + rest) == Some(host),
        destination_host(seq!["ssh"@, host] + rest) == Some(host),
{
    let full = user + seq!['@'] + host;
    law_the_first_plain_argument_is_the_destination("ssh"@, full, rest);
    law_the_first_plain_argument_is_the_destination("ssh"@, host, rest);
    assert((seq!["ssh"@, full] + rest)[1] == full);
    assert((seq!["ssh"@, host] + rest)[1] == host);
    text::lemma_trimmed_plain(full);
    text::law_behind_the_last(full, '@');
    let r = text::after_last(full, '@');
    assert(r =~= host) by {
        if r.len() > host.len() {
            assert(r[r.len() - host.len() - 1] == full[user.len() as int]);
            assert(r.contains('@'));
        }
        if r.len() < host.len() {
            assert(full[full.len() - r.len() - 1] == host[host.len() - r.len() - 1]);
            assert(host.contains('@'));
        }
    }
    assert forall|i: int| 0 <= i < host.len() implies host[i] != '@' by {
        assert(!host.contains('@'));
    }
    text::lemma_no_separator(host, '@');
}

/// The command line keeps the program and all arguments up to the destination, in their
/// order, and drops what stood behind it. A terminal is asked for only where the arguments
/// say nothing of one.
pub proof fn law_connections_are_kept(
    argv: Seq<Seq<char>>,
    command: Seq<char>,
    force_tty: bool,
    extra: Seq<Seq<char>>,
)
    requires
        destination(argv) is Some,
        takes_remote_command(argv),
    ensures
        ({
            let d = destination(argv)->0;
            let kept = argv.subrange(1, d + 1);
            let says = exists|i: int|
                1 <= i <= d && (#[trigger] argv[i] == "-t"@ || argv[i] == "-tt"@ || argv[i] == "-T"@);
            &&& remote_exec(argv, command, force_tty, extra) matches Some(line)
            &&& line[0] == argv[0]
            &&& line.last() == command
            &&& line.subrange(line.len() - 1 - kept.len(), line.len() - 1) == kept
            &&& !force_tty || says ==> line == seq![argv[0]] + extra + kept + seq![command]
            &&& force_tty && !says ==> line == seq![argv[0], "-tt"@] + extra + kept + seq![command]
        }),
{
    lemma_destination_in_range(argv, 1);
    let d = destination(argv)->0;
    let kept = argv.subrange(1, d + 1);
    let says = exists|i: int|
        1 <= i <= d && (#[trigger] argv[i] == "-t"@ || argv[i] == "-tt"@ || argv[i] == "-T"@);
    assert(says == settles_tty(kept)) by {
        if says {
            let i = choose|i: int|
                1 <= i <= d && (#[trigger] argv[i] == "-t"@ || argv[i] == "-tt"@ || argv[i]
                    == "-T"@);
            assert(kept[i - 1] == argv[i]);
        }
        if settles_tty(kept) {
            let i = choose|i: int|
                0 <= i < kept.len() && (#[trigger] kept[i] == "-t"@ || kept[i] == "-tt"@ || kept[i]
                    == "-T"@);
            assert(argv[i + 1] == kept[i]);
        }
    }
    let line = remote_exec(argv, command, force_tty, extra)->0;
    assert(line.subrange(line.len() - 1 - kept.len(), line.len() - 1) =~= kept);
    assert(seq![argv[0]] + Seq::<Seq<char>>::empty() + extra =~= seq![argv[0]] + extra);
    assert(seq![argv[0]] + seq!["-tt"@] =~= seq![argv[0], "-tt"@]);
}

/// Without a client that takes commands, or without a destination, there is no command line.
pub proof fn law_no_connection_no_command(
    argv: Seq<Seq<char>>,
    command: Seq<char>,
    force_tty: bool,
    extra: Seq<Seq<char>>,
)
    ensures
        !takes_remote_command(argv) || destination(argv) is None <==> remote_exec(
            argv,
            command,
            force_tty,
            extra,
        ) is None,
{
}

/// A plain connection to a host runs the command there.
pub proof fn law_a_plain_connection(host: Seq<char>, command: Seq<char>, extra: Seq<Seq<char>>)
    requires
        host.len() > 0,
        host[0] != '-',
    ensures
        remote_exec(seq!["ssh"@, host], command, false, extra) == Some(
            seq!["ssh"@] + extra + seq![host, command],
        ),
        remote_exec(seq!["ssh"@, host], command, true, extra) == Some(
            seq!["ssh"@, "-tt"@] + extra + seq![host, command],
        ),
{
    let argv = seq!["ssh"@, host];
    lemma_ssh_takes_commands(argv);
    law_the_first_plain_argument_is_the_destination("ssh"@, host, Seq::empty());
    assert(seq!["ssh"@, host] + Seq::<Seq<char>>::empty() =~= argv);
    law_connections_are_kept(argv, command, false, extra);
    law_connections_are_kept(argv, command, true, extra);
    assert(argv.subrange(1, 2) =~= seq![host]);
    reveal_strlit("-t");
    reveal_strlit("-tt");
    reveal_strlit("-T");
    assert(argv[1][0] != '-');
    assert(seq!["ssh"@] + extra + seq![host] + seq![command] =~= seq!["ssh"@] + extra + seq![
        host,
        command,
    ]);
    assert(seq!["ssh"@, "-tt"@] + extra + seq![host] + seq![command] =~= seq!["ssh"@, "-tt"@]
        + extra + seq![host, command]);
}

/// The commands that run on a host: they go to the directory first, which is quoted, and so
/// are their words.
pub proof fn law_commands_go_to_the_directory(cwd: Seq<char>, word: Seq<char>, more: Seq<char>)
    ensures
        ({
            let find = "MISE_BIN=$(command -v mise || true); if [ -z \"$MISE_BIN\" ] && [ -x \"$HOME/.local/bin/mise\" ]; then MISE_BIN=\"$HOME/.local/bin/mise\"; fi; [ -n \"$MISE_BIN\" ] || exit 127; cd "@;
            &&& mise_command(cwd, seq![word, more], true) == find + quoted(cwd) + " && "@
                + "exec \"$MISE_BIN\""@ + " "@ + (quoted(word) + " "@ + quoted(more))
            &&& mise_command(cwd, seq![word, more], false) == find + quoted(cwd) + " && "@
                + "\"$MISE_BIN\""@ + " "@ + (quoted(word) + " "@ + quoted(more))
            &&& mise_current_command(cwd) == find + quoted(cwd)
                + " && (\"$MISE_BIN\" current --json 2>/dev/null || \"$MISE_BIN\" ls --current --json)"@
            &&& respawn_command(cwd) == "cd "@ + quoted(cwd)
                + " && if [ -n \"$SHELL\" ] && [ -x \"$SHELL\" ]; then exec \"$SHELL\"; else exec /bin/bash; fi"@
        }),
{
    let args = seq![word, more];
    let words = Seq::new(args.len(), |i: int| quoted(args[i]));
    assert(words =~= seq![quoted(word)].push(quoted(more)));
    text::law_joining(seq![quoted(word)], quoted(more), " "@);
    text::law_joining(Seq::empty(), quoted(word), " "@);
}

/// A word is quoted with single quotes around it; text without quotes stands in them as it
/// is, and each quote in it is closed, escaped and opened again.
pub proof fn law_quoting(s: Seq<char>, t: Seq<char>)
    requires
        !s.contains('\''),
    ensures
        quoted(s) == seq!['\''] + s + seq!['\''],
        quoted(s.push('\'')) == seq!['\''] + s + seq!['\'', '\\', '\'', '\''] + seq!['\''],
        quote_escaped(t + s) == quote_escaped(t) + s,
{
    lemma_escape_plain(t, s);
    lemma_escape_plain(Seq::empty(), s);
    assert(Seq::<char>::empty() + s =~= s);
    assert(s.push('\'').drop_last() =~= s);
    assert(seq!['\''] + (s + seq!['\'', '\\', '\'', '\'']) + seq!['\''] =~= seq!['\''] + s + seq![
        '\'',
        '\\',
        '\'',
        '\'',
    ] + seq!['\'']);
}

/// Text without quotes is escaped as itself.
proof fn lemma_escape_plain(t: Seq<char>, s: Seq<char>)
    requires
        !s.contains('\''),
    ensures
        quote_escaped(t + s) == quote_escaped(t) + s,
    decreases s.len(),
{
    if s.len() == 0 {
        assert(t + s =~= t);
        assert(quote_escaped(t) + s =~= quote_escaped(t));
    } else {
        let rest = s.drop_last();
        assert(!rest.contains('\'')) by {
            if rest.contains('\'') {
                let i = choose|i: int| 0 <= i < rest.len() && rest[i] == '\'';
                assert(s[i] == '\'');
            }
        }
        lemma_escape_plain(t, rest);
        assert((t + s).drop_last() =~= t + rest);
        assert(s[s.len() - 1] != '\'');
        assert(quote_escaped(t + s) =~= quote_escaped(t) + s);
    }
}

} // verus!
