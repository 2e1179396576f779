//! Command lines for an external loop runner: placeholder substitution, argv
//! splitting, the live-tab wrapper that captures the runner's result, and what the
//! user is told about that result.

use vstd::prelude::*;
use vstd::string::*;
use crate::paths::join_path;
use crate::json::{parse_json, Json};
use crate::json;
use crate::mise::remote;
use crate::mise::remote::shell_quote;
use crate::text;
use crate::text::{chars_of, is_ascii_alphanumeric, is_whitespace, prefix_at, same_text};

verus! {

/// Which PR-review action a dispatch stands for. Task builds use the `dev-loop`
/// command and have no action of this kind.
#[derive(Debug, Clone, Copy, PartialEq, Eq, Structural)]
pub enum LoopRunnerAction {
    /// `pr-loop` with the non-merging review loop.
    ReviewOnly,
    /// `pr-loop` with the merge-capable loop.
    ReviewAndMerge,
}

/// The text of the placeholder for `key`.
pub open spec fn placeholder(key: Seq<char>) -> Seq<char> {
    seq!['{'] + key + seq!['}']
}

/// The first pair whose placeholder `t` starts with.
pub open spec fn placeholder_at(
    t: Seq<char>,
    values: Seq<(Seq<char>, Seq<char>)>,
) -> Option<(Seq<char>, Seq<char>)>
    decreases values.len(),
{
    if values.len() == 0 {
        None
    } else if text::has_prefix(t, placeholder(values[0].0)) {
        Some(values[0])
    } else {
        placeholder_at(t, values.skip(1))
    }
}

/// The pair found at the start of `t` is one of `values`, and `t` starts with its placeholder.
pub proof fn lemma_placeholder_at(t: Seq<char>, values: Seq<(Seq<char>, Seq<char>)>)
    ensures
        placeholder_at(t, values) matches Some(pair) ==> text::has_prefix(t, placeholder(pair.0))
            && values.contains(pair),
    decreases values.len(),
{
    if values.len() > 0 {
        lemma_placeholder_at(t, values.skip(1));
        if text::has_prefix(t, placeholder(values[0].0)) {
            assert(values.contains(values[0]));
        } else if let Some(pair) = placeholder_at(t, values.skip(1)) {
            let i = choose|i: int| 0 <= i < values.skip(1).len() && values.skip(1)[i] == pair;
            assert(values[i + 1] == pair);
        }
    }
}

/// `t` with each placeholder of `values` replaced by its value, in one pass from left
/// to right: what a value holds is never read as a placeholder.
pub open spec fn substituted(t: Seq<char>, values: Seq<(Seq<char>, Seq<char>)>) -> Seq<char>
    decreases t.len(),
{
    if t.len() == 0 {
        t
    } else {
        proof {
            lemma_placeholder_at(t, values);
        }
        match placeholder_at(t, values) {
            Some(pair) => pair.1 + substituted(t.skip(pair.0.len() as int + 2), values),
            None => seq![t[0]] + substituted(t.skip(1), values),
        }
    }
}

/// Whether the characters of `t` from `at` on start with the placeholder of `key`.
fn is_placeholder_at(t: &Vec<char>, at: usize, key: &str) -> (r: bool)
    requires
        at <= t@.len(),
    ensures
        r == text::has_prefix(t@.skip(at as int), placeholder(key@)),
        r ==> at + key@.len() + 2 <= t@.len(),
{
    let k = chars_of(key);
    let ghost rest = t@.skip(at as int);
    let ghost whole = placeholder(key@);
    let room: usize = t.len() - at;
    if room < 2 || room - 2 < k.len() {
        return false;
    }
    let close: usize = at + 1 + k.len();
    if t[at] != '{' {
        assert(rest.take(whole.len() as int)[0] != whole[0]);
        return false;
    }
    if t[close] != '}' {
        assert(rest.take(whole.len() as int)[1 + k@.len() as int] != whole[1 + k@.len() as int]);
        return false;
    }
    let inner = prefix_at(t, at + 1, &k);
    proof {
        let part = t@.skip(at + 1).take(k@.len() as int);
        if inner {
            assert(rest.take(whole.len() as int) =~= whole) by {
                assert forall|i: int| 0 <= i < whole.len() implies rest[i] == whole[i] by {
                    if 1 <= i < whole.len() - 1 {
                        assert(part[i - 1] == k@[i - 1]);
                    }
                }
            }
        } else if text::has_prefix(rest, whole) {
            assert(part =~= k@) by {
                assert forall|i: int| 0 <= i < k@.len() implies part[i] == k@[i] by {
                    assert(rest.take(whole.len() as int)[i + 1] == whole[i + 1]);
                }
            }
        }
    }
    inner
}

/// Replace the `{key}` placeholders of a command template by their values. Unknown
/// placeholders are left untouched, and a key that the template lacks is not used.
pub fn substitute_placeholders(template: &str, values: &Vec<(String, String)>) -> (r: String)
    ensures
        r@ == substituted(template@, values.deep_view()),
{
    let t = chars_of(template);
    let ghost model = values.deep_view();
    let mut out = String::new();
    let mut i: usize = 0;
    assert(t@.skip(0) =~= t@);
    while i < t.len()
        invariant
            t@ == template@,
            model == values.deep_view(),
            i <= t@.len(),
            out@ + substituted(t@.skip(i as int), model) == substituted(template@, model),
        decreases t@.len() - i,
    {
        let ghost rest = t@.skip(i as int);
        let ghost before = out@;
        let mut j: usize = 0;
        let mut found = false;
        assert(model.skip(0) =~= model);
        while j < values.len() && !found
            invariant
                i < t@.len(),
                rest == t@.skip(i as int),
                model == values.deep_view(),
                j <= values@.len(),
                !found ==> placeholder_at(rest, model.skip(j as int)) == placeholder_at(rest, model),
                found ==> j < values@.len() && placeholder_at(rest, model) == Some(model[j as int])
                    && i + model[j as int].0.len() + 2 <= t@.len(),
            decreases values@.len() - j + (if found { 0int } else { 1int }),
        {
            assert(model.skip(j as int).skip(1) =~= model.skip(j + 1));
            assert(model[j as int] == (values@[j as int].0@, values@[j as int].1@));
            if is_placeholder_at(&t, i, values[j].0.as_str()) {
                found = true;
            } else {
                j += 1;
            }
        }
        if found {
            out.append(values[j].1.as_str());
            let step: usize = chars_of(values[j].0.as_str()).len() + 2;
            assert(rest.skip(step as int) =~= t@.skip(i + step));
            i += step;
            assert(before + (model[j as int].1 + substituted(t@.skip(i as int), model)) =~= out@
                + substituted(t@.skip(i as int), model));
        } else {
            out.push(t[i]);
            assert(rest.skip(1) =~= t@.skip(i + 1));
            i += 1;
            assert(before + (seq![rest[0]] + substituted(t@.skip(i as int), model)) =~= out@
                + substituted(t@.skip(i as int), model));
        }
    }
    assert(out@ + substituted(t@.skip(i as int), model) =~= out@);
    out
}

/// The quoting that a command line is in at some point of it.
pub enum Quoting {
    Plain,
    Single,
    Double,
    /// Behind a backslash outside quotes.
    Escape,
    /// Behind a backslash inside double quotes.
    DoubleEscape,
}

/// What has been read of a command line: the finished arguments, the one that is being
/// read, whether there is one, and the quoting.
#[verifier::ext_equal]
pub struct SplitState {
    pub argv: Seq<Seq<char>>,
    pub current: Seq<char>,
    pub has_token: bool,
    pub quoting: Quoting,
}

impl SplitState {
    /// Nothing has been read.
    pub open spec fn start() -> SplitState {
        SplitState {
            argv: Seq::empty(),
            current: Seq::empty(),
            has_token: false,
            quoting: Quoting::Plain,
        }
    }

    /// With `more` added to the argument that is being read.
    pub open spec fn with_text(self, more: Seq<char>) -> SplitState {
        SplitState { current: self.current + more, has_token: true, ..self }
    }

    /// With another quoting.
    pub open spec fn in_quoting(self, quoting: Quoting) -> SplitState {
        SplitState { quoting, has_token: true, ..self }
    }

    /// After one more character.
    pub open spec fn read(self, c: char) -> SplitState {
        match self.quoting {
            Quoting::Plain => if text::is_space(c) {
                if self.has_token {
                    SplitState {
                        argv: self.argv.push(self.current),
                        current: Seq::empty(),
                        has_token: false,
                        quoting: Quoting::Plain,
                    }
                } else {
                    self
                }
            } else if c == '\'' {
                self.in_quoting(Quoting::Single)
            } else if c == '"' {
                self.in_quoting(Quoting::Double)
            } else if c == '\\' {
                self.in_quoting(Quoting::Escape)
            } else {
                self.with_text(seq![c])
            },
            Quoting::Single => if c == '\'' {
                self.in_quoting(Quoting::Plain)
            } else {
                self.with_text(seq![c])
            },
            Quoting::Double => if c == '"' {
                self.in_quoting(Quoting::Plain)
            } else if c == '\\' {
                self.in_quoting(Quoting::DoubleEscape)
            } else {
                self.with_text(seq![c])
            },
            Quoting::Escape => self.in_quoting(Quoting::Plain).with_text(seq![c]),
            Quoting::DoubleEscape => if c == '"' || c == '\\' || c == '$' || c == '`' {
                self.in_quoting(Quoting::Double).with_text(seq![c])
            } else {
                self.in_quoting(Quoting::Double).with_text(seq!['\\', c])
            },
        }
    }

    /// After all of `s`.
    pub open spec fn read_all(self, s: Seq<char>) -> SplitState
        decreases s.len(),
    {
        if s.len() == 0 {
            self
        } else {
            self.read_all(s.drop_last()).read(s.last())
        }
    }

    /// All arguments, once the command line has ended here. A backslash that ends the
    /// line inside double quotes stands for itself.
    pub open spec fn finish(self) -> Seq<Seq<char>> {
        let last = if self.quoting is DoubleEscape {
            self.current.push('\\')
        } else {
            self.current
        };
        if self.has_token {
            self.argv.push(last)
        } else {
            self.argv
        }
    }
}

/// The arguments of a command line.
pub open spec fn arguments(command: Seq<char>) -> Seq<Seq<char>> {
    SplitState::start().read_all(command).finish()
}

/// Split a command line into its arguments, honoring single quotes, double quotes and
/// backslash escapes. There is none in an empty or blank command.
pub fn split_command(command: &str) -> (r: Option<Vec<String>>)
    ensures
        r matches Some(argv) ==> argv.deep_view() == arguments(command@),
        r is None <==> arguments(command@).len() == 0,
{
    let chars = chars_of(command);
    let mut argv: Vec<String> = Vec::new();
    let mut current = String::new();
    let mut has_token = false;
    let mut quoting = Quoting::Plain;
    let mut i: usize = 0;
    assert(SplitState::start().read_all(chars@.take(0)) =~= SplitState::start());
    assert(argv.deep_view() =~= Seq::<Seq<char>>::empty());
    while i < chars.len()
        invariant
            chars@ == command@,
            i <= chars@.len(),
            !has_token ==> current@.len() == 0,
            (SplitState { argv: argv.deep_view(), current: current@, has_token, quoting })
                == SplitState::start().read_all(chars@.take(i as int)),
        decreases chars@.len() - i,
    {
        let ghost before = SplitState { argv: argv.deep_view(), current: current@, has_token, quoting };
        let c = chars[i];
        assert(chars@.take(i + 1).drop_last() =~= chars@.take(i as int));
        match quoting {
            Quoting::Plain => {
                if is_whitespace(c) {
                    if has_token {
                        let ghost done = argv.deep_view();
                        argv.push(current);
                        assert(argv.deep_view() =~= done.push(before.current));
                        current = String::new();
                        has_token = false;
                    }
                } else {
                    has_token = true;
                    if c == '\'' {
                        quoting = Quoting::Single;
                    } else if c == '"' {
                        quoting = Quoting::Double;
                    } else if c == '\\' {
                        quoting = Quoting::Escape;
                    } else {
                        current.push(c);
                    }
                }
            },
            Quoting::Single => {
                has_token = true;
                if c == '\'' {
                    quoting = Quoting::Plain;
                } else {
                    current.push(c);
                }
            },
            Quoting::Double => {
                has_token = true;
                if c == '"' {
                    quoting = Quoting::Plain;
                } else if c == '\\' {
                    quoting = Quoting::DoubleEscape;
                } else {
                    current.push(c);
                }
            },
            Quoting::Escape => {
                has_token = true;
                quoting = Quoting::Plain;
                current.push(c);
            },
            Quoting::DoubleEscape => {
                has_token = true;
                quoting = Quoting::Double;
                if c != '"' && c != '\\' && c != '$' && c != '`' {
                    current.push('\\');
                }
                current.push(c);
            },
        }
        i += 1;
        assert((SplitState { argv: argv.deep_view(), current: current@, has_token, quoting })
            =~= before.read(c));
    }
    assert(chars@.take(i as int) =~= chars@);
    if let Quoting::DoubleEscape = quoting {
        current.push('\\');
    }
    if has_token {
        let ghost done = argv.deep_view();
        let ghost last = current@;
        argv.push(current);
        assert(argv.deep_view() =~= done.push(last));
    }
    if argv.len() == 0 {
        assert(argv.deep_view().len() == 0);
        None
    } else {
        Some(argv)
    }
}

/// The values of a `dev-loop` template: each one quoted for the shell.
pub open spec fn dev_values(
    repo: Seq<char>,
    issue: Seq<char>,
    loop_name: Seq<char>,
) -> Seq<(Seq<char>, Seq<char>)> {
    seq![
        ("repo"@, remote::quoted(repo)),
        ("issue"@, remote::quoted(issue)),
        ("loop"@, remote::quoted(loop_name)),
    ]
}

/// The values of a `pr-loop` template: each one quoted for the shell.
pub open spec fn pr_values(
    repo: Seq<char>,
    pr: Seq<char>,
    loop_name: Seq<char>,
) -> Seq<(Seq<char>, Seq<char>)> {
    seq![
        ("repo"@, remote::quoted(repo)),
        ("pr"@, remote::quoted(pr)),
        ("loop"@, remote::quoted(loop_name)),
    ]
}

/// Three named values.
fn three_values(
    a: (&str, String),
    b: (&str, String),
    c: (&str, String),
) -> (r: Vec<(String, String)>)
    ensures
        r.deep_view() == seq![(a.0@, a.1@), (b.0@, b.1@), (c.0@, c.1@)],
{
    let mut values: Vec<(String, String)> = Vec::new();
    values.push((a.0.to_owned(), a.1));
    values.push((b.0.to_owned(), b.1));
    values.push((c.0.to_owned(), c.1));
    assert(values.deep_view() =~= seq![(a.0@, a.1@), (b.0@, b.1@), (c.0@, c.1@)]);
    values
}

/// The `dev-loop` command line of a template.
///
/// The line becomes part of a `bash -lc` script (see [`live_tab_argv`]), so every value
/// is quoted for the shell: whatever a task id or a path holds, it stays one literal.
pub fn dev_command_line(template: &str, repo: &str, issue: &str, loop_name: &str) -> (r: String)
    ensures
        r@ == substituted(template@, dev_values(repo@, issue@, loop_name@)),
{
    let values = three_values(
        ("repo", shell_quote(repo)),
        ("issue", shell_quote(issue)),
        ("loop", shell_quote(loop_name)),
    );
    substitute_placeholders(template, &values)
}

/// The `pr-loop` command line of a template, with every value quoted for the shell as
/// in [`dev_command_line`].
pub fn pr_command_line(template: &str, repo: &str, pr: &str, loop_name: &str) -> (r: String)
    ensures
        r@ == substituted(template@, pr_values(repo@, pr@, loop_name@)),
{
    let values = three_values(
        ("repo", shell_quote(repo)),
        ("pr", shell_quote(pr)),
        ("loop", shell_quote(loop_name)),
    );
    substitute_placeholders(template, &values)
}

/// Whether `c` may stand in an issue id.
pub open spec fn is_id_char(c: char) -> bool {
    text::is_alnum(c) || c == '.' || c == '_' || c == '-'
}

/// Whether a task or issue id may be dispatched: it is not empty and holds ASCII letters
/// and digits, dots, underscores and hyphens only.
pub fn is_safe_issue_id(id: &str) -> (r: bool)
    ensures
        r == (id@.len() > 0 && forall|i: int| 0 <= i < id@.len() ==> is_id_char(#[trigger] id@[i])),
{
    let v = chars_of(id);
    let mut i: usize = 0;
    while i < v.len()
        invariant
            v@ == id@,
            i <= v@.len(),
            forall|k: int| 0 <= k < i ==> is_id_char(#[trigger] id@[k]),
        decreases v@.len() - i,
    {
        let c = v[i];
        if !(is_ascii_alphanumeric(c) || c == '.' || c == '_' || c == '-') {
            assert(!is_id_char(id@[i as int]));
            return false;
        }
        i += 1;
    }
    v.len() > 0
}

/// The loop of a PR action: the non-merging `review_loop` for a review alone, the
/// merge-capable `merge_loop` for a review that may merge.
pub fn pr_loop_name<'a>(
    action: LoopRunnerAction,
    review_loop: &'a str,
    merge_loop: &'a str,
) -> (r: &'a str)
    ensures
        action == LoopRunnerAction::ReviewOnly ==> r == review_loop,
        action == LoopRunnerAction::ReviewAndMerge ==> r == merge_loop,
{
    match action {
        LoopRunnerAction::ReviewOnly => review_loop,
        LoopRunnerAction::ReviewAndMerge => merge_loop,
    }
}

/// `id` with every character but ASCII letters, digits, `-` and `_` turned into `_`.
pub open spec fn sanitized(id: Seq<char>) -> Seq<char> {
    Seq::new(
        id.len(),
        |i: int|
            if text::is_alnum(id[i]) || id[i] == '-' || id[i] == '_' {
                id[i]
            } else {
                '_'
            },
    )
}

/// The name of the result file of a dispatch.
pub open spec fn result_file_name(kind: Seq<char>, id: Seq<char>) -> Seq<char> {
    "taarof-loop-"@ + kind + "-"@ + sanitized(id) + ".json"@
}

/// Path of the JSON result file of a dispatch. `kind` is a short tag (`task` or `pr`),
/// `id` the task or PR; the id is sanitized, so no id leads out of the runtime directory.
pub fn result_file_path(runtime_dir: &str, kind: &str, id: &str) -> (r: String)
    ensures
        r@ == crate::paths::joined_path(runtime_dir@, result_file_name(kind@, id@)),
{
    let v = chars_of(id);
    let mut safe = String::new();
    let mut i: usize = 0;
    while i < v.len()
        invariant
            v@ == id@,
            i <= v@.len(),
            safe@ == sanitized(id@).take(i as int),
        decreases v@.len() - i,
    {
        let c = v[i];
        if is_ascii_alphanumeric(c) || c == '-' || c == '_' {
            safe.push(c);
        } else {
            safe.push('_');
        }
        i += 1;
    }
    let mut name = "taarof-loop-".to_owned();
    name.append(kind);
    name.append("-");
    name.append(safe.as_str());
    name.append(".json");
    assert(safe@ =~= sanitized(id@));
    join_path(runtime_dir, name.as_str())
}

/// The script that runs `command` and keeps what it prints in the file `result`.
pub open spec fn capture_script(command: Seq<char>, result: Seq<char>) -> Seq<char> {
    "rm -f "@ + remote::quoted(result) + " 2>/dev/null; set -o pipefail; "@ + command + " | tee "@
        + remote::quoted(result)
}

/// The arguments of a login shell that runs `script`.
pub open spec fn login_shell(script: Seq<char>) -> Seq<Seq<char>> {
    seq!["bash"@, "-lc"@, script]
}

fn capture_command(command: &str, result_path: &str) -> (r: String)
    ensures
        r@ == capture_script(command@, result_path@),
{
    let result = shell_quote(result_path);
    let mut script = "rm -f ".to_owned();
    script.append(result.as_str());
    script.append(" 2>/dev/null; set -o pipefail; ");
    script.append(command);
    script.append(" | tee ");
    script.append(result.as_str());
    script
}

fn login_shell_argv(script: String) -> (r: Vec<String>)
    ensures
        r.deep_view() == login_shell(script@),
{
    let mut argv: Vec<String> = Vec::new();
    argv.push("bash".to_owned());
    argv.push("-lc".to_owned());
    argv.push(script);
    assert(argv.deep_view() =~= login_shell(script@));
    argv
}

/// Run a command in a tab so that it stays visible while its one-line JSON result is
/// kept in `result_path`. The file is removed first, so the result of an earlier run is
/// not read as this one's, and `pipefail` keeps the exit status of the runner.
pub fn live_tab_argv(command: &str, result_path: &str) -> (r: Vec<String>)
    ensures
        r.deep_view() == login_shell(capture_script(command@, result_path@)),
{
    login_shell_argv(capture_command(command, result_path))
}

/// The script that waits for the file `context`, loads and removes it, and goes on as
/// [`capture_script`] does.
pub open spec fn context_script(
    command: Seq<char>,
    result: Seq<char>,
    context: Seq<char>,
) -> Seq<char> {
    "_taarof_context="@ + remote::quoted(context) + CONTEXT_WAIT@ + capture_script(command, result)
}

/// Between the context's path and the capturing script: wait up to ten seconds for the
/// context file, fail without it, load it, remove it.
pub const CONTEXT_WAIT: &'static str = "; trap 'rm -f -- \"$_taarof_context\"' EXIT; for ((_taarof_wait=0; _taarof_wait<200; _taarof_wait++)); do [ -f \"$_taarof_context\" ] && break; sleep 0.05; done; if [ ! -f \"$_taarof_context\" ]; then echo 'taarof: task reporting context was not supplied' >&2; exit 70; fi; . \"$_taarof_context\"; rm -f -- \"$_taarof_context\"; ";

/// Hold a task-bound runner back until its private reporting context is there. The shell
/// of the pane waits until the dispatcher has written the context file, sources it,
/// removes it, and starts the runner only after that.
pub fn task_bound_live_tab_argv(
    command: &str,
    result_path: &str,
    context_path: &str,
) -> (r: Vec<String>)
    ensures
        r.deep_view() == login_shell(context_script(command@, result_path@, context_path@)),
{
    let mut script = "_taarof_context=".to_owned();
    script.append(shell_quote(context_path).as_str());
    script.append(CONTEXT_WAIT);
    script.append(capture_command(command, result_path).as_str());
    login_shell_argv(script)
}

/// What the user is told about a loop runner's result.
#[derive(Debug, Clone, PartialEq, Eq)]
pub enum LoopRunnerToast {
    Success(String),
    Info(String),
    Error(String),
}

/// The mathematical value of a [`LoopRunnerToast`].
pub enum ToastView {
    Success(Seq<char>),
    Info(Seq<char>),
    Error(Seq<char>),
}

impl DeepView for LoopRunnerToast {
    type V = ToastView;

    open spec fn deep_view(&self) -> ToastView {
        match self {
            LoopRunnerToast::Success(s) => ToastView::Success(s@),
            LoopRunnerToast::Info(s) => ToastView::Info(s@),
            LoopRunnerToast::Error(s) => ToastView::Error(s@),
        }
    }
}

/// The status that a result reports; `unknown` where it reports none.
pub open spec fn reported_status(result: json::JsonTree) -> Seq<char> {
    match result.text_member("status"@) {
        Some(status) => status,
        None => "unknown"@,
    }
}

/// The toast of a `dev-loop` result; there is no result where the output was not JSON.
pub open spec fn dev_toast(result: Option<json::JsonTree>) -> ToastView {
    match result {
        None => ToastView::Error("Loop runner produced no readable result"@),
        Some(value) => {
            let status = reported_status(value);
            if status == "done"@ {
                match value.text_member("pr_url"@) {
                    Some(url) => if url.len() > 0 {
                        ToastView::Success("PR opened: "@ + url)
                    } else {
                        ToastView::Success("Task built (no PR URL reported)"@)
                    },
                    None => ToastView::Success("Task built (no PR URL reported)"@),
                }
            } else {
                ToastView::Error("Loop runner finished with status: "@ + status)
            }
        },
    }
}

/// The toast of a `pr-loop` result; there is no result where the output was not JSON.
pub open spec fn pr_toast(result: Option<json::JsonTree>) -> ToastView {
    match result {
        None => ToastView::Error("Loop runner produced no readable result"@),
        Some(value) => {
            let status = reported_status(value);
            if status == "merged"@ {
                ToastView::Success("PR merged"@)
            } else if status == "reviewed"@ {
                ToastView::Success("Review posted on the PR — not merged"@)
            } else if status == "changes_requested"@ {
                ToastView::Info("Changes requested — comment posted on the PR"@)
            } else if status == "checks_not_green"@ {
                ToastView::Error("Checks not green — PR was not merged"@)
            } else if status == "dry-run"@ {
                ToastView::Info("Dry run complete — no review effects"@)
            } else {
                ToastView::Error("Loop runner finished with status: "@ + status)
            }
        },
    }
}

fn status_of(value: &Json) -> (r: &str)
    ensures
        r@ == reported_status(value.deep_view()),
{
    match value.text("status") {
        Some(status) => status,
        None => "unknown",
    }
}

fn unknown_status(status: &str) -> (r: LoopRunnerToast)
    ensures
        r.deep_view() == ToastView::Error("Loop runner finished with status: "@ + status@),
{
    let mut message = "Loop runner finished with status: ".to_owned();
    message.append(status);
    LoopRunnerToast::Error(message)
}

/// The toast of a parsed `dev-loop` result.
pub fn dev_toast_of(result: &Option<Json>) -> (r: LoopRunnerToast)
    ensures
        r.deep_view() == dev_toast(result.deep_view()),
{
    match result {
        None => LoopRunnerToast::Error("Loop runner produced no readable result".to_owned()),
        Some(value) => {
            let status = status_of(value);
            if same_text(status, "done") {
                if let Some(url) = value.text("pr_url") {
                    if !url.is_empty() {
                        let mut message = "PR opened: ".to_owned();
                        message.append(url);
                        return LoopRunnerToast::Success(message);
                    }
                }
                LoopRunnerToast::Success("Task built (no PR URL reported)".to_owned())
            } else {
                unknown_status(status)
            }
        },
    }
}

/// The toast of a parsed `pr-loop` result.
pub fn pr_toast_of(result: &Option<Json>) -> (r: LoopRunnerToast)
    ensures
        r.deep_view() == pr_toast(result.deep_view()),
{
    match result {
        None => LoopRunnerToast::Error("Loop runner produced no readable result".to_owned()),
        Some(value) => {
            let status = status_of(value);
            if same_text(status, "merged") {
                LoopRunnerToast::Success("PR merged".to_owned())
            } else if same_text(status, "reviewed") {
                LoopRunnerToast::Success("Review posted on the PR — not merged".to_owned())
            } else if same_text(status, "changes_requested") {
                LoopRunnerToast::Info("Changes requested — comment posted on the PR".to_owned())
            } else if same_text(status, "checks_not_green") {
                LoopRunnerToast::Error("Checks not green — PR was not merged".to_owned())
            } else if same_text(status, "dry-run") {
                LoopRunnerToast::Info("Dry run complete — no review effects".to_owned())
            } else {
                unknown_status(status)
            }
        },
    }
}

/// The toast of a `dev-loop` JSON result: a finished task shows its PR, any other status
/// is a failure with that status, and unreadable output is an error.
pub fn dev_result_toast(json: &str) -> (r: LoopRunnerToast)
    ensures
        r.deep_view() == dev_toast(json::parsed_json(json@)),
{
    dev_toast_of(&parse_json(json))
}

/// The toast of a `pr-loop` JSON result: `merged` and `reviewed` succeed,
/// `changes_requested` and `dry-run` are reported, `checks_not_green` and any other status
/// fail.
pub fn pr_result_toast(json: &str) -> (r: LoopRunnerToast)
    ensures
        r.deep_view() == pr_toast(json::parsed_json(json@)),
{
    pr_toast_of(&parse_json(json))
}

/// Reading two texts one after the other is reading them together.
pub proof fn lemma_read_all_concat(state: SplitState, a: Seq<char>, b: Seq<char>)
    ensures
        state.read_all(a + b) == state.read_all(a).read_all(b),
    decreases b.len(),
{
    if b.len() == 0 {
        assert(a + b =~= a);
    } else {
        assert((a + b).drop_last() =~= a + b.drop_last());
        lemma_read_all_concat(state, a, b.drop_last());
    }
}

/// Inside single quotes, escaped text adds exactly what it was made from.
proof fn lemma_escaped_is_literal(state: SplitState, v: Seq<char>)
    requires
        state.quoting is Single,
        state.has_token,
    ensures
        state.read_all(remote::quote_escaped(v)) == state.with_text(v),
    decreases v.len(),
{
    let escaped = remote::quote_escaped(v);
    if v.len() == 0 {
        assert(state.with_text(v) =~= state);
    } else {
        let head = remote::quote_escaped(v.drop_last());
        let after = state.with_text(v.drop_last());
        lemma_escaped_is_literal(state, v.drop_last());
        if v.last() == '\'' {
            let tail = seq!['\'', '\\', '\'', '\''];
            lemma_read_all_concat(state, head, tail);
            assert(tail.drop_last() =~= seq!['\'', '\\', '\'']);
            assert(tail.drop_last().drop_last() =~= seq!['\'', '\\']);
            assert(tail.drop_last().drop_last().drop_last() =~= seq!['\'']);
            assert(tail.drop_last().drop_last().drop_last().drop_last() =~= Seq::empty());
            reveal_with_fuel(SplitState::read_all, 5);
            assert(after.read_all(tail) =~= after.with_text(seq!['\'']));
        } else {
            assert(escaped.drop_last() =~= head);
        }
        assert(after.with_text(seq![v.last()]) =~= state.with_text(v));
    }
}

/// A quoted value outside quotes adds its own characters to the argument that it stands
/// in, and nothing else: it neither ends the argument nor leaves a quote open, whatever
/// it holds.
pub proof fn law_quoted_value_stays_in_its_argument(state: SplitState, v: Seq<char>)
    requires
        state.quoting is Plain,
    ensures
        state.read_all(remote::quoted(v)) == state.with_text(v),
{
    let open = seq!['\''];
    let escaped = remote::quote_escaped(v);
    lemma_read_all_concat(state, open + escaped, seq!['\'']);
    lemma_read_all_concat(state, open, escaped);
    assert(open.drop_last() =~= Seq::empty());
    reveal_with_fuel(SplitState::read_all, 2);
    let inside = state.read_all(open);
    assert(inside =~= state.in_quoting(Quoting::Single));
    lemma_escaped_is_literal(inside, v);
    assert(state.read_all(remote::quoted(v)) =~= state.with_text(v));
}

/// Splitting a quoted text gives that text back as the one argument.
pub proof fn law_split_undoes_quote(v: Seq<char>)
    ensures
        arguments(remote::quoted(v)) == seq![v],
{
    law_quoted_value_stays_in_its_argument(SplitState::start(), v);
    assert(Seq::<char>::empty() + v =~= v);
    assert(arguments(remote::quoted(v)) =~= seq![v]);
}

/// Text before the first brace is taken over as it is.
proof fn lemma_plain_prefix(pre: Seq<char>, t: Seq<char>, values: Seq<(Seq<char>, Seq<char>)>)
    requires
        !pre.contains('{'),
    ensures
        substituted(pre + t, values) == pre + substituted(t, values),
    decreases pre.len(),
{
    let whole = pre + t;
    if pre.len() == 0 {
        assert(whole =~= t);
        assert(pre + substituted(t, values) =~= substituted(t, values));
    } else {
        lemma_placeholder_at(whole, values);
        assert(pre.contains(pre[0]));
        if let Some(pair) = placeholder_at(whole, values) {
            let mark = placeholder(pair.0);
            assert(whole.take(mark.len() as int)[0] == mark[0]);
        }
        assert(whole.skip(1) =~= pre.skip(1) + t);
        assert forall|c: char| pre.skip(1).contains(c) implies pre.contains(c) by {
            let i = choose|i: int| 0 <= i < pre.skip(1).len() && pre.skip(1)[i] == c;
            assert(pre[i + 1] == c);
        }
        lemma_plain_prefix(pre.skip(1), t, values);
        assert(seq![whole[0]] + (pre.skip(1) + substituted(t, values)) =~= pre + substituted(
            t,
            values,
        ));
    }
}

/// Without braces in keys, at most one key has its placeholder at the start of a text.
proof fn lemma_one_key_matches(t: Seq<char>, a: Seq<char>, b: Seq<char>)
    requires
        !a.contains('}'),
        !b.contains('}'),
        text::has_prefix(t, placeholder(a)),
        text::has_prefix(t, placeholder(b)),
    ensures
        a == b,
{
    let pa = placeholder(a);
    let pb = placeholder(b);
    assert forall|i: int| 0 <= i < pa.len() implies t[i] == pa[i] by {
        assert(t.take(pa.len() as int)[i] == pa[i]);
    }
    assert forall|i: int| 0 <= i < pb.len() implies t[i] == pb[i] by {
        assert(t.take(pb.len() as int)[i] == pb[i]);
    }
    if a.len() < b.len() {
        assert(pa[a.len() as int + 1] == '}');
        assert(pb[a.len() as int + 1] == b[a.len() as int]);
        assert(b.contains(b[a.len() as int]));
    }
    if b.len() < a.len() {
        assert(pb[b.len() as int + 1] == '}');
        assert(pa[b.len() as int + 1] == a[b.len() as int]);
        assert(a.contains(a[b.len() as int]));
    }
    assert(a =~= b) by {
        assert forall|i: int| 0 <= i < a.len() implies a[i] == b[i] by {
            assert(pa[i + 1] == a[i]);
            assert(pb[i + 1] == b[i]);
        }
    }
}

/// No key is given twice, and no key holds a closing brace.
pub open spec fn plain_keys(values: Seq<(Seq<char>, Seq<char>)>) -> bool {
    &&& forall|i: int, j: int|
        0 <= i < j < values.len() ==> (#[trigger] values[i]).0 != (#[trigger] values[j]).0
    &&& forall|i: int| 0 <= i < values.len() ==> !(#[trigger] values[i]).0.contains('}')
}

/// A pair whose placeholder starts the text is the pair that is found there.
proof fn lemma_pair_is_found(
    t: Seq<char>,
    values: Seq<(Seq<char>, Seq<char>)>,
    pair: (Seq<char>, Seq<char>),
)
    requires
        plain_keys(values),
        values.contains(pair),
        text::has_prefix(t, placeholder(pair.0)),
    ensures
        placeholder_at(t, values) == Some(pair),
    decreases values.len(),
{
    let i = choose|i: int| 0 <= i < values.len() && values[i] == pair;
    if text::has_prefix(t, placeholder(values[0].0)) {
        lemma_one_key_matches(t, values[0].0, pair.0);
        if i != 0 {
            assert(values[0].0 != values[i].0);
        }
    } else {
        let rest = values.skip(1);
        assert(rest[i - 1] == pair);
        assert forall|a: int, b: int| 0 <= a < b < rest.len() implies (#[trigger] rest[a]).0 != (
        #[trigger] rest[b]).0 by {
            assert(values[a + 1].0 != values[b + 1].0);
        }
        assert forall|a: int| 0 <= a < rest.len() implies !(#[trigger] rest[a]).0.contains('}') by {
            assert(!values[a + 1].0.contains('}'));
        }
        lemma_pair_is_found(t, rest, pair);
    }
}

/// Substitution does not depend on the order in which the values are given.
pub proof fn law_substitution_ignores_order(
    t: Seq<char>,
    a: Seq<(Seq<char>, Seq<char>)>,
    b: Seq<(Seq<char>, Seq<char>)>,
)
    requires
        plain_keys(a),
        plain_keys(b),
        forall|pair: (Seq<char>, Seq<char>)| a.contains(pair) <==> b.contains(pair),
    ensures
        substituted(t, a) == substituted(t, b),
    decreases t.len(),
{
    if t.len() > 0 {
        lemma_placeholder_at(t, a);
        lemma_placeholder_at(t, b);
        if let Some(pair) = placeholder_at(t, a) {
            lemma_pair_is_found(t, b, pair);
            law_substitution_ignores_order(t.skip(pair.0.len() as int + 2), a, b);
        } else if let Some(pair) = placeholder_at(t, b) {
            lemma_pair_is_found(t, a, pair);
        } else {
            law_substitution_ignores_order(t.skip(1), a, b);
        }
    }
}

/// A template in which no placeholder of `values` stands is left as it is.
pub proof fn law_other_text_is_untouched(t: Seq<char>, values: Seq<(Seq<char>, Seq<char>)>)
    requires
        forall|i: int, k: int|
            0 <= i < t.len() && 0 <= k < values.len() ==> !text::has_prefix(
                #[trigger] t.skip(i),
                placeholder((#[trigger] values[k]).0),
            ),
    ensures
        substituted(t, values) == t,
    decreases t.len(),
{
    if t.len() > 0 {
        assert(t.skip(0) =~= t);
        lemma_placeholder_at(t, values);
        if let Some(pair) = placeholder_at(t, values) {
            let k = choose|k: int| 0 <= k < values.len() && values[k] == pair;
            assert(!text::has_prefix(t.skip(0), placeholder(values[k].0)));
        }
        let rest = t.skip(1);
        assert forall|i: int, k: int| 0 <= i < rest.len() && 0 <= k < values.len() implies !text::has_prefix(
            #[trigger] rest.skip(i),
            placeholder((#[trigger] values[k]).0),
        ) by {
            assert(rest.skip(i) =~= t.skip(i + 1));
        }
        law_other_text_is_untouched(rest, values);
        assert(seq![t[0]] + rest =~= t);
    }
}

/// Where a placeholder stands outside the quotes of a template, the command line holds
/// its quoted value there, and the value is part of one argument whatever it holds: the
/// rest of the line is read as if the value had been a plain word.
pub proof fn law_substituted_value_is_inert(
    pre: Seq<char>,
    key: Seq<char>,
    post: Seq<char>,
    values: Seq<(Seq<char>, Seq<char>)>,
    v: Seq<char>,
)
    requires
        plain_keys(values),
        values.contains((key, remote::quoted(v))),
        !pre.contains('{'),
        SplitState::start().read_all(pre).quoting is Plain,
    ensures
        substituted(pre + placeholder(key) + post, values) == pre + remote::quoted(v)
            + substituted(post, values),
        arguments(substituted(pre + placeholder(key) + post, values))
            == SplitState::start().read_all(pre).with_text(v).read_all(
            substituted(post, values),
        ).finish(),
{
    let mark = placeholder(key);
    let rest = mark + post;
    assert(pre + mark + post =~= pre + rest);
    lemma_plain_prefix(pre, rest, values);
    assert(rest.take(mark.len() as int) =~= mark);
    lemma_pair_is_found(rest, values, (key, remote::quoted(v)));
    assert(rest.skip(key.len() as int + 2) =~= post);
    let tail = substituted(post, values);
    assert(pre + (remote::quoted(v) + tail) =~= pre + remote::quoted(v) + tail);
    lemma_read_all_concat(SplitState::start(), pre + remote::quoted(v), tail);
    lemma_read_all_concat(SplitState::start(), pre, remote::quoted(v));
    law_quoted_value_stays_in_its_argument(SplitState::start().read_all(pre), v);
}

/// The values of both templates have plain keys, so the laws of substitution hold of
/// every `dev-loop` and `pr-loop` command line.
pub proof fn law_template_keys_are_plain(a: Seq<char>, b: Seq<char>, c: Seq<char>)
    ensures
        plain_keys(dev_values(a, b, c)),
        plain_keys(pr_values(a, b, c)),
{
    reveal_strlit("repo");
    reveal_strlit("issue");
    reveal_strlit("pr");
    reveal_strlit("loop");
    assert("repo"@.len() == 4 && "issue"@.len() == 5 && "pr"@.len() == 2 && "loop"@.len() == 4);
    assert("repo"@[0] == 'r' && "loop"@[0] == 'l');
}

/// The result file lies directly in the runtime directory: no id adds a separator to its
/// name, so its path is the directory, at most one separator, and the name.
pub proof fn law_result_file_stays_in_the_runtime_dir(
    dir: Seq<char>,
    kind: Seq<char>,
    id: Seq<char>,
)
    requires
        !kind.contains('/'),
    ensures
        !result_file_name(kind, id).contains('/'),
        crate::paths::joined_path(dir, result_file_name(kind, id)) == if dir.len() == 0
            || dir.last() == '/' {
            dir + result_file_name(kind, id)
        } else {
            dir.push('/') + result_file_name(kind, id)
        },
{
    let name = result_file_name(kind, id);
    reveal_strlit("taarof-loop-");
    reveal_strlit("-");
    reveal_strlit(".json");
    let a = "taarof-loop-"@;
    let b = a + kind;
    let c = b + "-"@;
    let d = c + sanitized(id);
    assert forall|i: int| 0 <= i < name.len() implies name[i] != '/' by {
        if i < a.len() {
            assert(name[i] == a[i]);
        } else if i < b.len() {
            assert(name[i] == kind[i - a.len()]);
            assert(kind.contains(kind[i - a.len()]));
        } else if i < c.len() {
            assert(name[i] == "-"@[i - b.len()]);
        } else if i < d.len() {
            assert(name[i] == sanitized(id)[i - c.len()]);
        } else {
            assert(name[i] == ".json"@[i - d.len()]);
        }
    }
    assert(name[0] == a[0]);
}

/// A placeholder is replaced by its value wherever it stands, and by nothing that stands in
/// another value; text around it stays.
pub proof fn law_placeholders_are_replaced(
    key: Seq<char>,
    value: Seq<char>,
    post: Seq<char>,
    c: char,
)
    requires
        !key.contains('}'),
        c != '{',
    ensures
        substituted(seq!['{'] + key + seq!['}'] + post, seq![(key, value)]) == value + substituted(
            post,
            seq![(key, value)],
        ),
        substituted(seq![c] + post, seq![(key, value)]) == seq![c] + substituted(
            post,
            seq![(key, value)],
        ),
        substituted(Seq::empty(), seq![(key, value)]) == Seq::<char>::empty(),
        substituted(post, Seq::empty()) == post,
{
    let values = seq![(key, value)];
    let t = seq!['{'] + key + seq!['}'] + post;
    assert(placeholder(key) =~= seq!['{'] + key + seq!['}']);
    text::law_prefixes_and_parts(placeholder(key), post, Seq::empty());
    assert(t =~= placeholder(key) + post);
    assert(t.skip(key.len() as int + 2) =~= post);
    let u = seq![c] + post;
    assert(u.skip(1) =~= post);
    assert(!text::has_prefix(u, placeholder(key))) by {
        assert(u[0] == c);
        if text::has_prefix(u, placeholder(key)) {
            assert(u.take(placeholder(key).len() as int)[0] == placeholder(key)[0]);
        }
    }
    assert(values.skip(1) =~= Seq::<(Seq<char>, Seq<char>)>::empty());
    assert(placeholder_at(u, values.skip(1)) is None);
    law_other_text_is_untouched(post, Seq::empty());
}

/// The templates know the repository, the task or the pull request, and the name of the
/// loop, each as one quoted word.
pub proof fn law_values_of_templates(a: Seq<char>, b: Seq<char>, c: Seq<char>)
    ensures
        dev_values(a, b, c).contains(("repo"@, remote::quoted(a))),
        dev_values(a, b, c).contains(("issue"@, remote::quoted(b))),
        dev_values(a, b, c).contains(("loop"@, remote::quoted(c))),
        dev_values(a, b, c).len() == 3,
        pr_values(a, b, c).contains(("repo"@, remote::quoted(a))),
        pr_values(a, b, c).contains(("pr"@, remote::quoted(b))),
        pr_values(a, b, c).contains(("loop"@, remote::quoted(c))),
        pr_values(a, b, c).len() == 3,
{
    assert(dev_values(a, b, c)[0] == ("repo"@, remote::quoted(a)));
    assert(dev_values(a, b, c)[1] == ("issue"@, remote::quoted(b)));
    assert(dev_values(a, b, c)[2] == ("loop"@, remote::quoted(c)));
    assert(pr_values(a, b, c)[0] == ("repo"@, remote::quoted(a)));
    assert(pr_values(a, b, c)[1] == ("pr"@, remote::quoted(b)));
    assert(pr_values(a, b, c)[2] == ("loop"@, remote::quoted(c)));
}

/// Plain words are the arguments of a command, split at white space; a blank command has
/// none.
pub proof fn law_words_are_arguments(a: Seq<char>, b: Seq<char>, space: char)
    requires
        a.len() > 0,
        b.len() > 0,
        text::is_space(space),
        forall|i: int|
            0 <= i < a.len() ==> !text::is_space(#[trigger] a[i]) && a[i] != '\'' && a[i] != '"'
                && a[i] != '\\',
        forall|i: int|
            0 <= i < b.len() ==> !text::is_space(#[trigger] b[i]) && b[i] != '\'' && b[i] != '"'
                && b[i] != '\\',
    ensures
        arguments(a) == seq![a],
        arguments(a + seq![space] + b) == seq![a, b],
        arguments(a + seq![space]) == seq![a],
        arguments(seq![space] + a) == seq![a],
        arguments(seq![space]) == Seq::<Seq<char>>::empty(),
        arguments(Seq::empty()) == Seq::<Seq<char>>::empty(),
        arguments(a + remote::quoted(b)) == seq![a + b],
{
    let start = SplitState::start();
    lemma_read_plain(start, a);
    let one = start.read_all(a);
    assert(start.current + a =~= a);
    assert(one.finish() =~= seq![a]);
    lemma_read_all_concat(start, a, seq![space]);
    assert(seq![space].drop_last() =~= Seq::<char>::empty());
    let spaced = one.read_all(seq![space]);
    assert(spaced == one.read(space)) by {
        assert(one.read_all(Seq::<char>::empty()) == one);
    }
    assert(spaced.finish() =~= seq![a]);
    lemma_read_all_concat(start, a + seq![space], b);
    lemma_read_plain(spaced, b);
    assert(spaced.current + b =~= b);
    assert(spaced.read_all(b).finish() =~= seq![a, b]);
    assert(start.read_all(seq![space]) == start) by {
        assert(start.read_all(Seq::<char>::empty()) == start);
    }
    lemma_read_all_concat(start, seq![space], a);
    assert(start.finish() =~= Seq::<Seq<char>>::empty());
    lemma_read_all_concat(start, a, remote::quoted(b));
    law_quoted_value_stays_in_its_argument(one, b);
    assert(one.with_text(b).finish() =~= seq![a + b]);
}

/// Plain characters are added to the argument.
proof fn lemma_read_plain(state: SplitState, s: Seq<char>)
    requires
        state.quoting is Plain,
        s.len() > 0,
        forall|i: int|
            0 <= i < s.len() ==> !text::is_space(#[trigger] s[i]) && s[i] != '\'' && s[i] != '"'
                && s[i] != '\\',
    ensures
        state.read_all(s) == state.with_text(s),
    decreases s.len(),
{
    let rest = s.drop_last();
    let last = s[s.len() - 1];
    if rest.len() > 0 {
        assert forall|i: int| 0 <= i < rest.len() implies !text::is_space(#[trigger] rest[i])
            && rest[i] != '\'' && rest[i] != '"' && rest[i] != '\\' by {
            assert(rest[i] == s[i]);
        }
        lemma_read_plain(state, rest);
        assert(state.current + rest + seq![last] =~= state.current + s);
    } else {
        assert(state.read_all(rest) == state);
        assert(seq![last] =~= s);
    }
}

/// How a command is read: white space ends an argument outside quotes only, single quotes
/// keep everything, double quotes keep all but escapes of themselves, and a backslash keeps
/// the next character.
pub proof fn law_how_commands_are_read(state: SplitState, c: char)
    ensures
        state.quoting is Plain && c == '\'' ==> state.read(c).quoting is Single
            && state.read(c).has_token,
        state.quoting is Plain && c == '"' ==> state.read(c).quoting is Double
            && state.read(c).has_token,
        state.quoting is Plain && c == '\\' ==> state.read(c).quoting is Escape,
        state.quoting is Plain && text::is_space(c) && state.has_token ==> state.read(c).argv
            == state.argv.push(state.current) && !state.read(c).has_token
            && state.read(c).current.len() == 0,
        state.quoting is Plain && text::is_space(c) && !state.has_token ==> state.read(c) == state,
        state.quoting is Single && c == '\'' ==> state.read(c).quoting is Plain
            && state.read(c).current == state.current,
        state.quoting is Single && c != '\'' ==> state.read(c).current == state.current + seq![c]
            && state.read(c).quoting is Single,
        state.quoting is Double && c == '"' ==> state.read(c).quoting is Plain
            && state.read(c).current == state.current,
        state.quoting is Double && c != '"' && c != '\\' ==> state.read(c).current == state.current
            + seq![c] && state.read(c).quoting is Double,
        state.quoting is Double && c == '\\' ==> state.read(c).quoting is DoubleEscape,
        state.quoting is Escape ==> state.read(c).current == state.current + seq![c]
            && state.read(c).quoting is Plain,
        state.quoting is DoubleEscape && (c == '"' || c == '\\' || c == '$' || c == '`')
            ==> state.read(c).current == state.current + seq![c] && state.read(c).quoting is Double,
        state.quoting is DoubleEscape && !(c == '"' || c == '\\' || c == '$' || c == '`')
            ==> state.read(c).current == state.current + seq!['\\', c]
            && state.read(c).quoting is Double,
        !(state.quoting is Plain && text::is_space(c)) ==> state.read(c).argv == state.argv,
{
}

/// An id is safe where it is made of letters, digits, dots, underscores and hyphens; in the
/// name of a file all other characters than letters, digits, hyphens and underscores are
/// replaced.
pub proof fn law_safe_ids(c: char, kind: Seq<char>, id: Seq<char>, i: int)
    ensures
        is_id_char(c) <==> ('0' <= c <= '9' || 'A' <= c <= 'Z' || 'a' <= c <= 'z' || c == '.' || c
            == '_' || c == '-'),
        sanitized(id).len() == id.len(),
        0 <= i < id.len() && ('0' <= id[i] <= '9' || 'A' <= id[i] <= 'Z' || 'a' <= id[i] <= 'z'
            || id[i] == '_' || id[i] == '-') ==> sanitized(id)[i] == id[i],
        0 <= i < id.len() && !('0' <= id[i] <= '9' || 'A' <= id[i] <= 'Z' || 'a' <= id[i] <= 'z'
            || id[i] == '_' || id[i] == '-') ==> sanitized(id)[i] == '_',
        result_file_name(kind, id) == "taarof-loop-"@ + kind + "-"@ + sanitized(id) + ".json"@,
{
}

/// The script of a command: it removes the result of an earlier run, runs the command so that
/// its failure counts, and writes what it prints to the result as well. A task that reports
/// waits for its context first.
pub proof fn law_scripts_of_commands(command: Seq<char>, result: Seq<char>, context: Seq<char>)
    ensures
        capture_script(command, result) == "rm -f "@ + remote::quoted(result)
            + " 2>/dev/null; set -o pipefail; "@ + command + " | tee "@ + remote::quoted(result),
        login_shell(command) == seq!["bash"@, "-lc"@, command],
        context_script(command, result, context) == "_taarof_context="@ + remote::quoted(context)
            + "; trap 'rm -f -- \"$_taarof_context\"' EXIT; for ((_taarof_wait=0; _taarof_wait<200; _taarof_wait++)); do [ -f \"$_taarof_context\" ] && break; sleep 0.05; done; if [ ! -f \"$_taarof_context\" ]; then echo 'taarof: task reporting context was not supplied' >&2; exit 70; fi; . \"$_taarof_context\"; rm -f -- \"$_taarof_context\"; "@
            + capture_script(command, result),
{
}

/// What the user is told of a finished task: the address of the pull request where there is
/// one, and a failure with the status of everything else that is not done.
pub proof fn law_messages_of_tasks(result: json::JsonTree, url: Seq<char>, status: Seq<char>)
    ensures
        dev_toast(None) == ToastView::Error("Loop runner produced no readable result"@),
        result.text_member("status"@) == Some("done"@) && result.text_member("pr_url"@) == Some(url)
            && url.len() > 0 ==> dev_toast(Some(result)) == ToastView::Success(
            "PR opened: "@ + url,
        ),
        result.text_member("status"@) == Some("done"@) && (result.text_member("pr_url"@) is None
            || result.text_member("pr_url"@) == Some(Seq::<char>::empty())) ==> dev_toast(
            Some(result),
        ) == ToastView::Success("Task built (no PR URL reported)"@),
        result.text_member("status"@) == Some(status) && status != "done"@ ==> dev_toast(
            Some(result),
        ) == ToastView::Error("Loop runner finished with status: "@ + status),
        result.text_member("status"@) is None ==> dev_toast(Some(result)) == ToastView::Error(
            "Loop runner finished with status: "@ + "unknown"@,
        ),
{
    reveal_strlit("done");
    reveal_strlit("unknown");
    assert("done"@.len() == 4 && "unknown"@.len() == 7);
}

/// What the user is told of a finished review: a merge and a review succeed, requested
/// changes and a dry run are reported, and everything else fails with its status.
pub proof fn law_messages_of_reviews(result: json::JsonTree, status: Seq<char>)
    ensures
        pr_toast(None) == ToastView::Error("Loop runner produced no readable result"@),
        result.text_member("status"@) == Some("merged"@) ==> pr_toast(Some(result))
            == ToastView::Success("PR merged"@),
        result.text_member("status"@) == Some("reviewed"@) ==> pr_toast(Some(result))
            == ToastView::Success("Review posted on the PR — not merged"@),
        result.text_member("status"@) == Some("changes_requested"@) ==> pr_toast(Some(result))
            == ToastView::Info("Changes requested — comment posted on the PR"@),
        result.text_member("status"@) == Some("checks_not_green"@) ==> pr_toast(Some(result))
            == ToastView::Error("Checks not green — PR was not merged"@),
        result.text_member("status"@) == Some("dry-run"@) ==> pr_toast(Some(result))
            == ToastView::Info("Dry run complete — no review effects"@),
        result.text_member("status"@) == Some(status) && status != "merged"@ && status
            != "reviewed"@ && status != "changes_requested"@ && status != "checks_not_green"@
            && status != "dry-run"@ ==> pr_toast(Some(result)) == ToastView::Error(
            "Loop runner finished with status: "@ + status,
        ),
        result.text_member("status"@) is None ==> pr_toast(Some(result)) == ToastView::Error(
            "Loop runner finished with status: "@ + "unknown"@,
        ),
{
    reveal_strlit("merged");
    reveal_strlit("reviewed");
    reveal_strlit("changes_requested");
    reveal_strlit("checks_not_green");
    reveal_strlit("dry-run");
    reveal_strlit("unknown");
    assert("merged"@.len() == 6 && "reviewed"@.len() == 8 && "changes_requested"@.len() == 17
        && "checks_not_green"@.len() == 16 && "dry-run"@.len() == 7 && "unknown"@.len() == 7);
    assert("dry-run"@[0] == 'd' && "unknown"@[0] == 'u');
}

} // verus!
