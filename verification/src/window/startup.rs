//! What is decided before the window is there: the arguments, the environment and the
//! builds that have to match.

use vstd::prelude::*;
use vstd::string::*;
use crate::json;
use crate::json::{parse_json_bytes, Json, JsonTree};
use crate::paths;
use crate::paths::{join_path, parent_path, same_path};
use crate::text;
use crate::text::{chars_of, same_optional_text, same_text, split_text};

verus! {

/// A list with commas in place of all separators that GDK accepts.
pub open spec fn with_commas(list: Seq<char>) -> Seq<char> {
    list.map_values(
        |c: char|
            if c == ':' || c == ';' || c == ' ' || c == '\t' {
                ','
            } else {
                c
            },
    )
}

/// Whether the list of switched-off protocols names the one for presentation feedback.
pub open spec fn names_presentation(list: Seq<char>) -> bool {
    text::split_on(with_commas(list), ',').contains("wp_presentation"@)
}

/// The list of Wayland protocols that GDK is told to leave alone, with the one for
/// presentation feedback; nothing where it is there already. The parts of the list may be
/// separated by a colon, a semicolon, a comma, a space or a tab.
pub fn gdk_wayland_disable_with_presentation(existing: &str) -> (r: Option<String>)
    ensures
        r.deep_view() == if names_presentation(existing@) {
            None
        } else if existing@.len() == 0 {
            Some("wp_presentation"@)
        } else {
            Some(existing@ + ",wp_presentation"@)
        },
{
    let chars = chars_of(existing);
    let mut list = String::new();
    let mut i: usize = 0;
    assert(list@ =~= with_commas(chars@).take(0));
    while i < chars.len()
        invariant
            chars@ == existing@,
            i <= chars.len(),
            list@ == with_commas(chars@).take(i as int),
        decreases chars.len() - i,
    {
        let c = chars[i];
        let ghost before = list@;
        if c == ':' || c == ';' || c == ' ' || c == '\t' {
            list.push(',');
        } else {
            list.push(c);
        }
        assert(list@ =~= before.push(with_commas(chars@)[i as int]));
        assert(list@ =~= with_commas(chars@).take(i + 1));
        i += 1;
    }
    assert(with_commas(chars@).take(i as int) =~= with_commas(chars@));
    let tokens = split_text(list.as_str(), ',');
    let ghost all = tokens.deep_view();
    let mut k: usize = 0;
    while k < tokens.len()
        invariant
            all == tokens.deep_view(),
            all == text::split_on(with_commas(existing@), ','),
            k <= tokens.len(),
            forall|j: int| 0 <= j < k ==> all[j] != "wp_presentation"@,
        decreases tokens.len() - k,
    {
        assert(all[k as int] == tokens[k as int]@);
        if same_text(tokens[k].as_str(), "wp_presentation") {
            assert(all.contains("wp_presentation"@));
            return None;
        }
        k += 1;
    }
    assert(!all.contains("wp_presentation"@));
    if existing.is_empty() {
        Some("wp_presentation".to_owned())
    } else {
        let mut r = existing.to_owned();
        r.append(",wp_presentation");
        Some(r)
    }
}

/// The source that a program was built from.
#[derive(Clone, Debug, PartialEq, Eq)]
pub struct BuildIdentity {
    pub source_revision: Option<String>,
    /// Whether the source had changes beyond the revision.
    pub source_dirty: Option<bool>,
    pub build_id: Option<String>,
}

/// The mathematical value of a [`BuildIdentity`].
pub struct BuildView {
    pub source_revision: Option<Seq<char>>,
    pub source_dirty: Option<bool>,
    pub build_id: Option<Seq<char>>,
}

impl DeepView for BuildIdentity {
    type V = BuildView;

    open spec fn deep_view(&self) -> BuildView {
        BuildView {
            source_revision: self.source_revision.deep_view(),
            source_dirty: self.source_dirty,
            build_id: self.build_id.deep_view(),
        }
    }
}

/// Whether both flags are the same.
fn same_flag(a: Option<bool>, b: Option<bool>) -> (r: bool)
    ensures
        r == (a == b),
{
    match (a, b) {
        (Some(a), Some(b)) => a == b,
        (None, None) => true,
        _ => false,
    }
}

/// Whether a launcher's identity is that of the program: the same known revision, and the
/// same known state of the source.
pub open spec fn launcher_matches(launcher: JsonTree, app: BuildView) -> bool {
    &&& app.source_revision is Some
    &&& app.source_revision == launcher.text_member("source_revision"@)
    &&& app.source_dirty is Some
    &&& app.source_dirty == launcher.flag_member("source_dirty"@)
}

/// Checks a launcher's identity, given what its output parsed to.
pub fn check_launcher_identity(launcher: &Option<Json>, app: &BuildIdentity) -> (r: Result<
    (),
    &'static str,
>)
    ensures
        r is Ok <==> (launcher.deep_view() matches Some(tree) && launcher_matches(
            tree,
            app.deep_view(),
        )),
        r matches Err(message) ==> message@ == match launcher.deep_view() {
            None => "the channel-matched agent launcher identity is malformed"@,
            Some(_) => "the agent launcher does not match the running app build"@,
        },
{
    let launcher = match launcher {
        Some(launcher) => launcher,
        None => {
            return Err("the channel-matched agent launcher identity is malformed");
        },
    };
    let same_revision = match (&app.source_revision, launcher.text("source_revision")) {
        (Some(own), Some(other)) => same_text(own.as_str(), other),
        _ => false,
    };
    let same_state = match (app.source_dirty, launcher.flag("source_dirty")) {
        (Some(own), Some(other)) => own == other,
        _ => false,
    };
    if same_revision && same_state {
        Ok(())
    } else {
        Err("the agent launcher does not match the running app build")
    }
}

/// Checks that a launcher was built from the same source as the program. `output` is what
/// the launcher wrote about its build; none where it failed.
pub fn validate_agent_launcher_identity(output: &Option<Vec<u8>>, app: &BuildIdentity) -> (r: Result<
    (),
    &'static str,
>)
    ensures
        match *output {
            None => r matches Err(message) && message@
                == "the channel-matched agent launcher identity is unreadable"@,
            Some(bytes) => {
                let parsed = json::parsed_json_bytes(bytes@);
                &&& r is Ok <==> (parsed matches Some(tree) && launcher_matches(
                    tree,
                    app.deep_view(),
                ))
                &&& r matches Err(message) ==> message@ == match parsed {
                    None => "the channel-matched agent launcher identity is malformed"@,
                    Some(_) => "the agent launcher does not match the running app build"@,
                }
            },
        },
{
    match output {
        None => Err("the channel-matched agent launcher identity is unreadable"),
        Some(bytes) => {
            let parsed = parse_json_bytes(bytes.as_slice());
            check_launcher_identity(&parsed, app)
        },
    }
}

/// Checks that the helper that resumes a conversation is of the same build as the program
/// that started it.
pub fn validate_resume_helper_identity(actual: &BuildIdentity, expected: &BuildIdentity) -> (r:
    Result<(), &'static str>)
    ensures
        r is Ok <==> actual.deep_view() == expected.deep_view(),
        r matches Err(message) ==> message@
            == "the resume helper does not match the parent app build"@,
{
    if same_optional_text(&actual.source_revision, &expected.source_revision) && same_flag(
        actual.source_dirty,
        expected.source_dirty,
    ) && same_optional_text(&actual.build_id, &expected.build_id) {
        Ok(())
    } else {
        Err("the resume helper does not match the parent app build")
    }
}

/// Whether the program is only asked for its build.
pub fn wants_build_info(args: &[String]) -> (r: bool)
    ensures
        r == (args@.len() == 1 && args@[0]@ == "--build-info"@),
{
    args.len() == 1 && same_text(args[0].as_str(), "--build-info")
}

/// What the arguments ask of the helper that resumes conversations.
pub enum ResumeRequest {
    /// The program is not started as that helper.
    NotAsked,
    /// The arguments are wrong.
    Refused { message: &'static str },
    /// The argument that names the conversation.
    Handoff { text: String },
}

/// What the arguments ask of the helper that resumes conversations.
pub fn resume_request(args: &[String]) -> (r: ResumeRequest)
    ensures
        ({
            let asked = args@.len() > 0 && args@[0]@ == "--resume-saved-agent"@;
            &&& r is NotAsked <==> !asked
            &&& r is Handoff <==> asked && args@.len() == 2
            &&& (r matches ResumeRequest::Handoff { text } ==> text@ == args@[1]@)
            &&& (r matches ResumeRequest::Refused { message } ==> message@
                == "exact provider session identity is missing"@)
        }),
{
    if args.len() == 0 || !same_text(args[0].as_str(), "--resume-saved-agent") {
        return ResumeRequest::NotAsked;
    }
    if args.len() != 2 {
        return ResumeRequest::Refused { message: "exact provider session identity is missing" };
    }
    ResumeRequest::Handoff { text: args[1].clone() }
}

/// The conversation to resume, and the build that asks for it.
#[derive(Clone, Debug, PartialEq, Eq)]
pub struct SavedAgentResumeHandoff {
    pub provider_id: String,
    pub host_identity: String,
    pub session_id: String,
    pub expected_app_build: BuildIdentity,
}

/// The mathematical value of a [`SavedAgentResumeHandoff`].
pub struct HandoffView {
    pub provider_id: Seq<char>,
    pub host_identity: Seq<char>,
    pub session_id: Seq<char>,
    pub expected_app_build: BuildView,
}

impl DeepView for SavedAgentResumeHandoff {
    type V = HandoffView;

    open spec fn deep_view(&self) -> HandoffView {
        HandoffView {
            provider_id: self.provider_id@,
            host_identity: self.host_identity@,
            session_id: self.session_id@,
            expected_app_build: self.expected_app_build.deep_view(),
        }
    }
}

/// Whether a conversation is named in full.
pub open spec fn is_complete(handoff: HandoffView) -> bool {
    handoff.provider_id.len() > 0 && handoff.host_identity.len() > 0 && handoff.session_id.len() > 0
}

/// Whether a handed-over conversation can be resumed. There is none where the text that was
/// handed over could not be read as one.
pub fn check_resume_handoff(handed: Option<SavedAgentResumeHandoff>) -> (r: Result<
    SavedAgentResumeHandoff,
    &'static str,
>)
    ensures
        r == match handed {
            None => Err("exact provider session identity is malformed"),
            Some(handoff) => if is_complete(handoff.deep_view()) {
                Ok(handoff)
            } else {
                Err("exact provider session identity is incomplete")
            },
        },
{
    match handed {
        None => Err("exact provider session identity is malformed"),
        Some(handoff) => {
            if handoff.provider_id.as_str().is_empty() || handoff.host_identity.as_str().is_empty()
                || handoff.session_id.as_str().is_empty() {
                Err("exact provider session identity is incomplete")
            } else {
                Ok(handoff)
            }
        },
    }
}

/// What is written where a conversation cannot be resumed.
pub fn resume_unavailable(message: &str) -> (r: String)
    ensures
        r@ == "taarof: Resume agent conversation unavailable: "@ + message@,
{
    let mut r = "taarof: Resume agent conversation unavailable: ".to_owned();
    r.append(message);
    r
}

/// The launcher beside a program.
pub open spec fn launcher_beside(program: Option<Seq<char>>) -> Seq<Seq<char>> {
    match program {
        Some(path) => match paths::parent(path) {
            Some(dir) => seq![paths::joined_path(dir, "agent"@)],
            None => Seq::empty(),
        },
        None => Seq::empty(),
    }
}

/// A list of paths without those that repeat the one before them.
pub open spec fn without_repeats(items: Seq<Seq<char>>) -> Seq<Seq<char>>
    decreases items.len(),
{
    if items.len() < 2 {
        items
    } else {
        let before = without_repeats(items.drop_last());
        if paths::is_same_path(before.last(), items.last()) {
            before
        } else {
            before.push(items.last())
        }
    }
}

/// Where the launcher may be.
pub open spec fn launcher_places(
    agent_binary: Option<Seq<char>>,
    installed_binary: Option<Seq<char>>,
    current_exe: Option<Seq<char>>,
) -> Seq<Seq<char>> {
    without_repeats(
        match agent_binary {
            Some(path) => seq![path],
            None => Seq::empty(),
        } + launcher_beside(installed_binary) + launcher_beside(current_exe),
    )
}

/// A list that is not empty stays so without its repeats.
proof fn lemma_without_repeats_len(items: Seq<Seq<char>>)
    requires
        items.len() > 0,
    ensures
        without_repeats(items).len() > 0,
    decreases items.len(),
{
    if items.len() >= 2 {
        lemma_without_repeats_len(items.drop_last());
    }
}

/// Appends a path unless it repeats the last one.
fn push_new(paths: &mut Vec<String>, path: String, Ghost(items): Ghost<Seq<Seq<char>>>)
    requires
        old(paths).deep_view() == without_repeats(items),
    ensures
        final(paths).deep_view() == without_repeats(items.push(path@)),
{
    let ghost more = items.push(path@);
    assert(more.drop_last() =~= items);
    let ghost before = paths.deep_view();
    if items_is_empty(paths) {
        proof {
            if items.len() > 0 {
                lemma_without_repeats_len(items);
            }
        }
        paths.push(path);
        assert(paths.deep_view() =~= more);
        return ;
    }
    proof {
        if items.len() == 0 {
            assert(without_repeats(items).len() == 0);
        }
        lemma_without_repeats_len(items);
    }
    let last: usize = paths.len() - 1;
    assert(before.last() == paths[last as int]@);
    if !same_path(paths[last].as_str(), path.as_str()) {
        paths.push(path);
        assert(paths.deep_view() =~= before.push(more.last()));
    }
}

/// Whether the list is empty.
fn items_is_empty(paths: &Vec<String>) -> (r: bool)
    ensures
        r == (paths.deep_view().len() == 0),
{
    paths.len() == 0
}

/// The launcher beside a program.
fn beside(program: &Option<String>) -> (r: Option<String>)
    ensures
        launcher_beside(program.deep_view()) == match r.deep_view() {
            Some(path) => seq![path],
            None => Seq::empty(),
        },
{
    match program {
        Some(path) => match parent_path(path.as_str()) {
            Some(dir) => Some(join_path(dir.as_str(), "agent")),
            None => None,
        },
        None => None,
    }
}

/// Where the launcher may be: where the environment says, beside the installed program,
/// and beside the running one.
pub fn agent_launcher_candidates(
    agent_binary: &Option<String>,
    installed_binary: &Option<String>,
    current_exe: &Option<String>,
) -> (r: Vec<String>)
    ensures
        r.deep_view() == launcher_places(
            agent_binary.deep_view(),
            installed_binary.deep_view(),
            current_exe.deep_view(),
        ),
{
    let ghost none = Seq::<Seq<char>>::empty();
    let mut r: Vec<String> = Vec::new();
    assert(r.deep_view() =~= without_repeats(none));
    let ghost first = match agent_binary.deep_view() {
        Some(path) => seq![path],
        None => Seq::empty(),
    };
    if let Some(path) = agent_binary {
        push_new(&mut r, path.clone(), Ghost(none));
        assert(none.push(path@) =~= first);
    }
    let ghost second = first + launcher_beside(installed_binary.deep_view());
    match beside(installed_binary) {
        Some(path) => {
            let ghost shown = path@;
            push_new(&mut r, path, Ghost(first));
            assert(first.push(shown) =~= second);
        },
        None => {
            assert(first =~= second);
        },
    }
    let ghost third = second + launcher_beside(current_exe.deep_view());
    match beside(current_exe) {
        Some(path) => {
            let ghost shown = path@;
            push_new(&mut r, path, Ghost(second));
            assert(second.push(shown) =~= third);
        },
        None => {
            assert(second =~= third);
        },
    }
    r
}

/// The first place that is absolute and holds a program.
pub open spec fn first_usable(places: Seq<Seq<char>>, executable: Seq<bool>) -> Option<Seq<char>>
    decreases places.len(),
{
    if places.len() == 0 {
        None
    } else if paths::is_rooted(places[0]) && executable[0] {
        Some(places[0])
    } else {
        first_usable(places.skip(1), executable.skip(1))
    }
}

/// The launcher: the first place that is absolute and holds a program. `executable` says
/// of each place whether it holds one.
pub fn choose_agent_launcher(places: &Vec<String>, executable: &Vec<bool>) -> (r: Result<
    String,
    &'static str,
>)
    requires
        executable.len() == places.len(),
    ensures
        match first_usable(places.deep_view(), executable@) {
            Some(path) => r matches Ok(found) && found@ == path,
            None => r matches Err(message) && message@
                == "the channel-matched agent launcher is missing"@,
        },
{
    let ghost all = places.deep_view();
    let ghost flags = executable@;
    let mut i: usize = 0;
    assert(all.skip(0) =~= all);
    assert(flags.skip(0) =~= flags);
    while i < places.len()
        invariant
            all == places.deep_view(),
            flags == executable@,
            executable.len() == places.len(),
            i <= places.len(),
            first_usable(all.skip(i as int), flags.skip(i as int)) == first_usable(all, flags),
        decreases places.len() - i,
    {
        assert(all.skip(i as int).skip(1) =~= all.skip(i + 1));
        assert(flags.skip(i as int).skip(1) =~= flags.skip(i + 1));
        assert(all[i as int] == places[i as int]@);
        if executable[i] && is_absolute(places[i].as_str()) {
            return Ok(places[i].clone());
        }
        i += 1;
    }
    Err("the channel-matched agent launcher is missing")
}

/// Whether a path is absolute.
fn is_absolute(path: &str) -> (r: bool)
    ensures
        r == paths::is_rooted(path@),
{
    let chars = chars_of(path);
    chars.len() > 0 && chars[0] == '/'
}

/// The last piece of a list is what follows its last separator.
proof fn lemma_last_piece(s: Seq<char>, sep: char, word: Seq<char>)
    requires
        !word.contains(sep),
    ensures
        text::split_on(s.push(sep) + word, sep).last() == word,
        text::split_on(s.push(sep) + word, sep).len() > 0,
    decreases word.len(),
{
    let whole = s.push(sep) + word;
    text::lemma_split_on_len(whole, sep);
    if word.len() == 0 {
        assert(whole =~= s.push(sep));
        assert(whole.drop_last() =~= s);
        assert(text::split_on(whole, sep).last() =~= word);
    } else {
        let shorter = word.drop_last();
        assert forall|i: int| 0 <= i < shorter.len() implies shorter[i] != sep by {
            assert(word[i] != sep);
        }
        lemma_last_piece(s, sep, shorter);
        assert(whole.drop_last() =~= s.push(sep) + shorter);
        assert(whole.last() == word.last());
        assert(word.contains(word.last()));
        assert(text::split_on(whole, sep).last() =~= word);
    }
}

/// The protocol is added once: the list that it was added to names it.
pub proof fn law_presentation_is_added_once(existing: Seq<char>)
    ensures
        names_presentation(existing + ",wp_presentation"@),
        names_presentation("wp_presentation"@),
{
    reveal_strlit(",wp_presentation");
    reveal_strlit("wp_presentation");
    let word = "wp_presentation"@;
    let whole = with_commas(existing + ",wp_presentation"@);
    assert(whole =~= with_commas(existing).push(',') + word);
    lemma_last_piece(with_commas(existing), ',', word);
    assert(text::split_on(whole, ',').last() == word);
    assert(with_commas(word) =~= word);
    lemma_plain_word(word, ',');
    assert(text::split_on(word, ',')[0] == word);
}

/// A word without separators is its only piece.
proof fn lemma_plain_word(word: Seq<char>, sep: char)
    requires
        !word.contains(sep),
    ensures
        text::split_on(word, sep) =~= seq![word],
    decreases word.len(),
{
    if word.len() > 0 {
        let shorter = word.drop_last();
        assert forall|i: int| 0 <= i < shorter.len() implies shorter[i] != sep by {
            assert(word[i] != sep);
        }
        lemma_plain_word(shorter, sep);
        assert(word.contains(word.last()));
        assert(shorter.push(word.last()) =~= word);
        assert(seq![shorter].drop_last().push(word) =~= seq![word]);
    } else {
        assert(word =~= Seq::<char>::empty());
    }
}

/// A list of protocols is split at every separator that GDK knows.
pub proof fn law_separators_of_protocols(before: Seq<char>, sep: char, after: Seq<char>)
    requires
        sep == ':' || sep == ';' || sep == ',' || sep == ' ' || sep == '\t',
    ensures
        names_presentation(before + seq![sep] + "wp_presentation"@),
        !names_presentation(Seq::empty()),
{
    reveal_strlit("wp_presentation");
    let name = "wp_presentation"@;
    let list = before + seq![sep] + name;
    let plain = with_commas(list);
    let head = with_commas(before);
    assert(plain =~= head + seq![','] + name);
    assert(!name.contains(',')) by {
        if name.contains(',') {
            let i = choose|i: int| 0 <= i < name.len() && name[i] == ',';
            assert(name[i] != ',');
        }
    }
    paths::lemma_split_behind(head, name, ',');
    let pieces = text::split_on(head, ',').push(name);
    assert(pieces[pieces.len() - 1] == name);
    let empty = Seq::<char>::empty();
    assert(with_commas(empty) =~= empty);
    assert(text::split_on(empty, ',') =~= seq![empty]);
    assert(!seq![empty].contains(name)) by {
        if seq![empty].contains(name) {
            assert(empty.len() == name.len());
        }
    }
}

/// A launcher belongs to the program where both say the same revision and the same state of
/// their sources, and both say something.
pub proof fn law_launchers_of_the_program(launcher: JsonTree, app: BuildView)
    ensures
        launcher_matches(launcher, app) ==> launcher.text_member("source_revision"@)
            == app.source_revision && launcher.flag_member("source_dirty"@) == app.source_dirty,
        app.source_revision is None || app.source_dirty is None ==> !launcher_matches(launcher, app),
        app.source_revision is Some && app.source_dirty is Some && launcher.text_member(
            "source_revision"@,
        ) == app.source_revision && launcher.flag_member("source_dirty"@) == app.source_dirty
            ==> launcher_matches(launcher, app),
{
}

/// A conversation is named in full by its provider, its host and its session.
pub proof fn law_conversations_are_named_in_full(handoff: HandoffView)
    ensures
        is_complete(handoff) <==> handoff.provider_id.len() > 0 && handoff.host_identity.len() > 0
            && handoff.session_id.len() > 0,
{
}

/// The launcher is looked for where the user says, and then beside the installed program and
/// beside the running one; a place is tried once where it follows itself.
pub proof fn law_places_of_the_launcher(
    own: Seq<char>,
    dir: Seq<char>,
    program: Seq<char>,
    other: Seq<char>,
)
    requires
        dir.len() > 0,
        dir.last() != '/',
        dir.last() != '.',
        program.len() > 0,
        !program.contains('/'),
        program != "."@,
        program != ".."@,
    ensures
        ({
            let beside = dir + seq!['/'] + "agent"@;
            let path = Some(dir + seq!['/'] + program);
            &&& launcher_places(None, None, None) == Seq::<Seq<char>>::empty()
            &&& launcher_places(Some(own), None, None) == seq![own]
            &&& launcher_places(None, path, None) == seq![beside]
            &&& launcher_places(None, None, path) == seq![beside]
            &&& launcher_places(None, path, path) == seq![beside]
            &&& paths::components(own) != paths::components(beside) ==> launcher_places(
                Some(own),
                path,
                None,
            ) == seq![own, beside]
        }),
{
    reveal_strlit("agent");
    let path = dir + seq!['/'] + program;
    let beside = dir + seq!['/'] + "agent"@;
    let none = Seq::<Seq<char>>::empty();
    paths::law_names_and_directories(dir, program);
    assert("agent"@[0] == 'a');
    paths::law_joining_paths(dir, "agent"@);
    assert(launcher_beside(Some(path)) =~= seq![beside]);
    assert(none + none + none =~= none);
    assert(seq![own] + none + none =~= seq![own]);
    assert(none + seq![beside] + none =~= seq![beside]);
    assert(none + none + seq![beside] =~= seq![beside]);
    assert(none + seq![beside] + seq![beside] =~= seq![beside, beside]);
    assert(seq![beside, beside].drop_last() =~= seq![beside]);
    assert(seq![own] + seq![beside] + none =~= seq![own, beside]);
    assert(seq![own, beside].drop_last() =~= seq![own]);
    assert(seq![own].push(beside) =~= seq![own, beside]);
}

/// The first place that is absolute and holds a program is taken.
pub proof fn law_the_first_usable_place(places: Seq<Seq<char>>, executable: Seq<bool>, i: int)
    requires
        places.len() == executable.len(),
    ensures
        0 <= i < places.len() && places[i].len() > 0 && places[i][0] == '/' && executable[i] && (
        forall|j: int|
            0 <= j < i ==> !(#[trigger] executable[j]) || places[j].len() == 0 || places[j][0]
                != '/') ==> first_usable(places, executable) == Some(places[i]),
        (forall|j: int|
            0 <= j < places.len() ==> !(#[trigger] executable[j]) || places[j].len() == 0
                || places[j][0] != '/') ==> first_usable(places, executable) is None,
    decreases places.len(),
{
    if places.len() > 0 {
        let p = places.skip(1);
        let e = executable.skip(1);
        law_the_first_usable_place(p, e, i - 1);
        if 0 < i < places.len() && (forall|j: int|
            0 <= j < i ==> !(#[trigger] executable[j]) || places[j].len() == 0 || places[j][0]
                != '/') {
            assert(!executable[0] || places[0].len() == 0 || places[0][0] != '/');
            assert(p[i - 1] == places[i] && e[i - 1] == executable[i]);
            assert forall|j: int| 0 <= j < i - 1 implies !(#[trigger] e[j]) || p[j].len() == 0
                || p[j][0] != '/' by {
                assert(p[j] == places[j + 1] && e[j] == executable[j + 1]);
            }
        }
        if forall|j: int|
            0 <= j < places.len() ==> !(#[trigger] executable[j]) || places[j].len() == 0
                || places[j][0] != '/' {
            assert(!executable[0] || places[0].len() == 0 || places[0][0] != '/');
            assert forall|j: int| 0 <= j < p.len() implies !(#[trigger] e[j]) || p[j].len() == 0
                || p[j][0] != '/' by {
                assert(p[j] == places[j + 1] && e[j] == executable[j + 1]);
            }
        }
    }
}

} // verus!
