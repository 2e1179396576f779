//! The chip that shows the tool versions of a project.

use vstd::prelude::*;
use vstd::string::*;
use crate::json;
use crate::json::{parse_json_bytes, Json};
use crate::mise;
use crate::mise::{DiscoveryTarget, MiseTaskScope};
use crate::mise::local;
use crate::mise::local::scope_of_source;
use crate::paths;
use crate::text;
use crate::text::{
    ascii_lowercase, chars_of, comes_before, copy_optional_text, join_texts, same_text, split_text,
    string_of, text_before_first, trim,
};

verus! {

/// The version of a tool.
#[derive(Debug, Clone, PartialEq, Eq)]
pub struct ToolVersionEntry {
    pub tool: String,
    pub version: String,
    /// The file that asks for the version.
    pub source: Option<String>,
}

/// The mathematical value of a [`ToolVersionEntry`].
pub struct ToolView {
    pub tool: Seq<char>,
    pub version: Seq<char>,
    pub source: Option<Seq<char>>,
}

impl DeepView for ToolVersionEntry {
    type V = ToolView;

    open spec fn deep_view(&self) -> ToolView {
        ToolView { tool: self.tool@, version: self.version@, source: self.source.deep_view() }
    }
}

impl ToolVersionEntry {
    /// Another value of the same content.
    pub fn copy_entry(&self) -> (r: ToolVersionEntry)
        ensures
            r == *self,
    {
        ToolVersionEntry {
            tool: self.tool.clone(),
            version: self.version.clone(),
            source: copy_optional_text(&self.source),
        }
    }
}

/// `s` without the `v`s at its start.
pub open spec fn without_v(s: Seq<char>) -> Seq<char>
    decreases s.len(),
{
    if s.len() > 0 && s[0] == 'v' {
        without_v(s.skip(1))
    } else {
        s
    }
}

/// A version without a leading `v`, without what follows a hyphen, and with its first two
/// numbers only.
pub open spec fn compact_version(version: Seq<char>) -> Seq<char> {
    let core = text::before_first(without_v(text::trimmed(version)), '-');
    let parts = text::split_on(core, '.');
    text::joined(
        if parts.len() > 2 {
            parts.take(2)
        } else {
            parts
        },
        "."@,
    )
}

/// A version as it is shown.
pub fn compact_tool_version(version: &str) -> (r: String)
    ensures
        r@ == compact_version(version@),
{
    let trimmed = trim(version);
    let v = chars_of(trimmed.as_str());
    let mut start: usize = 0;
    assert(v@.skip(0) =~= v@);
    while start < v.len() && v[start] == 'v'
        invariant
            v@ == trimmed@,
            start <= v@.len(),
            without_v(v@.skip(start as int)) == without_v(trimmed@),
        decreases v@.len() - start,
    {
        assert(v@.skip(start as int).skip(1) =~= v@.skip(start + 1));
        start += 1;
    }
    let bare = string_of(&v, start, v.len());
    assert(bare@ =~= v@.skip(start as int));
    let core = text_before_first(bare.as_str(), '-');
    let mut parts = split_text(core.as_str(), '.');
    let ghost all = parts.deep_view();
    if parts.len() > 2 {
        parts.truncate(2);
        assert(parts.deep_view() =~= all.take(2));
    }
    join_texts(&parts, ".")
}

/// The rank of a tool: the common languages come first.
pub open spec fn priority(tool: Seq<char>) -> nat {
    let name = text::ascii_lowered(tool);
    if name == "node"@ {
        0
    } else if name == "python"@ {
        1
    } else if name == "ruby"@ {
        2
    } else if name == "rust"@ {
        3
    } else if name == "go"@ {
        4
    } else {
        100
    }
}

/// The rank of a tool.
pub fn tool_version_priority(tool: &str) -> (r: usize)
    ensures
        r == priority(tool@),
{
    let name = ascii_lowercase(tool);
    if same_text(name.as_str(), "node") {
        0
    } else if same_text(name.as_str(), "python") {
        1
    } else if same_text(name.as_str(), "ruby") {
        2
    } else if same_text(name.as_str(), "rust") {
        3
    } else if same_text(name.as_str(), "go") {
        4
    } else {
        100
    }
}

/// Whether a tool is shown before another: by rank, and by name within a rank.
pub open spec fn shown_before(a: Seq<char>, b: Seq<char>) -> bool {
    priority(a) < priority(b) || (priority(a) == priority(b) && text::text_before(
        text::ascii_lowered(a),
        text::ascii_lowered(b),
    ))
}

fn is_shown_before(a: &str, b: &str) -> (r: bool)
    ensures
        r == shown_before(a@, b@),
{
    let p: usize = tool_version_priority(a);
    let q: usize = tool_version_priority(b);
    if p != q {
        p < q
    } else {
        comes_before(ascii_lowercase(a).as_str(), ascii_lowercase(b).as_str())
    }
}

/// The entries in the order in which they are shown, with `entry` put in its place: behind
/// all that are not to be shown after it.
pub open spec fn placed(entries: Seq<ToolVersionEntry>, entry: ToolVersionEntry) -> Seq<
    ToolVersionEntry,
>
    decreases entries.len(),
{
    if entries.len() > 0 && shown_before(entry.tool@, entries.last().tool@) {
        placed(entries.drop_last(), entry).push(entries.last())
    } else {
        entries.push(entry)
    }
}

/// The entries in the order in which they are shown. Those of the same rank and name stay
/// in the order in which they were given.
pub open spec fn in_shown_order(entries: Seq<ToolVersionEntry>) -> Seq<ToolVersionEntry>
    decreases entries.len(),
{
    if entries.len() == 0 {
        entries
    } else {
        placed(in_shown_order(entries.drop_last()), entries.last())
    }
}

proof fn lemma_placed_at(entries: Seq<ToolVersionEntry>, entry: ToolVersionEntry, p: int)
    requires
        0 <= p <= entries.len(),
        p > 0 ==> !shown_before(entry.tool@, entries[p - 1].tool@),
        forall|i: int|
            p <= i < entries.len() ==> shown_before(entry.tool@, (#[trigger] entries[i]).tool@),
    ensures
        placed(entries, entry) == entries.insert(p, entry),
    decreases entries.len(),
{
    if p < entries.len() {
        let short = entries.drop_last();
        lemma_placed_at(short, entry, p);
        assert(short.insert(p, entry).push(entries.last()) =~= entries.insert(p, entry));
    } else {
        assert(entries.push(entry) =~= entries.insert(p, entry));
    }
}

fn sort_for_display(entries: &Vec<ToolVersionEntry>) -> (r: Vec<ToolVersionEntry>)
    ensures
        r@ == in_shown_order(entries@),
{
    let mut out: Vec<ToolVersionEntry> = Vec::new();
    let mut i: usize = 0;
    while i < entries.len()
        invariant
            i <= entries@.len(),
            out@ == in_shown_order(entries@.take(i as int)),
            out@.len() == i,
        decreases entries@.len() - i,
    {
        assert(entries@.take(i + 1).drop_last() =~= entries@.take(i as int));
        let entry = entries[i].copy_entry();
        let mut p: usize = out.len();
        while p > 0 && is_shown_before(entry.tool.as_str(), out[p - 1].tool.as_str())
            invariant
                p <= out@.len(),
                forall|k: int|
                    p <= k < out@.len() ==> shown_before(entry.tool@, (#[trigger] out@[k]).tool@),
            decreases p,
        {
            p -= 1;
        }
        proof {
            lemma_placed_at(out@, entry, p as int);
        }
        out.insert(p, entry);
        i += 1;
    }
    assert(entries@.take(i as int) =~= entries@);
    out
}

/// How an entry is shown.
pub open spec fn entry_text(entry: ToolVersionEntry) -> Seq<char> {
    entry.tool@ + " "@ + compact_version(entry.version@)
}

/// The text of the chip: the first three entries in the order in which they are shown;
/// without entries there is no chip.
pub open spec fn chip_text(entries: Seq<ToolVersionEntry>) -> Option<Seq<char>> {
    let order = in_shown_order(entries);
    let n: nat = if order.len() < 3 {
        order.len()
    } else {
        3
    };
    if n == 0 {
        None
    } else {
        Some(text::joined(Seq::new(n, |i: int| entry_text(order[i])), " • "@))
    }
}

/// The text of the chip.
pub fn format_tool_version_chip(tool_versions: &Vec<ToolVersionEntry>) -> (r: Option<String>)
    ensures
        r.deep_view() == chip_text(tool_versions@),
{
    let order = sort_for_display(tool_versions);
    let mut parts: Vec<String> = Vec::new();
    let mut i: usize = 0;
    while i < order.len() && i < 3
        invariant
            i <= order@.len(),
            i <= 3,
            parts@.len() == i,
            forall|k: int| 0 <= k < i ==> (#[trigger] parts@[k])@ == entry_text(order@[k]),
        decreases 3 - i,
    {
        let mut part = order[i].tool.clone();
        part.append(" ");
        part.append(compact_tool_version(order[i].version.as_str()).as_str());
        parts.push(part);
        i += 1;
    }
    if parts.len() == 0 {
        return None;
    }
    assert(parts.deep_view() =~= Seq::new(i as nat, |k: int| entry_text(order@[k])));
    Some(join_texts(&parts, " • "))
}

/// Ordering entries for display neither adds nor loses any.
pub proof fn law_display_order_keeps_the_entries(entries: Seq<ToolVersionEntry>)
    ensures
        in_shown_order(entries).to_multiset() == entries.to_multiset(),
        in_shown_order(entries).len() == entries.len(),
    decreases entries.len(),
{
    broadcast use vstd::seq_lib::group_to_multiset_ensures;

    if entries.len() > 0 {
        let before = in_shown_order(entries.drop_last());
        law_display_order_keeps_the_entries(entries.drop_last());
        lemma_placed_multiset(before, entries.last());
        assert(entries =~= entries.drop_last().push(entries.last()));
    }
}

proof fn lemma_placed_multiset(entries: Seq<ToolVersionEntry>, entry: ToolVersionEntry)
    ensures
        placed(entries, entry).to_multiset() == entries.to_multiset().insert(entry),
        placed(entries, entry).len() == entries.len() + 1,
    decreases entries.len(),
{
    broadcast use vstd::seq_lib::group_to_multiset_ensures;

    if entries.len() > 0 && shown_before(entry.tool@, entries.last().tool@) {
        lemma_placed_multiset(entries.drop_last(), entry);
        assert(entries =~= entries.drop_last().push(entries.last()));
        assert(entries.to_multiset().insert(entry) =~= entries.drop_last().to_multiset().insert(
            entry,
        ).insert(entries.last()));
    }
}

/// In the display order no entry stands behind one that is to be shown after it.
pub proof fn law_display_order_is_sorted(entries: Seq<ToolVersionEntry>)
    ensures
        forall|i: int, j: int|
            0 <= i < j < in_shown_order(entries).len() ==> !shown_before(
                (#[trigger] in_shown_order(entries)[j]).tool@,
                (#[trigger] in_shown_order(entries)[i]).tool@,
            ),
    decreases entries.len(),
{
    if entries.len() > 0 {
        law_display_order_is_sorted(entries.drop_last());
        lemma_placed_sorted(in_shown_order(entries.drop_last()), entries.last());
    }
}

/// Whether no entry stands behind one that is to be shown after it.
pub open spec fn display_sorted(entries: Seq<ToolVersionEntry>) -> bool {
    forall|i: int, j: int|
        0 <= i < j < entries.len() ==> !shown_before(
            (#[trigger] entries[j]).tool@,
            (#[trigger] entries[i]).tool@,
        )
}

proof fn lemma_shown_before_order(a: Seq<char>, b: Seq<char>, c: Seq<char>)
    ensures
        !(shown_before(a, b) && shown_before(b, a)),
        !shown_before(a, b) && !shown_before(b, c) ==> !shown_before(a, c),
{
    let x = text::ascii_lowered(a);
    let y = text::ascii_lowered(b);
    let z = text::ascii_lowered(c);
    text::lemma_text_order(x, y);
    text::lemma_text_order(y, z);
    text::lemma_text_order(x, z);
    text::lemma_text_order_transitive(x, z, y);
    text::lemma_text_order_transitive(y, x, z);
    text::lemma_text_order_transitive(z, y, x);
}

proof fn lemma_placed_sorted(entries: Seq<ToolVersionEntry>, entry: ToolVersionEntry)
    requires
        display_sorted(entries),
    ensures
        display_sorted(placed(entries, entry)),
        forall|i: int|
            0 <= i < placed(entries, entry).len() ==> placed(entries, entry)[i] == entry
                || entries.contains(#[trigger] placed(entries, entry)[i]),
    decreases entries.len(),
{
    let out = placed(entries, entry);
    if entries.len() > 0 && shown_before(entry.tool@, entries.last().tool@) {
        let short = entries.drop_last();
        let inner = placed(short, entry);
        let last = entries.last();
        lemma_placed_sorted(short, entry);
        assert forall|i: int, j: int| 0 <= i < j < out.len() implies !shown_before(
            (#[trigger] out[j]).tool@,
            (#[trigger] out[i]).tool@,
        ) by {
            if j == out.len() - 1 {
                assert(out[i] == inner[i]);
                if inner[i] == entry {
                    lemma_shown_before_order(entry.tool@, last.tool@, last.tool@);
                } else {
                    let k = choose|k: int| 0 <= k < short.len() && short[k] == inner[i];
                    assert(entries[k] == inner[i]);
                    assert(!shown_before(
                        entries[entries.len() - 1].tool@,
                        entries[k].tool@,
                    ));
                }
            } else {
                assert(out[i] == inner[i]);
                assert(out[j] == inner[j]);
            }
        }
        assert forall|i: int| 0 <= i < out.len() implies out[i] == entry || entries.contains(
            #[trigger] out[i],
        ) by {
            if i == out.len() - 1 {
                assert(entries[entries.len() - 1] == out[i]);
            } else if inner[i] != entry {
                assert(out[i] == inner[i]);
                let k = choose|k: int| 0 <= k < short.len() && short[k] == inner[i];
                assert(entries[k] == out[i]);
            }
        }
    } else {
        assert forall|i: int, j: int| 0 <= i < j < out.len() implies !shown_before(
            (#[trigger] out[j]).tool@,
            (#[trigger] out[i]).tool@,
        ) by {
            if j == out.len() - 1 {
                let n = entries.len() - 1;
                assert(out[i] == entries[i]);
                if i < n {
                    assert(!shown_before(entries[n].tool@, entries[i].tool@));
                    lemma_shown_before_order(entry.tool@, entries[n].tool@, entries[i].tool@);
                }
            } else {
                assert(out[i] == entries[i]);
                assert(out[j] == entries[j]);
            }
        }
        assert forall|i: int| 0 <= i < out.len() implies out[i] == entry || entries.contains(
            #[trigger] out[i],
        ) by {
            if i < entries.len() {
                assert(entries[i] == out[i]);
            }
        }
    }
}

/// The text of the first of three members that is a text.
pub open spec fn first_text(
    tree: json::JsonTree,
    a: Seq<char>,
    b: Seq<char>,
    c: Seq<char>,
) -> Option<Seq<char>> {
    if tree.text_member(a) is Some {
        tree.text_member(a)
    } else if tree.text_member(b) is Some {
        tree.text_member(b)
    } else {
        tree.text_member(c)
    }
}

fn first_text_of(value: &Json, a: &str, b: &str, c: &str) -> (r: Option<String>)
    ensures
        r.deep_view() == first_text(value.deep_view(), a@, b@, c@),
{
    match value.text(a) {
        Some(s) => Some(s.to_owned()),
        None => match value.text(b) {
            Some(s) => Some(s.to_owned()),
            None => match value.text(c) {
                Some(s) => Some(s.to_owned()),
                None => None,
            },
        },
    }
}

/// The file that a version comes from: a path, or an object that holds one.
pub open spec fn source_of(tree: json::JsonTree) -> Option<Seq<char>> {
    match tree.member("source"@) {
        Some(json::JsonTree::Text(path)) => Some(path),
        Some(json::JsonTree::Object(pairs)) => json::JsonTree::Object(pairs).text_member("path"@),
        _ => None,
    }
}

/// The version that an object reports of the tool `hint`, or of the tool that it names
/// itself. Blank names and versions do not count.
pub open spec fn entry_of(hint: Option<Seq<char>>, tree: json::JsonTree) -> Option<ToolView> {
    let tool = match hint {
        Some(tool) => Some(tool),
        None => first_text(tree, "plugin_name"@, "tool"@, "name"@),
    };
    let version = first_text(tree, "version"@, "actual_version"@, "requested_version"@);
    if !(tree is Object) || tool is None || version is None || text::trimmed(tool->0).len() == 0
        || text::trimmed(version->0).len() == 0 {
        None
    } else {
        Some(
            ToolView {
                tool: text::trimmed(tool->0),
                version: text::trimmed(version->0),
                source: source_of(tree),
            },
        )
    }
}

/// The version that a value reports of a tool.
pub fn parse_tool_version_entry(tool_hint: Option<&str>, value: &Json) -> (r: Option<
    ToolVersionEntry,
>)
    ensures
        r.deep_view() == entry_of(tool_hint.deep_view(), value.deep_view()),
{
    match value {
        Json::Object(_) => {},
        _ => {
            return None;
        },
    }
    let tool = match tool_hint {
        Some(tool) => tool.to_owned(),
        None => match first_text_of(value, "plugin_name", "tool", "name") {
            Some(tool) => tool,
            None => {
                return None;
            },
        },
    };
    let version = match first_text_of(value, "version", "actual_version", "requested_version") {
        Some(version) => version,
        None => {
            return None;
        },
    };
    let tool = trim(tool.as_str());
    let version = trim(version.as_str());
    if tool.as_str().is_empty() || version.as_str().is_empty() {
        return None;
    }
    let source = match value.get("source") {
        Some(Json::Text(path)) => Some(path.clone()),
        Some(inner) => match inner {
            Json::Object(_) => match inner.text("path") {
                Some(path) => Some(path.to_owned()),
                None => None,
            },
            _ => None,
        },
        None => None,
    };
    Some(ToolVersionEntry { tool, version, source })
}

/// The optional entry as a list of none or one.
pub open spec fn entry_list(entry: Option<ToolView>) -> Seq<ToolView> {
    match entry {
        Some(entry) => seq![entry],
        None => Seq::empty(),
    }
}

/// The versions that the items of an array report.
pub open spec fn entries_in(hint: Option<Seq<char>>, items: Seq<json::JsonTree>) -> Seq<ToolView>
    decreases items.len(),
{
    if items.len() == 0 {
        Seq::empty()
    } else {
        entries_in(hint, items.drop_last()) + entry_list(entry_of(hint, items.last()))
    }
}

/// The versions that a value reports of a tool: those of its items, or its own.
pub open spec fn entries_of(hint: Option<Seq<char>>, tree: json::JsonTree) -> Seq<ToolView> {
    match tree {
        json::JsonTree::Array(items) => entries_in(hint, items),
        _ => entry_list(entry_of(hint, tree)),
    }
}

fn push_entry(out: &mut Vec<ToolVersionEntry>, entry: Option<ToolVersionEntry>)
    ensures
        final(out).deep_view() == old(out).deep_view() + entry_list(entry.deep_view()),
{
    let ghost view = entry.deep_view();
    if let Some(entry) = entry {
        out.push(entry);
    }
    assert(out.deep_view() =~= old(out).deep_view() + entry_list(view));
}

/// The versions that a value reports of a tool.
pub fn parse_tool_version_entries(
    tool_hint: Option<&str>,
    value: &Json,
) -> (r: Vec<ToolVersionEntry>)
    ensures
        r.deep_view() == entries_of(tool_hint.deep_view(), value.deep_view()),
{
    let mut out: Vec<ToolVersionEntry> = Vec::new();
    assert(out.deep_view() =~= Seq::empty());
    match value {
        Json::Array(items) => {
            let ghost model = value.deep_view()->Array_0;
            let ghost hint = tool_hint.deep_view();
            let mut i: usize = 0;
            while i < items.len()
                invariant
                    *value == Json::Array(*items),
                    model == value.deep_view()->Array_0,
                    hint == tool_hint.deep_view(),
                    i <= items@.len(),
                    out.deep_view() == entries_in(hint, model.take(i as int)),
                decreases items@.len() - i,
            {
                assert(model.take(i + 1).drop_last() =~= model.take(i as int));
                assert(model.take(i + 1).last() == json::tree_of(items@[i as int]));
                push_entry(&mut out, parse_tool_version_entry(tool_hint, &items[i]));
                i += 1;
            }
            assert(model.take(i as int) =~= model);
        },
        _ => {
            push_entry(&mut out, parse_tool_version_entry(tool_hint, value));
            assert(out.deep_view() =~= entry_list(
                entry_of(tool_hint.deep_view(), value.deep_view()),
            ));
        },
    }
    out
}

/// The versions that the members of an object report, each of the tool that it is named
/// after.
pub open spec fn versions_in_object(pairs: Seq<(Seq<char>, json::JsonTree)>) -> Seq<ToolView>
    decreases pairs.len(),
{
    if pairs.len() == 0 {
        Seq::empty()
    } else {
        versions_in_object(pairs.drop_last()) + entries_of(Some(pairs.last().0), pairs.last().1)
    }
}

/// The versions that the items of an array report, each of the tool that it names.
pub open spec fn versions_in_array(items: Seq<json::JsonTree>) -> Seq<ToolView>
    decreases items.len(),
{
    if items.len() == 0 {
        Seq::empty()
    } else {
        versions_in_array(items.drop_last()) + entries_of(None, items.last())
    }
}

/// The versions in what mise printed; none where it was not JSON.
pub open spec fn versions_of(tree: Option<json::JsonTree>) -> Seq<ToolView> {
    match tree {
        Some(json::JsonTree::Object(pairs)) => versions_in_object(pairs),
        Some(json::JsonTree::Array(items)) => versions_in_array(items),
        _ => Seq::empty(),
    }
}

fn append_entries(out: &mut Vec<ToolVersionEntry>, more: Vec<ToolVersionEntry>)
    ensures
        final(out).deep_view() == old(out).deep_view() + more.deep_view(),
{
    let ghost view = more.deep_view();
    let mut more = more;
    out.append(&mut more);
    assert(out.deep_view() =~= old(out).deep_view() + view);
}

/// The versions in a parsed report of mise.
pub fn tool_versions_of(report: &Option<Json>) -> (r: Vec<ToolVersionEntry>)
    ensures
        r.deep_view() == versions_of(report.deep_view()),
{
    let mut out: Vec<ToolVersionEntry> = Vec::new();
    assert(out.deep_view() =~= Seq::empty());
    match report {
        Some(value) => match value {
            Json::Object(pairs) => {
                let ghost model = value.deep_view()->Object_0;
                let mut i: usize = 0;
                while i < pairs.len()
                    invariant
                        *value == Json::Object(*pairs),
                        model == value.deep_view()->Object_0,
                        i <= pairs@.len(),
                        out.deep_view() == versions_in_object(model.take(i as int)),
                    decreases pairs@.len() - i,
                {
                    assert(model.take(i + 1).drop_last() =~= model.take(i as int));
                    assert(model.take(i + 1).last() == (
                        pairs@[i as int].0@,
                        json::tree_of(pairs@[i as int].1),
                    ));
                    append_entries(
                        &mut out,
                        parse_tool_version_entries(Some(pairs[i].0.as_str()), &pairs[i].1),
                    );
                    i += 1;
                }
                assert(model.take(i as int) =~= model);
            },
            Json::Array(items) => {
                let ghost model = value.deep_view()->Array_0;
                let mut i: usize = 0;
                while i < items.len()
                    invariant
                        *value == Json::Array(*items),
                        model == value.deep_view()->Array_0,
                        i <= items@.len(),
                        out.deep_view() == versions_in_array(model.take(i as int)),
                    decreases items@.len() - i,
                {
                    assert(model.take(i + 1).drop_last() =~= model.take(i as int));
                    assert(model.take(i + 1).last() == json::tree_of(items@[i as int]));
                    append_entries(&mut out, parse_tool_version_entries(None, &items[i]));
                    i += 1;
                }
                assert(model.take(i as int) =~= model);
            },
            _ => {},
        },
        None => {},
    }
    out
}

/// The versions in what mise printed; none where it was not JSON.
pub fn parse_tool_versions_json(bytes: &[u8]) -> (r: Vec<ToolVersionEntry>)
    ensures
        r.deep_view() == versions_of(json::parsed_json_bytes(bytes@)),
{
    tool_versions_of(&parse_json_bytes(bytes))
}

/// The scope of a version, seen from `root`. One without a file counts to the project;
/// one whose file is elsewhere is global.
pub open spec fn version_scope(entry: ToolVersionEntry, root: Seq<char>) -> MiseTaskScope {
    match entry.source {
        None => MiseTaskScope::ProjectRoot,
        Some(source) => match local::source_scope(source@, root) {
            Some(scope) => scope,
            None => MiseTaskScope::Global,
        },
    }
}

/// The scope of a version, seen from `discovery_root`.
pub fn tool_version_scope(entry: &ToolVersionEntry, discovery_root: &str) -> (r: MiseTaskScope)
    ensures
        r == version_scope(*entry, discovery_root@),
{
    match &entry.source {
        None => MiseTaskScope::ProjectRoot,
        Some(source) => match scope_of_source(source.as_str(), discovery_root) {
            Some(scope) => scope,
            None => MiseTaskScope::Global,
        },
    }
}

/// The versions that belong to a target: those that are not global.
pub open spec fn versions_in_scope(
    entries: Seq<ToolVersionEntry>,
    target: mise::TargetView,
) -> Seq<ToolVersionEntry> {
    entries.filter(
        |entry: ToolVersionEntry| version_scope(entry, target.dir()) != MiseTaskScope::Global,
    )
}

/// The versions that belong to a target.
pub fn filter_tool_versions_for_target(
    tool_versions: Vec<ToolVersionEntry>,
    target: &DiscoveryTarget,
) -> (r: Vec<ToolVersionEntry>)
    ensures
        r@ == versions_in_scope(tool_versions@, target.deep_view()),
{
    let root = target.dir_text();
    let mut out: Vec<ToolVersionEntry> = Vec::new();
    let ghost keep = |entry: ToolVersionEntry|
        version_scope(entry, root@) != MiseTaskScope::Global;
    let mut i: usize = 0;
    assert(tool_versions@.take(0).filter(keep) =~= Seq::empty()) by {
        reveal(Seq::filter);
    }
    while i < tool_versions.len()
        invariant
            i <= tool_versions@.len(),
            keep == (|entry: ToolVersionEntry|
                version_scope(entry, root@) != MiseTaskScope::Global),
            out@ == tool_versions@.take(i as int).filter(keep),
        decreases tool_versions@.len() - i,
    {
        assert(tool_versions@.take(i + 1).drop_last() =~= tool_versions@.take(i as int));
        reveal(Seq::filter);
        if tool_version_scope(&tool_versions[i], root) != MiseTaskScope::Global {
            out.push(tool_versions[i].copy_entry());
        }
        i += 1;
    }
    assert(tool_versions@.take(i as int) =~= tool_versions@);
    out
}

/// Whether a target may have a chip: on this machine only where mise is configured.
pub open spec fn may_have_chip(target: mise::TargetView, probes: Seq<mise::DirProbe>) -> bool {
    match target {
        mise::TargetView::Local { cwd, .. } => mise::nearest_config(cwd, probes) is Some,
        mise::TargetView::Remote { .. } => true,
    }
}

/// Whether the tool versions of a target are worth asking for.
pub fn wants_tool_versions(target: &DiscoveryTarget, probes: &Vec<mise::DirProbe>) -> (r: bool)
    ensures
        r == may_have_chip(target.deep_view(), probes@),
{
    match target {
        DiscoveryTarget::Local { cwd, .. } => {
            mise::nearest_mise_config_dir(cwd.as_str(), probes).is_some()
        },
        DiscoveryTarget::Remote { .. } => true,
    }
}

/// The chip of a target from the versions that mise reported.
pub fn tool_version_chip(
    tool_versions: Vec<ToolVersionEntry>,
    target: &DiscoveryTarget,
) -> (r: Option<String>)
    ensures
        r.deep_view() == chip_text(versions_in_scope(tool_versions@, target.deep_view())),
{
    let scoped = filter_tool_versions_for_target(tool_versions, target);
    format_tool_version_chip(&scoped)
}

/// The SSH command line that asks for the tool versions of a remote directory.
pub fn remote_tool_versions_argv(cwd: &str, ssh_argv: &Vec<String>) -> (r: Option<Vec<String>>)
    ensures
        r.deep_view() == crate::mise::remote::remote_exec(
            ssh_argv.deep_view(),
            crate::mise::remote::mise_current_command(cwd@),
            false,
            seq!["-o"@, "BatchMode=yes"@],
        ),
{
    let command = crate::mise::remote::remote_mise_current_command(cwd);
    let extra: [&str; 2] = ["-o", "BatchMode=yes"];
    assert(extra.deep_view() =~= seq!["-o"@, "BatchMode=yes"@]);
    crate::mise::remote::ssh_command_with_remote_exec(ssh_argv, command, false, &extra)
}

/// The arguments with which mise is asked for the current versions, attempt by attempt:
/// the second attempt is for a mise that does not know the first.
pub open spec fn version_args(attempt: int) -> Option<Seq<Seq<char>>> {
    if attempt == 0 {
        Some(seq!["current"@, "--json"@])
    } else if attempt == 1 {
        Some(seq!["ls"@, "--current"@, "--json"@])
    } else {
        None
    }
}

/// The arguments with which mise is asked for the current versions after so many failed
/// attempts; none where no attempt is left.
pub fn tool_version_args(failed_attempts: usize) -> (r: Option<Vec<String>>)
    ensures
        r.deep_view() == version_args(failed_attempts as int),
{
    let mut args: Vec<String> = Vec::new();
    if failed_attempts == 0 {
        args.push("current".to_owned());
        args.push("--json".to_owned());
        assert(args.deep_view() =~= seq!["current"@, "--json"@]);
        Some(args)
    } else if failed_attempts == 1 {
        args.push("ls".to_owned());
        args.push("--current".to_owned());
        args.push("--json".to_owned());
        assert(args.deep_view() =~= seq!["ls"@, "--current"@, "--json"@]);
        Some(args)
    } else {
        None
    }
}

/// Versions are shown with two numbers: what follows them, a `v` before them and a suffix
/// behind a hyphen are left out.
pub proof fn law_versions_are_shown_short(a: Seq<char>, b: Seq<char>, c: Seq<char>, d: Seq<char>)
    requires
        a.len() > 0,
        b.len() > 0,
        c.len() > 0,
        d.len() > 0,
        forall|i: int| 0 <= i < a.len() ==> '0' <= #[trigger] a[i] <= '9',
        forall|i: int| 0 <= i < b.len() ==> '0' <= #[trigger] b[i] <= '9',
        forall|i: int| 0 <= i < c.len() ==> '0' <= #[trigger] c[i] <= '9',
        forall|i: int| 0 <= i < d.len() ==> 'a' <= #[trigger] d[i] <= 'z',
    ensures
        compact_version(a) == a,
        compact_version(a + seq!['.'] + b) == a + seq!['.'] + b,
        compact_version(a + seq!['.'] + b + seq!['.'] + c) == a + seq!['.'] + b,
        compact_version(seq!['v'] + (a + seq!['.'] + b + seq!['.'] + c)) == a + seq!['.'] + b,
        compact_version(a + seq!['.'] + b + seq!['.'] + c + seq!['-'] + d) == a + seq!['.'] + b,
{
    reveal_strlit(".");
    let ab = a + seq!['.'] + b;
    let abc = ab + seq!['.'] + c;
    let pre = seq!['v'] + abc;
    let suf = abc + seq!['-'] + d;
    assert("."@ =~= seq!['.']);
    text::lemma_trimmed_plain(a);
    text::lemma_trimmed_plain(ab);
    text::lemma_trimmed_plain(abc);
    text::lemma_trimmed_plain(pre);
    text::lemma_trimmed_plain(suf);
    assert(a[0] != 'v' && ab[0] == a[0] && abc[0] == a[0] && suf[0] == a[0]);
    assert(pre.skip(1) =~= abc);
    assert(pre[0] == 'v');
    assert(without_v(pre) == abc) by {
        reveal_with_fuel(without_v, 3);
    }
    text::lemma_no_separator(a, '-');
    text::lemma_no_separator(ab, '-');
    text::lemma_no_separator(abc, '-');
    text::lemma_before_first_of(abc, d, '-');
    assert(!a.contains('.')) by {
        if a.contains('.') {
            let i = choose|i: int| 0 <= i < a.len() && a[i] == '.';
            assert('0' <= a[i]);
        }
    }
    assert(!b.contains('.')) by {
        if b.contains('.') {
            let i = choose|i: int| 0 <= i < b.len() && b[i] == '.';
            assert('0' <= b[i]);
        }
    }
    assert(!c.contains('.')) by {
        if c.contains('.') {
            let i = choose|i: int| 0 <= i < c.len() && c[i] == '.';
            assert('0' <= c[i]);
        }
    }
    text::law_pieces_make_the_text(a, '.');
    paths::lemma_one_piece_of(a, '.');
    paths::lemma_split_behind(a, b, '.');
    paths::lemma_split_behind(ab, c, '.');
    let two = seq![a].push(b);
    assert(two.push(c).take(2) =~= two);
    text::law_joining(seq![a], b, "."@);
    text::law_joining(Seq::empty(), a, "."@);
}

/// The tools that come first are Node, Python, Ruby, Rust and Go, in this order, whatever the
/// case of their names; the others follow by name.
pub proof fn law_the_order_of_tools(other: Seq<char>, more: Seq<char>)
    requires
        priority(other) == 100,
        priority(more) == 100,
    ensures
        shown_before("node"@, "python"@),
        shown_before("python"@, "ruby"@),
        shown_before("ruby"@, "rust"@),
        shown_before("rust"@, "go"@),
        shown_before("go"@, other),
        !shown_before(other, "go"@),
        priority("Node"@) == priority("node"@),
        shown_before(other, more) == text::text_before(
            text::ascii_lowered(other),
            text::ascii_lowered(more),
        ),
        priority("java"@) == 100,
{
    reveal_strlit("node");
    reveal_strlit("Node");
    reveal_strlit("python");
    reveal_strlit("ruby");
    reveal_strlit("rust");
    reveal_strlit("go");
    reveal_strlit("java");
    assert(text::ascii_lowered("node"@) =~= "node"@);
    assert(text::ascii_lowered("Node"@) =~= "node"@);
    assert(text::ascii_lowered("python"@) =~= "python"@);
    assert(text::ascii_lowered("ruby"@) =~= "ruby"@);
    assert(text::ascii_lowered("rust"@) =~= "rust"@);
    assert(text::ascii_lowered("go"@) =~= "go"@);
    assert(text::ascii_lowered("java"@) =~= "java"@);
    assert("node"@[0] == 'n' && "python"@[0] == 'p' && "ruby"@[0] == 'r' && "rust"@[0] == 'r'
        && "go"@[0] == 'g' && "java"@[0] == 'j' && "ruby"@[2] == 'b' && "rust"@[2] == 's');
}

/// The chip shows the first three tools in the order of the display, each with its version,
/// and there is none without tools.
pub proof fn law_the_chip_shows_three_tools(entries: Seq<ToolVersionEntry>)
    ensures
        ({
            let order = in_shown_order(entries);
            let shown = |i: int| order[i].tool@ + " "@ + compact_version(order[i].version@);
            &&& entries.len() == 0 ==> chip_text(entries) is None
            &&& entries.len() == 1 ==> chip_text(entries) == Some(
                entries[0].tool@ + " "@ + compact_version(entries[0].version@),
            )
            &&& entries.len() == 2 ==> chip_text(entries) == Some(shown(0) + " • "@ + shown(1))
            &&& entries.len() >= 3 ==> chip_text(entries) == Some(
                shown(0) + " • "@ + shown(1) + " • "@ + shown(2),
            )
        }),
{
    law_display_order_keeps_the_entries(entries);
    let order = in_shown_order(entries);
    let texts = |n: nat| Seq::new(n, |i: int| entry_text(order[i]));
    if entries.len() >= 1 {
        assert(texts(1) =~= seq![entry_text(order[0])]);
        text::law_joining(Seq::empty(), entry_text(order[0]), " • "@);
        if entries.len() == 1 {
            assert(entries.drop_last() =~= Seq::<ToolVersionEntry>::empty());
            assert(in_shown_order(Seq::<ToolVersionEntry>::empty()) =~= Seq::<
                ToolVersionEntry,
            >::empty());
            assert(order =~= seq![entries[0]]);
        }
    }
    if entries.len() >= 2 {
        assert(texts(2) =~= texts(1).push(entry_text(order[1])));
        text::law_joining(texts(1), entry_text(order[1]), " • "@);
    }
    if entries.len() >= 3 {
        assert(texts(3) =~= texts(2).push(entry_text(order[2])));
        text::law_joining(texts(2), entry_text(order[2]), " • "@);
    }
}

/// What a report says of a tool: its name is the one that it is listed under, or else one of
/// its own; its version the installed one before the wanted one. Blank names and versions are
/// no report.
pub proof fn law_reports_of_tools(
    pairs: Seq<(Seq<char>, json::JsonTree)>,
    tool: Seq<char>,
    version: Seq<char>,
)
    ensures
        ({
            let tree = json::JsonTree::Object(pairs);
            let filled = text::trimmed(tool).len() > 0 && text::trimmed(version).len() > 0;
            &&& filled && tree.text_member("version"@) == Some(version) ==> {
                &&& entry_of(Some(tool), tree) matches Some(entry)
                &&& entry.tool == text::trimmed(tool)
                &&& entry.version == text::trimmed(version)
            }
            &&& filled && tree.text_member("version"@) is None && tree.text_member(
                "actual_version"@,
            ) == Some(version) ==> entry_of(Some(tool), tree) is Some && entry_of(
                Some(tool),
                tree,
            )->0.version == text::trimmed(version)
            &&& filled && tree.text_member("version"@) is None && tree.text_member(
                "actual_version"@,
            ) is None && tree.text_member("requested_version"@) == Some(version) ==> entry_of(
                Some(tool),
                tree,
            ) is Some && entry_of(Some(tool), tree)->0.version == text::trimmed(version)
            &&& filled && tree.text_member("version"@) == Some(version) && tree.text_member(
                "plugin_name"@,
            ) == Some(tool) ==> entry_of(None, tree) is Some && entry_of(None, tree)->0.tool
                == text::trimmed(tool)
            &&& filled && tree.text_member("version"@) == Some(version) && tree.text_member(
                "plugin_name"@,
            ) is None && tree.text_member("tool"@) == Some(tool) ==> entry_of(None, tree) is Some
                && entry_of(None, tree)->0.tool == text::trimmed(tool)
            &&& filled && tree.text_member("version"@) == Some(version) && tree.text_member(
                "plugin_name"@,
            ) is None && tree.text_member("tool"@) is None && tree.text_member("name"@) == Some(
                tool,
            ) ==> entry_of(None, tree) is Some && entry_of(None, tree)->0.tool == text::trimmed(
                tool,
            )
            &&& text::trimmed(tool).len() == 0 ==> entry_of(Some(tool), tree) is None
            &&& tree.text_member("version"@) is None && tree.text_member("actual_version"@) is None
                && tree.text_member("requested_version"@) is None ==> entry_of(
                Some(tool),
                tree,
            ) is None
            &&& tree.text_member("version"@) == Some(version) && text::trimmed(version).len() == 0
                ==> entry_of(Some(tool), tree) is None
            &&& entry_of(Some(tool), tree) matches Some(entry) ==> {
                &&& tree.text_member("source"@) is Some ==> entry.source == tree.text_member(
                    "source"@,
                )
                &&& tree.member("source"@) is None ==> entry.source is None
            }
        }),
{
}

/// The reports of an object are listed under the names of its members, an array of reports
/// each under its own; anything else holds none.
pub proof fn law_lists_of_tools(
    pairs: Seq<(Seq<char>, json::JsonTree)>,
    items: Seq<json::JsonTree>,
    name: Seq<char>,
    tree: json::JsonTree,
)
    requires
        tree is Object,
    ensures
        versions_of(None) == Seq::<ToolView>::empty(),
        versions_of(Some(json::JsonTree::Null)) == Seq::<ToolView>::empty(),
        versions_of(Some(json::JsonTree::Object(Seq::empty()))) == Seq::<ToolView>::empty(),
        entry_of(Some(name), tree) matches Some(entry) ==> versions_of(
            Some(json::JsonTree::Object(pairs.push((name, tree)))),
        ) == versions_of(Some(json::JsonTree::Object(pairs))).push(entry_of(Some(name), tree)->0),
        entry_of(Some(name), tree) is None ==> versions_of(
            Some(json::JsonTree::Object(pairs.push((name, tree)))),
        ) == versions_of(Some(json::JsonTree::Object(pairs))),
        entry_of(None, tree) matches Some(entry) ==> versions_of(
            Some(json::JsonTree::Array(items.push(tree))),
        ) == versions_of(Some(json::JsonTree::Array(items))).push(entry_of(None, tree)->0),
        entry_of(Some(name), tree) matches Some(entry) ==> entries_of(
            Some(name),
            json::JsonTree::Array(items.push(tree)),
        ) == entries_of(Some(name), json::JsonTree::Array(items)).push(
            entry_of(Some(name), tree)->0,
        ),
        versions_of(Some(json::JsonTree::Object(pairs.push((name, json::JsonTree::Array(items))))))
            == versions_of(Some(json::JsonTree::Object(pairs))) + entries_of(
            Some(name),
            json::JsonTree::Array(items),
        ),
{
    assert(pairs.push((name, tree)).drop_last() =~= pairs);
    assert(pairs.push((name, json::JsonTree::Array(items))).drop_last() =~= pairs);
    assert(items.push(tree).drop_last() =~= items);
    let object = versions_in_object(pairs);
    let array = versions_in_array(items);
    let inner = entries_in(Some(name), items);
    if let Some(entry) = entry_of(Some(name), tree) {
        assert(object + seq![entry] =~= object.push(entry));
        assert(inner + seq![entry] =~= inner.push(entry));
    }
    assert(object + Seq::<ToolView>::empty() =~= object);
    if let Some(entry) = entry_of(None, tree) {
        assert(array + seq![entry] =~= array.push(entry));
    }
}

/// Versions that nothing in the project or above it sets are global, and not shown.
pub proof fn law_versions_of_the_project(
    entries: Seq<ToolVersionEntry>,
    entry: ToolVersionEntry,
    target: mise::TargetView,
)
    ensures
        entry.source is None ==> version_scope(entry, target.dir()) == MiseTaskScope::ProjectRoot,
        entry.source matches Some(source) && local::source_scope(source@, target.dir()) is None
            ==> version_scope(entry, target.dir()) == MiseTaskScope::Global,
        entry.source matches Some(source) && local::source_scope(source@, target.dir()) == Some(
            MiseTaskScope::ParentDir,
        ) ==> version_scope(entry, target.dir()) == MiseTaskScope::ParentDir,
        versions_in_scope(Seq::empty(), target) == Seq::<ToolVersionEntry>::empty(),
        version_scope(entry, target.dir()) == MiseTaskScope::Global ==> versions_in_scope(
            entries.push(entry),
            target,
        ) == versions_in_scope(entries, target),
        version_scope(entry, target.dir()) != MiseTaskScope::Global ==> versions_in_scope(
            entries.push(entry),
            target,
        ) == versions_in_scope(entries, target).push(entry),
{
    reveal(Seq::filter);
    assert(entries.push(entry).drop_last() =~= entries);
    assert(Seq::<ToolVersionEntry>::empty().filter(
        |entry: ToolVersionEntry| version_scope(entry, target.dir()) != MiseTaskScope::Global,
    ) =~= Seq::<ToolVersionEntry>::empty());
}

/// Versions are asked for on every host, and on this machine in a configured project; the
/// second way of asking follows the first, and there is no third.
pub proof fn law_when_versions_are_asked_for(
    cwd: Seq<char>,
    own: Option<Seq<char>>,
    host: Seq<char>,
    argv: Seq<Seq<char>>,
    probes: Seq<mise::DirProbe>,
)
    ensures
        may_have_chip(mise::TargetView::Remote { host, cwd, ssh_argv: argv }, probes),
        may_have_chip(mise::TargetView::Local { cwd, binary_path: own }, probes) <==> (
        mise::nearest_config(cwd, probes) is Some),
        version_args(0) == Some(seq!["current"@, "--json"@]),
        version_args(1) == Some(seq!["ls"@, "--current"@, "--json"@]),
        version_args(2) is None,
{
}

} // verus!
