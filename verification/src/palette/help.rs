//! The list of key bindings.

use vstd::prelude::*;
use vstd::string::*;
use crate::palette::entry;
use crate::palette::entry::{
    list_with_way_back, push_entry, ActionView, EntryView, PaletteAction, PaletteEntry,
};
use crate::text;
use crate::text::comes_before;

verus! {

/// An action with the keys that it is bound to.
#[derive(Clone, Debug, PartialEq, Eq)]
pub struct EffectiveBinding {
    /// The position of the action's category among the categories.
    pub category: usize,
    pub display_name: String,
    pub trigger: Option<String>,
    /// Whether the user changed the binding.
    pub customized: bool,
}

/// The mathematical value of an [`EffectiveBinding`].
pub struct BindingView {
    pub category: usize,
    pub display_name: Seq<char>,
    pub trigger: Option<Seq<char>>,
    pub customized: bool,
}

impl DeepView for EffectiveBinding {
    type V = BindingView;

    open spec fn deep_view(&self) -> BindingView {
        BindingView {
            category: self.category,
            display_name: self.display_name@,
            trigger: self.trigger.deep_view(),
            customized: self.customized,
        }
    }
}

/// A list in the order of names, with one more binding put behind all whose names do not
/// come later.
pub open spec fn placed(list: Seq<BindingView>, binding: BindingView) -> Seq<BindingView>
    decreases list.len(),
{
    if list.len() > 0 && text::text_before(binding.display_name, list.last().display_name) {
        placed(list.drop_last(), binding).push(list.last())
    } else {
        list.push(binding)
    }
}

/// The bindings of a category, in the order of their names.
pub open spec fn category_bindings(bindings: Seq<BindingView>, category: int) -> Seq<BindingView>
    decreases bindings.len(),
{
    if bindings.len() == 0 {
        Seq::empty()
    } else {
        let before = category_bindings(bindings.drop_last(), category);
        if bindings.last().category == category {
            placed(before, bindings.last())
        } else {
            before
        }
    }
}

/// The entry of a binding.
pub open spec fn binding_entry(binding: BindingView) -> EntryView {
    EntryView {
        label: if binding.customized {
            binding.display_name + " (customized)"@
        } else {
            binding.display_name
        },
        shortcut: Some(
            match binding.trigger {
                Some(trigger) => trigger,
                None => "unbound"@,
            },
        ),
        action: ActionView::Noop,
    }
}

/// The entries of a category; none where it has no bindings.
pub open spec fn category_entries(title: Seq<char>, group: Seq<BindingView>) -> Seq<EntryView> {
    if group.len() == 0 {
        Seq::empty()
    } else {
        seq![entry::plain("— "@ + title + " —"@, ActionView::Noop)] + group.map_values(
            |binding: BindingView| binding_entry(binding),
        )
    }
}

/// The entries of the first `n` categories.
pub open spec fn categories_entries(
    titles: Seq<Seq<char>>,
    bindings: Seq<BindingView>,
    n: nat,
) -> Seq<EntryView>
    decreases n,
{
    if n == 0 {
        Seq::empty()
    } else {
        categories_entries(titles, bindings, (n - 1) as nat) + category_entries(
            titles[n - 1],
            category_bindings(bindings, n - 1),
        )
    }
}

/// The entries of the list of key bindings.
pub open spec fn help_entries(titles: Seq<Seq<char>>, bindings: Seq<BindingView>) -> Seq<
    EntryView,
> {
    seq![entry::back_entry()] + categories_entries(titles, bindings, titles.len())
}

/// Where a binding is placed in a list.
proof fn lemma_placed_at(list: Seq<BindingView>, binding: BindingView, p: int)
    requires
        0 <= p <= list.len(),
        p > 0 ==> !text::text_before(binding.display_name, list[p - 1].display_name),
        forall|i: int|
            p <= i < list.len() ==> text::text_before(
                binding.display_name,
                (#[trigger] list[i]).display_name,
            ),
    ensures
        placed(list, binding) == list.insert(p, binding),
    decreases list.len(),
{
    if p < list.len() {
        let short = list.drop_last();
        assert(text::text_before(binding.display_name, list[list.len() - 1].display_name));
        lemma_placed_at(short, binding, p);
        assert(short.insert(p, binding).push(list.last()) =~= list.insert(p, binding));
    } else {
        assert(list.push(binding) =~= list.insert(p, binding));
    }
}

/// The positions of a category's bindings, in the order of their names.
fn category_positions(bindings: &Vec<EffectiveBinding>, category: usize) -> (r: Vec<usize>)
    ensures
        r@.len() == category_bindings(bindings.deep_view(), category as int).len(),
        forall|i: int|
            0 <= i < r@.len() ==> (#[trigger] r@[i]) < bindings.len() && bindings.deep_view()[r@[i] as int]
                == category_bindings(bindings.deep_view(), category as int)[i],
{
    let ghost all = bindings.deep_view();
    let mut out: Vec<usize> = Vec::new();
    let mut n: usize = 0;
    while n < bindings.len()
        invariant
            all == bindings.deep_view(),
            n <= bindings.len(),
            out@.len() == category_bindings(all.take(n as int), category as int).len(),
            out@.len() <= n,
            forall|i: int|
                0 <= i < out@.len() ==> (#[trigger] out@[i]) < n && all[out@[i] as int]
                    == category_bindings(all.take(n as int), category as int)[i],
        decreases bindings.len() - n,
    {
        let ghost list = category_bindings(all.take(n as int), category as int);
        assert(all.take(n + 1).drop_last() =~= all.take(n as int));
        assert(all[n as int] == bindings[n as int].deep_view());
        if bindings[n].category == category {
            let mut p: usize = out.len();
            while p > 0 && comes_before(
                bindings[n].display_name.as_str(),
                bindings[out[p - 1]].display_name.as_str(),
            )
                invariant
                    all == bindings.deep_view(),
                    n < bindings.len(),
                    out@.len() == list.len(),
                    p <= out@.len(),
                    forall|i: int|
                        0 <= i < out@.len() ==> (#[trigger] out@[i]) < n && all[out@[i] as int]
                            == list[i],
                    forall|i: int|
                        p <= i < list.len() ==> text::text_before(
                            all[n as int].display_name,
                            (#[trigger] list[i]).display_name,
                        ),
                ensures
                    p > 0 ==> !text::text_before(
                        all[n as int].display_name,
                        list[p - 1].display_name,
                    ),
                decreases p,
            {
                assert(all[out@[p - 1] as int] == bindings[out@[p - 1] as int].deep_view());
                p -= 1;
            }
            proof {
                if p > 0 {
                    assert(all[out@[p - 1] as int] == list[p - 1]);
                }
                lemma_placed_at(list, all[n as int], p as int);
            }
            let ghost before = out@;
            out.insert(p, n);
            n += 1;
            assert forall|i: int| 0 <= i < out@.len() implies (#[trigger] out@[i]) < n
                && all[out@[i] as int] == category_bindings(all.take(n as int), category as int)[i] by {
                if i < p {
                    assert(out@[i] == before[i]);
                } else if i > p {
                    assert(out@[i] == before[i - 1]);
                }
            }
        } else {
            n += 1;
        }
    }
    assert(all.take(n as int) =~= all);
    out
}

/// The entries of the list of key bindings: the way back, and for each category that has
/// bindings a heading and its bindings in the order of their names.
pub fn build_keybinding_help_entries(titles: &Vec<String>, bindings: &Vec<EffectiveBinding>) -> (r:
    Vec<PaletteEntry>)
    ensures
        r.deep_view() == help_entries(titles.deep_view(), bindings.deep_view()),
{
    let mut entries = list_with_way_back();
    let ghost head = entries.deep_view();
    let ghost heads = titles.deep_view();
    let ghost all = bindings.deep_view();
    let mut c: usize = 0;
    assert(entries.deep_view() =~= head + categories_entries(heads, all, 0));
    while c < titles.len()
        invariant
            heads == titles.deep_view(),
            all == bindings.deep_view(),
            c <= titles.len(),
            entries.deep_view() == head + categories_entries(heads, all, c as nat),
        decreases titles.len() - c,
    {
        let positions = category_positions(bindings, c);
        let ghost group = category_bindings(all, c as int);
        let ghost done = entries.deep_view();
        if positions.len() > 0 {
            let mut heading = "— ".to_owned();
            heading.append(titles[c].as_str());
            heading.append(" —");
            push_entry(&mut entries, heading, None, PaletteAction::Noop);
            let ghost opened = entries.deep_view();
            let ghost rows = group.map_values(|binding: BindingView| binding_entry(binding));
            let mut i: usize = 0;
            assert(entries.deep_view() =~= opened + rows.take(0));
            while i < positions.len()
                invariant
                    all == bindings.deep_view(),
                    positions@.len() == group.len(),
                    forall|k: int|
                        0 <= k < positions@.len() ==> (#[trigger] positions@[k]) < bindings.len()
                            && all[positions@[k] as int] == group[k],
                    rows == group.map_values(|binding: BindingView| binding_entry(binding)),
                    i <= positions.len(),
                    entries.deep_view() == opened + rows.take(i as int),
                decreases positions.len() - i,
            {
                let binding = &bindings[positions[i]];
                assert(group[i as int] == binding.deep_view());
                let mut label = binding.display_name.clone();
                if binding.customized {
                    label.append(" (customized)");
                }
                let shortcut = match &binding.trigger {
                    Some(trigger) => trigger.clone(),
                    None => "unbound".to_owned(),
                };
                push_entry(&mut entries, label, Some(shortcut), PaletteAction::Noop);
                assert(entries.deep_view() =~= opened + rows.take(i + 1));
                i += 1;
            }
            assert(rows.take(i as int) =~= rows);
        }
        assert(heads[c as int] == titles[c as int]@);
        assert(entries.deep_view() =~= done + category_entries(heads[c as int], group));
        c += 1;
        assert(entries.deep_view() =~= head + categories_entries(heads, all, c as nat));
    }
    entries
}

/// A placed binding is in the list, and so is what was there before.
proof fn lemma_placed_contains(list: Seq<BindingView>, binding: BindingView, other: BindingView)
    ensures
        placed(list, binding).contains(other) <==> list.contains(other) || other == binding,
    decreases list.len(),
{
    let out = placed(list, binding);
    if list.len() > 0 && text::text_before(binding.display_name, list.last().display_name) {
        let short = list.drop_last();
        lemma_placed_contains(short, binding, other);
        let inner = placed(short, binding);
        if list.contains(other) {
            let k = choose|k: int| 0 <= k < list.len() && list[k] == other;
            if k < short.len() {
                assert(short[k] == other);
            }
        }
        if short.contains(other) {
            let k = choose|k: int| 0 <= k < short.len() && short[k] == other;
            assert(list[k] == other);
        }
        if inner.contains(other) {
            let k = choose|k: int| 0 <= k < inner.len() && inner[k] == other;
            assert(out[k] == other);
        }
        if other == list.last() {
            assert(out[inner.len() as int] == other);
            assert(list[list.len() - 1] == other);
        }
        if out.contains(other) {
            let k = choose|k: int| 0 <= k < out.len() && out[k] == other;
            if k < inner.len() {
                assert(inner[k] == other);
            }
        }
    } else {
        if list.contains(other) {
            let k = choose|k: int| 0 <= k < list.len() && list[k] == other;
            assert(out[k] == other);
        }
        assert(out[list.len() as int] == binding);
        if out.contains(other) {
            let k = choose|k: int| 0 <= k < out.len() && out[k] == other;
            if k < list.len() {
                assert(list[k] == other);
            }
        }
    }
}

/// The bindings of a category are those that name it.
proof fn lemma_category_contains(bindings: Seq<BindingView>, category: int, binding: BindingView)
    ensures
        category_bindings(bindings, category).contains(binding) <==> bindings.contains(binding)
            && binding.category == category,
    decreases bindings.len(),
{
    if bindings.len() > 0 {
        let short = bindings.drop_last();
        let last = bindings.last();
        let before = category_bindings(short, category);
        lemma_category_contains(short, category, binding);
        if last.category == category {
            lemma_placed_contains(before, last, binding);
        }
        if bindings.contains(binding) {
            let k = choose|k: int| 0 <= k < bindings.len() && bindings[k] == binding;
            if k < short.len() {
                assert(short[k] == binding);
            }
        }
        if short.contains(binding) {
            let k = choose|k: int| 0 <= k < short.len() && short[k] == binding;
            assert(bindings[k] == binding);
        }
        assert(bindings[bindings.len() - 1] == last);
    }
}

/// The list shows every binding whose category it has a title for.
pub proof fn law_every_binding_is_listed(
    titles: Seq<Seq<char>>,
    bindings: Seq<BindingView>,
    binding: BindingView,
)
    requires
        bindings.contains(binding),
        binding.category < titles.len(),
    ensures
        help_entries(titles, bindings).contains(binding_entry(binding)),
{
    lemma_listed_up_to(titles, bindings, binding, titles.len());
    let rows = categories_entries(titles, bindings, titles.len());
    let k = choose|k: int| 0 <= k < rows.len() && rows[k] == binding_entry(binding);
    assert(help_entries(titles, bindings)[k + 1] == binding_entry(binding));
}

/// The first `n` categories show every binding of theirs.
proof fn lemma_listed_up_to(
    titles: Seq<Seq<char>>,
    bindings: Seq<BindingView>,
    binding: BindingView,
    n: nat,
)
    requires
        bindings.contains(binding),
        binding.category < n,
    ensures
        categories_entries(titles, bindings, n).contains(binding_entry(binding)),
    decreases n,
{
    let before = categories_entries(titles, bindings, (n - 1) as nat);
    let group = category_bindings(bindings, n - 1);
    let own = category_entries(titles[n - 1], group);
    let all = categories_entries(titles, bindings, n);
    if binding.category == n - 1 {
        lemma_category_contains(bindings, n - 1, binding);
        let k = choose|k: int| 0 <= k < group.len() && group[k] == binding;
        assert(own[k + 1] == binding_entry(binding));
        assert(all[before.len() + k + 1] == binding_entry(binding));
    } else {
        lemma_listed_up_to(titles, bindings, binding, (n - 1) as nat);
        let k = choose|k: int| 0 <= k < before.len() && before[k] == binding_entry(binding);
        assert(all[k] == binding_entry(binding));
    }
}

/// A binding is shown with its name, marked where the user changed it, and with its keys or
/// that it has none; choosing it does nothing.
pub proof fn law_rows_of_bindings(binding: BindingView, trigger: Seq<char>)
    ensures
        !binding.customized ==> binding_entry(binding).label == binding.display_name,
        binding.customized ==> binding_entry(binding).label == binding.display_name
            + " (customized)"@,
        binding.trigger == Some(trigger) ==> binding_entry(binding).shortcut == Some(trigger),
        binding.trigger is None ==> binding_entry(binding).shortcut == Some("unbound"@),
        binding_entry(binding).action is Noop,
{
}

/// The bindings of a category stand under its title; a category without any is left out.
pub proof fn law_categories_have_titles(title: Seq<char>, group: Seq<BindingView>, i: int)
    ensures
        group.len() == 0 ==> category_entries(title, group) == Seq::<EntryView>::empty(),
        group.len() > 0 ==> category_entries(title, group).len() == group.len() + 1
            && category_entries(title, group)[0].label == "— "@ + title + " —"@
            && category_entries(title, group)[0].action is Noop,
        0 <= i < group.len() ==> category_entries(title, group)[i + 1] == binding_entry(group[i]),
{
}

/// A category has the bindings that belong to it and no others, in the order of their names.
pub proof fn law_bindings_of_a_category(bindings: Seq<BindingView>, category: int)
    ensures
        forall|i: int|
            0 <= i < category_bindings(bindings, category).len() ==> (
            #[trigger] category_bindings(bindings, category)[i]).category == category,
        forall|i: int, j: int|
            0 <= i < j < category_bindings(bindings, category).len() ==> !text::text_before(
                (#[trigger] category_bindings(bindings, category)[j]).display_name,
                (#[trigger] category_bindings(bindings, category)[i]).display_name,
            ),
    decreases bindings.len(),
{
    if bindings.len() > 0 {
        let before = category_bindings(bindings.drop_last(), category);
        law_bindings_of_a_category(bindings.drop_last(), category);
        if bindings.last().category == category {
            lemma_placed_keeps(before, bindings.last(), category);
        }
    }
}

/// Putting a binding in its place keeps the order.
proof fn lemma_placed_keeps(list: Seq<BindingView>, binding: BindingView, category: int)
    requires
        binding.category == category,
        forall|i: int| 0 <= i < list.len() ==> (#[trigger] list[i]).category == category,
        forall|i: int, j: int|
            0 <= i < j < list.len() ==> !text::text_before(
                (#[trigger] list[j]).display_name,
                (#[trigger] list[i]).display_name,
            ),
    ensures
        placed(list, binding).len() == list.len() + 1,
        forall|i: int|
            0 <= i < placed(list, binding).len() ==> (#[trigger] placed(list, binding)[i]).category
                == category,
        forall|i: int, j: int|
            0 <= i < j < placed(list, binding).len() ==> !text::text_before(
                (#[trigger] placed(list, binding)[j]).display_name,
                (#[trigger] placed(list, binding)[i]).display_name,
            ),
        forall|i: int|
            0 <= i < placed(list, binding).len() ==> (#[trigger] placed(list, binding)[i])
                == binding || list.contains(placed(list, binding)[i]),
    decreases list.len(),
{
    let after = placed(list, binding);
    if list.len() > 0 && text::text_before(binding.display_name, list.last().display_name) {
        let rest = list.drop_last();
        let last = list.last();
        let inner = placed(rest, binding);
        lemma_placed_keeps(rest, binding, category);
        assert forall|i: int| 0 <= i < after.len() implies (#[trigger] after[i]) == binding
            || list.contains(after[i]) by {
            if i < inner.len() {
                assert(after[i] == inner[i]);
                if inner[i] != binding {
                    let k = choose|k: int| 0 <= k < rest.len() && rest[k] == inner[i];
                    assert(list[k] == inner[i]);
                }
            } else {
                assert(list[list.len() - 1] == last);
            }
        }
        assert forall|i: int, j: int| 0 <= i < j < after.len() implies !text::text_before(
            (#[trigger] after[j]).display_name,
            (#[trigger] after[i]).display_name,
        ) by {
            if j < inner.len() {
                assert(after[i] == inner[i] && after[j] == inner[j]);
            } else {
                assert(after[j] == last && after[i] == inner[i]);
                if inner[i] == binding {
                    text::lemma_text_order(binding.display_name, last.display_name);
                } else {
                    let k = choose|k: int| 0 <= k < rest.len() && rest[k] == inner[i];
                    assert(list[k] == inner[i]);
                    assert(list[list.len() - 1] == last);
                }
            }
        }
    } else {
        assert forall|i: int| 0 <= i < after.len() implies (#[trigger] after[i]) == binding
            || list.contains(after[i]) by {
            if i < list.len() {
                assert(after[i] == list[i]);
            }
        }
        assert forall|i: int, j: int| 0 <= i < j < after.len() implies !text::text_before(
            (#[trigger] after[j]).display_name,
            (#[trigger] after[i]).display_name,
        ) by {
            assert(after[i] == list[i]);
            if j < list.len() {
                assert(after[j] == list[j]);
            } else {
                assert(after[j] == binding);
                if text::text_before(binding.display_name, list[i].display_name) {
                    let last = list.last();
                    if i < list.len() - 1 {
                        assert(!text::text_before(
                            list[list.len() - 1].display_name,
                            list[i].display_name,
                        ));
                        text::lemma_text_order(last.display_name, list[i].display_name);
                        text::lemma_text_order(binding.display_name, last.display_name);
                        if last.display_name != list[i].display_name {
                            text::lemma_text_order_transitive(
                                binding.display_name,
                                list[i].display_name,
                                last.display_name,
                            );
                        }
                    }
                }
            }
        }
    }
}

/// The help begins with the way back and goes through the categories in their order.
pub proof fn law_the_help_goes_through_the_categories(
    titles: Seq<Seq<char>>,
    title: Seq<char>,
    bindings: Seq<BindingView>,
)
    ensures
        help_entries(titles, bindings)[0] == entry::back_entry(),
        help_entries(titles.push(title), bindings) == help_entries(titles, bindings)
            + category_entries(title, category_bindings(bindings, titles.len() as int)),
        help_entries(Seq::empty(), bindings) == seq![entry::back_entry()],
{
    lemma_same_titles(titles, titles.push(title), bindings, titles.len());
    assert(titles.push(title)[titles.len() as int] == title);
    assert(help_entries(titles.push(title), bindings) =~= help_entries(titles, bindings)
        + category_entries(title, category_bindings(bindings, titles.len() as int)));
    assert(help_entries(Seq::empty(), bindings) =~= seq![entry::back_entry()]);
}

proof fn lemma_same_titles(
    a: Seq<Seq<char>>,
    b: Seq<Seq<char>>,
    bindings: Seq<BindingView>,
    n: nat,
)
    requires
        n <= a.len(),
        n <= b.len(),
        forall|i: int| 0 <= i < n ==> #[trigger] a[i] == b[i],
    ensures
        categories_entries(a, bindings, n) == categories_entries(b, bindings, n),
    decreases n,
{
    if n > 0 {
        lemma_same_titles(a, b, bindings, (n - 1) as nat);
        assert(a[n - 1] == b[n - 1]);
    }
}

} // verus!
