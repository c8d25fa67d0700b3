use crate::text::{
    chars_of, lemma_text_lt_total, lemma_text_lt_transitive, str_eq, text_less, text_lt,
};
use crate::area::Choice;
use crate::base::name::{NameData, same_name};
use crate::game::view::{ItemProfile, StoreStockView};
use crate::text::{concat, concat3, lowercase_spec, to_lowercase};
use vstd::prelude::*;

verus! {

/// A command that the interface offers the player: a full command, or a group of commands
/// under a text with a blank.
pub enum Suggestion {
    Simple(String),
    Recursive(String, Vec<Suggestion>),
}

impl Suggestion {
    /// The text shown for the suggestion.
    pub open spec fn text_view(&self) -> Seq<char> {
        match self {
            Suggestion::Simple(command) => command@,
            Suggestion::Recursive(text, _) => text@,
        }
    }

    /// Whether the suggestion is a group without commands.
    pub open spec fn is_empty_spec(&self) -> bool {
        self matches Suggestion::Recursive(_, suggestions) && suggestions.len() == 0
    }

    /// The suggestion with a group of one command replaced by that command.
    pub open spec fn flatten_spec(self) -> Suggestion {
        match self {
            Suggestion::Recursive(_, suggestions) => if suggestions.len() == 1 {
                suggestions[0]
            } else {
                self
            },
            _ => self,
        }
    }

    /// The text shown for the suggestion.
    pub fn text(&self) -> (s: &str)
        ensures
            s@ == self.text_view(),
    {
        match self {
            Suggestion::Simple(command) => command.as_str(),
            Suggestion::Recursive(text, _) => text.as_str(),
        }
    }

    /// Whether the suggestion is a group without commands.
    pub fn is_empty(&self) -> (r: bool)
        ensures
            r == self.is_empty_spec(),
    {
        match self {
            Suggestion::Recursive(_, suggestions) => suggestions.len() == 0,
            _ => false,
        }
    }

    /// The suggestion with a group of one command replaced by that command.
    pub fn flatten(self) -> (r: Suggestion)
        ensures
            r == self.flatten_spec(),
    {
        match self {
            Suggestion::Recursive(text, mut suggestions) => {
                if suggestions.len() == 1 {
                    suggestions.remove(0)
                } else {
                    Suggestion::Recursive(text, suggestions)
                }
            },
            suggestion => suggestion,
        }
    }
}

/// The suggestions that are kept for showing, in order: the groups with commands in them, each
/// group of one command replaced by the command.
pub open spec fn prepared(suggestions: Seq<Suggestion>) -> Seq<Suggestion>
    decreases suggestions.len(),
{
    if suggestions.len() == 0 {
        Seq::empty()
    } else {
        let rest = prepared(suggestions.drop_last());
        if suggestions.last().is_empty_spec() {
            rest
        } else {
            rest.push(suggestions.last().flatten_spec())
        }
    }
}

/// Whether the texts of the suggestions go strictly up in the order of strings.
pub open spec fn strictly_sorted(r: Seq<Suggestion>) -> bool {
    forall|i: int, j: int| 0 <= i < j < r.len() ==> text_lt(#[trigger] r[i].text_view(), #[trigger] r[j].text_view())
}

/// Whether `x` is the first suggestion in `s` with its text.
pub open spec fn first_with_text(s: Seq<Suggestion>, x: Suggestion) -> bool {
    exists|k: int| 0 <= k < s.len() && s[k] == x && forall|j: int| 0 <= j < k ==> #[trigger] s[j].text_view() != x.text_view()
}

/// Whether some suggestion of `r` has the text.
pub open spec fn text_shown(r: Seq<Suggestion>, text: Seq<char>) -> bool {
    exists|i: int| 0 <= i < r.len() && #[trigger] r[i].text_view() == text
}

/// Whether every text among `s` is the text of a suggestion in `r`.
pub open spec fn covers_texts(r: Seq<Suggestion>, s: Seq<Suggestion>) -> bool {
    forall|k: int| 0 <= k < s.len() ==> text_shown(r, #[trigger] s[k].text_view())
}

/// Appending a suggestion keeps every first suggestion of a text first.
proof fn lemma_first_kept(pre: Seq<Suggestion>, y: Suggestion, result: Seq<Suggestion>)
    requires
        forall|k: int| 0 <= k < result.len() ==> first_with_text(pre, #[trigger] result[k]),
    ensures
        forall|k: int| 0 <= k < result.len() ==> first_with_text(pre.push(y), #[trigger] result[k]),
{
    let post = pre.push(y);
    assert forall|k: int| 0 <= k < result.len() implies first_with_text(post, #[trigger] result[k]) by {
        assert(first_with_text(pre, result[k]));
        let w = choose|w: int|
            0 <= w < pre.len() && pre[w] == result[k] && forall|j: int|
                0 <= j < w ==> #[trigger] pre[j].text_view() != result[k].text_view();
        assert(post[w] == result[k]);
        assert forall|j: int| 0 <= j < w implies #[trigger] post[j].text_view() != result[k].text_view() by {
            assert(post[j] == pre[j]);
        }
    }
}

/// Appending a suggestion whose text is shown already keeps every text shown.
proof fn lemma_text_shown(pre: Seq<Suggestion>, y: Suggestion, result: Seq<Suggestion>, p: int)
    requires
        covers_texts(result, pre),
        0 <= p < result.len(),
        result[p].text_view() == y.text_view(),
    ensures
        covers_texts(result, pre.push(y)),
{
    let post = pre.push(y);
    assert forall|k: int| 0 <= k < post.len() implies text_shown(result, #[trigger] post[k].text_view()) by {
        if k < pre.len() {
            assert(post[k] == pre[k]);
        } else {
            assert(result[p].text_view() == post[k].text_view());
        }
    }
}

/// Inserting a suggestion where its text belongs keeps suggestions of other texts sorted.
proof fn lemma_insert_sorted(y: Suggestion, before: Seq<Suggestion>, q: int)
    requires
        strictly_sorted(before),
        forall|k: int| 0 <= k < before.len() ==> #[trigger] before[k].text_view() != y.text_view(),
        0 <= q <= before.len(),
        forall|k: int| 0 <= k < q ==> !text_lt(y.text_view(), #[trigger] before[k].text_view()),
        q < before.len() ==> text_lt(y.text_view(), before[q].text_view()),
    ensures
        strictly_sorted(before.insert(q, y)),
{
    let result = before.insert(q, y);
    assert forall|a: int, b: int| 0 <= a < b < result.len() implies text_lt(
        #[trigger] result[a].text_view(),
        #[trigger] result[b].text_view(),
    ) by {
        if a < q && b == q {
            assert(result[a] == before[a]);
            lemma_text_lt_total(before[a].text_view(), y.text_view());
        } else if a == q && b > q {
            assert(result[b] == before[b - 1]);
            if b - 1 > q {
                assert(text_lt(before[q].text_view(), before[b - 1].text_view()));
                lemma_text_lt_transitive(y.text_view(), before[q].text_view(), before[b - 1].text_view());
            }
        } else if a < q && b > q {
            assert(result[a] == before[a]);
            assert(result[b] == before[b - 1]);
            assert(text_lt(before[a].text_view(), before[b - 1].text_view()));
        } else if a > q {
            assert(result[a] == before[a - 1]);
            assert(result[b] == before[b - 1]);
            assert(text_lt(before[a - 1].text_view(), before[b - 1].text_view()));
        } else {
            assert(result[a] == before[a]);
            assert(result[b] == before[b]);
        }
    }
}

/// Inserting a suggestion of a new text keeps every shown suggestion the first of its text.
proof fn lemma_insert_first(pre: Seq<Suggestion>, y: Suggestion, before: Seq<Suggestion>, q: int)
    requires
        forall|k: int| 0 <= k < before.len() ==> first_with_text(pre, #[trigger] before[k]),
        covers_texts(before, pre),
        forall|k: int| 0 <= k < before.len() ==> #[trigger] before[k].text_view() != y.text_view(),
        0 <= q <= before.len(),
    ensures
        forall|k: int| 0 <= k < before.len() + 1 ==> first_with_text(pre.push(y), #[trigger] before.insert(q, y)[k]),
{
    let result = before.insert(q, y);
    let post = pre.push(y);
    lemma_first_kept(pre, y, before);
    assert forall|k: int| 0 <= k < result.len() implies first_with_text(post, #[trigger] result[k]) by {
        if k < q {
            assert(result[k] == before[k]);
            assert(first_with_text(post, before[k]));
        } else if k > q {
            assert(result[k] == before[k - 1]);
            assert(first_with_text(post, before[k - 1]));
        } else {
            assert(post[pre.len() as int] == y);
            assert forall|j: int| 0 <= j < pre.len() implies #[trigger] post[j].text_view() != y.text_view() by {
                assert(post[j] == pre[j]);
                let m = choose|m: int| 0 <= m < before.len() && #[trigger] before[m].text_view() == pre[j].text_view();
                assert(before[m].text_view() != y.text_view());
            }
        }
    }
}

/// Inserting a suggestion keeps every text shown, its own included.
proof fn lemma_insert_covers(pre: Seq<Suggestion>, y: Suggestion, before: Seq<Suggestion>, q: int)
    requires
        covers_texts(before, pre),
        0 <= q <= before.len(),
    ensures
        covers_texts(before.insert(q, y), pre.push(y)),
{
    let result = before.insert(q, y);
    let post = pre.push(y);
    assert forall|k: int| 0 <= k < post.len() implies text_shown(result, #[trigger] post[k].text_view()) by {
        if k < pre.len() {
            assert(post[k] == pre[k]);
            let m = choose|m: int| 0 <= m < before.len() && #[trigger] before[m].text_view() == pre[k].text_view();
            if m < q {
                assert(result[m] == before[m]);
                assert(result[m].text_view() == post[k].text_view());
            } else {
                assert(result[m + 1] == before[m]);
                assert(result[m + 1].text_view() == post[k].text_view());
            }
        } else {
            assert(result[q] == y);
            assert(result[q].text_view() == post[k].text_view());
        }
    }
}

/// Where a suggestion of a new text goes among sorted suggestions: before the first one whose
/// text comes after its own.
fn insert_position(result: &Vec<Suggestion>, y: &Suggestion) -> (q: usize)
    ensures
        q <= result.len(),
        forall|k: int| 0 <= k < q ==> !text_lt(y.text_view(), #[trigger] result@[k].text_view()),
        q < result.len() ==> text_lt(y.text_view(), result@[q as int].text_view()),
{
    let y_text = chars_of(y.text());
    let mut q: usize = 0;
    let mut placed = false;
    while q < result.len() && !placed
        invariant
            q <= result.len(),
            y_text@ == y.text_view(),
            placed ==> q < result.len() && text_lt(y.text_view(), result@[q as int].text_view()),
            forall|k: int| 0 <= k < q ==> !text_lt(y.text_view(), #[trigger] result@[k].text_view()),
        decreases result.len() - q + (if placed { 0int } else { 1int }),
    {
        if text_less(&y_text, &chars_of(result[q].text())) {
            placed = true;
        } else {
            q = q + 1;
        }
    }
    q
}

/// Where among the suggestions one has the text of `y`, if any does.
fn find_text(result: &Vec<Suggestion>, y: &Suggestion) -> (r: Option<usize>)
    ensures
        r matches Some(p) ==> p < result.len() && result@[p as int].text_view() == y.text_view(),
        r is None ==> forall|k: int| 0 <= k < result.len() ==> #[trigger] result@[k].text_view() != y.text_view(),
{
    let mut p: usize = 0;
    while p < result.len()
        invariant
            p <= result.len(),
            forall|k: int| 0 <= k < p ==> #[trigger] result@[k].text_view() != y.text_view(),
        decreases result.len() - p,
    {
        if str_eq(result[p].text(), y.text()) {
            return Some(p);
        }
        p = p + 1;
    }
    None
}

/// The suggestions to show: the prepared suggestions with one per text (the first), sorted by
/// text.
pub fn sorted_without_duplicates(suggestions: Vec<Suggestion>) -> (r: Vec<Suggestion>)
    ensures
        strictly_sorted(r@),
        forall|i: int| 0 <= i < r.len() ==> first_with_text(prepared(suggestions@), #[trigger] r@[i]),
        covers_texts(r@, prepared(suggestions@)),
{
    let ghost input = suggestions@;
    let mut remaining = suggestions;
    let mut result: Vec<Suggestion> = Vec::new();
    let ghost mut i: int = 0;
    assert(input.skip(0) =~= input);
    while remaining.len() > 0
        invariant
            0 <= i <= input.len(),
            remaining@ == input.skip(i),
            strictly_sorted(result@),
            forall|k: int| 0 <= k < result.len() ==> first_with_text(prepared(input.take(i)), #[trigger] result@[k]),
            covers_texts(result@, prepared(input.take(i))),
        decreases remaining.len(),
    {
        let ghost pre = prepared(input.take(i));
        let x = remaining.remove(0);
        assert(x == input[i]);
        assert(input.take(i + 1).drop_last() =~= input.take(i));
        assert(input.skip(i + 1) =~= input.skip(i).drop_first());
        proof {
            i = i + 1;
        }
        if !x.is_empty() {
            let y = x.flatten();
            assert(prepared(input.take(i)) == pre.push(y));
            match find_text(&result, &y) {
                Some(p) => {
                    proof {
                        lemma_first_kept(pre, y, result@);
                        lemma_text_shown(pre, y, result@, p as int);
                    }
                },
                None => {
                    let q = insert_position(&result, &y);
                    proof {
                        lemma_insert_sorted(y, result@, q as int);
                        lemma_insert_first(pre, y, result@, q as int);
                        lemma_insert_covers(pre, y, result@, q as int);
                    }
                    result.insert(q, y);
                },
            }
        }
    }
    assert(input.take(i) =~= input);
    result
}

/// Whether the suggestion is the command with this text.
pub open spec fn simple_is(s: Suggestion, text: Seq<char>) -> bool {
    s matches Suggestion::Simple(c) && c@ == text
}

/// Whether the suggestion is a group shown as `text` whose commands are those with the texts
/// `texts`, each text once, sorted.
pub open spec fn is_group_of(s: Suggestion, text: Seq<char>, texts: Seq<Seq<char>>) -> bool {
    &&& s matches Suggestion::Recursive(t, children)
    &&& t@ == text
    &&& strictly_sorted(children@)
    &&& forall|i: int|
        0 <= i < children.len() ==> (#[trigger] children@[i]) is Simple && texts.contains(children@[i].text_view())
    &&& forall|k: int| 0 <= k < texts.len() ==> text_shown(children@, #[trigger] texts[k])
}

/// Each text with the prefix before it.
pub open spec fn prefixed(prefix: Seq<char>, elements: Seq<Seq<char>>) -> Seq<Seq<char>> {
    elements.map_values(|e: Seq<char>| prefix + e)
}

/// Commands that are prepared as they are.
proof fn lemma_prepared_simple(commands: Seq<Suggestion>)
    requires
        forall|i: int| 0 <= i < commands.len() ==> (#[trigger] commands[i]) is Simple,
    ensures
        prepared(commands) == commands,
    decreases commands.len(),
{
    if commands.len() > 0 {
        lemma_prepared_simple(commands.drop_last());
        assert(commands.drop_last().push(commands.last()) =~= commands);
    }
}

/// The commands `prefix` followed by each element.
fn prefixed_commands(prefix: &str, elements: &Vec<String>) -> (r: Vec<Suggestion>)
    ensures
        r.len() == elements.len(),
        forall|i: int| 0 <= i < r.len() ==> simple_is(#[trigger] r@[i], prefix@ + elements@[i]@),
{
    let mut r: Vec<Suggestion> = Vec::new();
    let mut i: usize = 0;
    while i < elements.len()
        invariant
            i <= elements.len(),
            r.len() == i,
            forall|k: int| 0 <= k < i ==> simple_is(#[trigger] r@[k], prefix@ + elements@[k]@),
        decreases elements.len() - i,
    {
        r.push(Suggestion::Simple(concat(prefix, elements[i].as_str())));
        i = i + 1;
    }
    r
}

/// The group shown as `prefix` and a blank, of the commands `prefix` followed by each element.
fn group(prefix: &str, elements: &Vec<String>) -> (s: Suggestion)
    ensures
        is_group_of(s, prefix@ + "_"@, prefixed(prefix@, elements@.map_values(|e: String| e@))),
{
    let commands = prefixed_commands(prefix, elements);
    let ghost texts = prefixed(prefix@, elements@.map_values(|e: String| e@));
    let ghost cmds = commands@;
    proof {
        lemma_prepared_simple(cmds);
    }
    let children = sorted_without_duplicates(commands);
    proof {
        assert forall|i: int| 0 <= i < children.len() implies (#[trigger] children@[i]) is Simple && texts.contains(
            children@[i].text_view(),
        ) by {
            assert(first_with_text(cmds, children@[i]));
            let k = choose|k: int|
                0 <= k < cmds.len() && cmds[k] == children@[i] && forall|j: int|
                    0 <= j < k ==> #[trigger] cmds[j].text_view() != children@[i].text_view();
            assert(texts[k] == children@[i].text_view());
        }
        assert forall|k: int| 0 <= k < texts.len() implies text_shown(children@, #[trigger] texts[k]) by {
            assert(cmds[k].text_view() == texts[k]);
            assert(text_shown(children@, cmds[k].text_view()));
        }
    }
    Suggestion::Recursive(concat(prefix, "_"), children)
}

/// The names of the items.
pub open spec fn item_names(inventory: Seq<ItemProfile>) -> Seq<Seq<char>>
    decreases inventory.len(),
{
    if inventory.len() == 0 {
        Seq::empty()
    } else {
        item_names(inventory.drop_last()).push(inventory.last().name@)
    }
}

/// The names of the items that can be wielded and are not.
pub open spec fn wieldable_names(inventory: Seq<ItemProfile>) -> Seq<Seq<char>>
    decreases inventory.len(),
{
    if inventory.len() == 0 {
        Seq::empty()
    } else if inventory.last().is_wieldable && !inventory.last().is_wielded {
        wieldable_names(inventory.drop_last()).push(inventory.last().name@)
    } else {
        wieldable_names(inventory.drop_last())
    }
}

/// The names of the items that can be used.
pub open spec fn usable_names(inventory: Seq<ItemProfile>) -> Seq<Seq<char>>
    decreases inventory.len(),
{
    if inventory.len() == 0 {
        Seq::empty()
    } else if inventory.last().is_usable {
        usable_names(inventory.drop_last()).push(inventory.last().name@)
    } else {
        usable_names(inventory.drop_last())
    }
}

/// Which items' names to take: all, those that can be wielded and are not, or the usable ones.
enum ItemFilter {
    All,
    Wieldable,
    Usable,
}

/// The names of the items that pass the filter.
fn filtered_names(inventory: &Vec<ItemProfile>, filter: ItemFilter) -> (r: Vec<String>)
    ensures
        r@.map_values(|e: String| e@) == (match filter {
            ItemFilter::All => item_names(inventory@),
            ItemFilter::Wieldable => wieldable_names(inventory@),
            ItemFilter::Usable => usable_names(inventory@),
        }),
{
    let mut r: Vec<String> = Vec::new();
    let mut i: usize = 0;
    while i < inventory.len()
        invariant
            i <= inventory.len(),
            r@.map_values(|e: String| e@) == (match filter {
                ItemFilter::All => item_names(inventory@.take(i as int)),
                ItemFilter::Wieldable => wieldable_names(inventory@.take(i as int)),
                ItemFilter::Usable => usable_names(inventory@.take(i as int)),
            }),
        decreases inventory.len() - i,
    {
        let item = &inventory[i];
        assert(inventory@.take(i + 1).drop_last() =~= inventory@.take(i as int));
        let keep = match filter {
            ItemFilter::All => true,
            ItemFilter::Wieldable => item.is_wieldable && !item.is_wielded,
            ItemFilter::Usable => item.is_usable,
        };
        let ghost before = r@;
        if keep {
            r.push(item.name().to_owned());
            assert(r@.map_values(|e: String| e@) =~= before.map_values(|e: String| e@).push(item.name@));
        }
        i = i + 1;
    }
    assert(inventory@.take(inventory.len() as int) =~= inventory@);
    r
}

/// What can be done with an entity that the player points at.
#[derive(Copy, Clone, Debug, PartialEq, Eq, Structural)]
pub enum InteractionType {
    Item,
    Container,
    Wieldable,
    Door,
    Forceable,
    ShipControls,
    Openable,
    CrewMember,
    Controlled,
    Shopkeeper,
    Recruitable,
    Talkable,
    Waiting,
    Following,
    Foe,
    Tameable,
}

/// Whether the suggestions are the commands with these texts, in order.
pub open spec fn simples_are(r: Seq<Suggestion>, texts: Seq<Seq<char>>) -> bool {
    r.len() == texts.len() && forall|i: int| 0 <= i < r.len() ==> simple_is(#[trigger] r[i], texts[i])
}

impl InteractionType {
    /// What `commands` suggests for an entity named `name` (already in lower case), the
    /// controlled character carrying `inventory`.
    pub open spec fn commands_spec(self, name: Seq<char>, inventory: Seq<ItemProfile>, r: Seq<Suggestion>) -> bool {
        match self {
            InteractionType::Item => simples_are(r, seq!["take "@ + name, "check "@ + name]),
            InteractionType::Container => simples_are(r, seq!["search "@ + name]),
            InteractionType::Wieldable => simples_are(r, seq!["wield "@ + name]),
            InteractionType::Door => simples_are(r, seq!["enter "@ + name]),
            InteractionType::Forceable => simples_are(r, seq!["force "@ + name]),
            InteractionType::ShipControls => simples_are(r, seq!["launch ship"@, "refuel ship"@]),
            InteractionType::Openable => simples_are(r, seq!["open "@ + name]),
            InteractionType::CrewMember => {
                &&& r.len() == 5
                &&& simples_are(
                    r.take(4),
                    seq!["control "@ + name, "status"@, "rest"@, "tell "@ + name + " to wait at ship"@],
                )
                &&& is_group_of(
                    r[4],
                    "give "@ + name + " _"@,
                    prefixed("give "@ + name + " "@, item_names(inventory)),
                )
            },
            InteractionType::Controlled => {
                &&& r.len() == 7
                &&& simples_are(r.take(4), seq!["status"@, "rest"@, "wait"@, "go to ship"@])
                &&& is_group_of(r[4], "wield _"@, prefixed("wield "@, wieldable_names(inventory)))
                &&& is_group_of(r[5], "use _"@, prefixed("use "@, usable_names(inventory)))
                &&& is_group_of(r[6], "check _"@, prefixed("check "@, item_names(inventory)))
            },
            InteractionType::Shopkeeper => simples_are(r, seq!["trade"@]),
            InteractionType::Recruitable => simples_are(r, seq!["recruit "@ + name]),
            InteractionType::Talkable => simples_are(r, seq!["talk to "@ + name]),
            InteractionType::Waiting => simples_are(r, seq!["tell "@ + name + " to follow"@]),
            InteractionType::Following => simples_are(r, seq!["tell "@ + name + " to wait"@]),
            InteractionType::Foe => simples_are(r, seq!["attack "@ + name]),
            InteractionType::Tameable => simples_are(r, seq!["tame "@ + name]),
        }
    }

    /// The commands for an entity named `name`, the name taken in lower case.
    pub fn commands(self, name: &str, inventory: &Vec<ItemProfile>) -> (r: Vec<Suggestion>)
        ensures
            self.commands_spec(lowercase_spec(name@), inventory@, r@),
    {
        let name = to_lowercase(name);
        self.commands_for_lowercase(name.as_str(), inventory)
    }

    /// The commands for an entity named `name`, which is in lower case already.
    pub fn commands_for_lowercase(self, name: &str, inventory: &Vec<ItemProfile>) -> (r: Vec<Suggestion>)
        ensures
            self.commands_spec(name@, inventory@, r@),
    {
        proof {
            reveal_strlit("take ");
            reveal_strlit("check ");
            reveal_strlit("status");
            reveal_strlit("rest");
            reveal_strlit("wait");
            reveal_strlit("go to ship");
            reveal_strlit("launch ship");
            reveal_strlit("refuel ship");
            reveal_strlit("trade");
        }
        let r = match self {
            InteractionType::Item => vec![
                Suggestion::Simple(concat("take ", name)),
                Suggestion::Simple(concat("check ", name)),
            ],
            InteractionType::Container => vec![Suggestion::Simple(concat("search ", name))],
            InteractionType::Wieldable => vec![Suggestion::Simple(concat("wield ", name))],
            InteractionType::Door => vec![Suggestion::Simple(concat("enter ", name))],
            InteractionType::Forceable => vec![Suggestion::Simple(concat("force ", name))],
            InteractionType::ShipControls => vec![
                Suggestion::Simple("launch ship".to_owned()),
                Suggestion::Simple("refuel ship".to_owned()),
            ],
            InteractionType::Openable => vec![Suggestion::Simple(concat("open ", name))],
            InteractionType::CrewMember => {
                let give_prefix = concat3("give ", name, " ");
                let names = filtered_names(inventory, ItemFilter::All);
                let give = group(give_prefix.as_str(), &names);
                let r = vec![
                    Suggestion::Simple(concat("control ", name)),
                    Suggestion::Simple("status".to_owned()),
                    Suggestion::Simple("rest".to_owned()),
                    Suggestion::Simple(concat3("tell ", name, " to wait at ship")),
                    give,
                ];
                assert("give "@ + name@ + " "@ + "_"@ =~= "give "@ + name@ + " _"@) by {
                    reveal_strlit(" ");
                    reveal_strlit("_");
                    reveal_strlit(" _");
                }
                r
            },
            InteractionType::Controlled => {
                let wieldable = filtered_names(inventory, ItemFilter::Wieldable);
                let usable = filtered_names(inventory, ItemFilter::Usable);
                let all = filtered_names(inventory, ItemFilter::All);
                vec![
                    Suggestion::Simple("status".to_owned()),
                    Suggestion::Simple("rest".to_owned()),
                    Suggestion::Simple("wait".to_owned()),
                    Suggestion::Simple("go to ship".to_owned()),
                    group("wield ", &wieldable),
                    group("use ", &usable),
                    group("check ", &all),
                ]
            },
            InteractionType::Shopkeeper => vec![Suggestion::Simple("trade".to_owned())],
            InteractionType::Recruitable => vec![Suggestion::Simple(concat("recruit ", name))],
            InteractionType::Talkable => vec![Suggestion::Simple(concat("talk to ", name))],
            InteractionType::Waiting => vec![Suggestion::Simple(concat3("tell ", name, " to follow"))],
            InteractionType::Following => vec![Suggestion::Simple(concat3("tell ", name, " to wait"))],
            InteractionType::Foe => vec![Suggestion::Simple(concat("attack ", name))],
            InteractionType::Tameable => vec![Suggestion::Simple(concat("tame ", name))],
        };
        proof {
            reveal_strlit("wield ");
            reveal_strlit("use ");
            reveal_strlit("_");
            reveal_strlit("wield _");
            reveal_strlit("use _");
            reveal_strlit("check _");
            assert("wield "@ + "_"@ =~= "wield _"@);
            assert("use "@ + "_"@ =~= "use _"@);
            assert("check "@ + "_"@ =~= "check _"@);
        }
        r
    }
}

/// What the game knows of an entity that decides how it can be interacted with.
pub struct EntityTraits {
    pub is_item: bool,
    pub can_wield: bool,
    pub is_container: bool,
    /// Whether it is a door, and if so whether its pair is blocked.
    pub door: Option<bool>,
    pub is_fortuna_chest: bool,
    pub is_controlled: bool,
    /// Whether it is a crew member with a character.
    pub is_crew_character: bool,
    pub is_waiting: bool,
    pub is_ship_controls: bool,
    pub is_shopkeeper: bool,
    /// Whether it is a recruitable character.
    pub is_recruitable_character: bool,
    /// Whether it is a character with a name.
    pub is_named_character: bool,
    pub is_alive: bool,
    pub is_hostile: bool,
    pub is_recruitable: bool,
}

/// `x` where `cond` holds, and nothing otherwise.
pub open spec fn when(cond: bool, x: InteractionType) -> Seq<InteractionType> {
    if cond {
        seq![x]
    } else {
        seq![]
    }
}

/// The interactions that an entity offers, in the order in which they are listed.
pub open spec fn interactions_spec(t: EntityTraits) -> Seq<InteractionType> {
    let crew = !t.is_controlled && t.is_crew_character;
    let foe = t.is_hostile && t.is_alive;
    when(t.is_item, InteractionType::Item) + when(t.can_wield, InteractionType::Wieldable) + when(
        t.is_container,
        InteractionType::Container,
    ) + when(t.door is Some, InteractionType::Door) + when(t.door == Some(true), InteractionType::Forceable) + when(
        t.is_fortuna_chest,
        InteractionType::Openable,
    ) + when(crew, InteractionType::CrewMember) + when(crew && t.is_waiting, InteractionType::Waiting) + when(
        crew && !t.is_waiting,
        InteractionType::Following,
    ) + when(t.is_controlled, InteractionType::Controlled) + when(t.is_ship_controls, InteractionType::ShipControls)
        + when(t.is_shopkeeper, InteractionType::Shopkeeper) + when(
        t.is_recruitable_character,
        InteractionType::Recruitable,
    ) + when(!t.is_controlled && t.is_named_character && t.is_alive, InteractionType::Talkable) + when(
        foe,
        InteractionType::Foe,
    ) + when(foe && t.is_recruitable, InteractionType::Tameable)
}

fn push_when(r: &mut Vec<InteractionType>, cond: bool, x: InteractionType)
    ensures
        final(r)@ == old(r)@ + when(cond, x),
{
    if cond {
        r.push(x);
    }
    assert(final(r)@ =~= old(r)@ + when(cond, x));
}

/// The interactions that an entity with these traits offers.
pub fn interactions_for(t: &EntityTraits) -> (r: Vec<InteractionType>)
    ensures
        r@ == interactions_spec(*t),
{
    let mut r: Vec<InteractionType> = Vec::new();
    let is_door = t.door.is_some();
    let crew = !t.is_controlled && t.is_crew_character;
    let foe = t.is_hostile && t.is_alive;
    push_when(&mut r, t.is_item, InteractionType::Item);
    assert(r@ =~= when(t.is_item, InteractionType::Item));
    push_when(&mut r, t.can_wield, InteractionType::Wieldable);
    push_when(&mut r, t.is_container, InteractionType::Container);
    push_when(&mut r, is_door, InteractionType::Door);
    push_when(&mut r, t.door == Some(true), InteractionType::Forceable);
    push_when(&mut r, t.is_fortuna_chest, InteractionType::Openable);
    push_when(&mut r, crew, InteractionType::CrewMember);
    push_when(&mut r, crew && t.is_waiting, InteractionType::Waiting);
    push_when(&mut r, crew && !t.is_waiting, InteractionType::Following);
    push_when(&mut r, t.is_controlled, InteractionType::Controlled);
    push_when(&mut r, t.is_ship_controls, InteractionType::ShipControls);
    push_when(&mut r, t.is_shopkeeper, InteractionType::Shopkeeper);
    push_when(&mut r, t.is_recruitable_character, InteractionType::Recruitable);
    push_when(&mut r, !t.is_controlled && t.is_named_character && t.is_alive, InteractionType::Talkable);
    push_when(&mut r, foe, InteractionType::Foe);
    push_when(&mut r, foe && t.is_recruitable, InteractionType::Tameable);
    r
}

/// How many of the names are the same as `name`.
pub open spec fn count_same(names: Seq<NameData>, name: NameData) -> nat
    decreases names.len(),
{
    if names.len() == 0 {
        0
    } else {
        count_same(names.drop_last(), name) + (if same_name(names.last(), name) { 1nat } else { 0nat })
    }
}

/// The base names of the items.
pub open spec fn base_names(names: Seq<NameData>) -> Seq<Seq<char>>
    decreases names.len(),
{
    if names.len() == 0 {
        Seq::empty()
    } else {
        base_names(names.drop_last()).push(names.last().base_view())
    }
}

/// The plural names of the items whose name occurs more than once among `all`.
pub open spec fn repeated_plurals(names: Seq<NameData>, all: Seq<NameData>) -> Seq<Seq<char>>
    decreases names.len(),
{
    if names.len() == 0 {
        Seq::empty()
    } else if count_same(all, names.last()) > 1 {
        repeated_plurals(names.drop_last(), all).push(names.last().plural_view())
    } else {
        repeated_plurals(names.drop_last(), all)
    }
}

fn count_same_names(names: &Vec<NameData>, name: &NameData) -> (n: usize)
    ensures
        n == count_same(names@, *name),
{
    let mut n: usize = 0;
    let mut i: usize = 0;
    while i < names.len()
        invariant
            i <= names.len(),
            n == count_same(names@.take(i as int), *name),
            n <= i,
        decreases names.len() - i,
    {
        assert(names@.take(i + 1).drop_last() =~= names@.take(i as int));
        if names[i].same_as(name) {
            n = n + 1;
        }
        i = i + 1;
    }
    assert(names@.take(names.len() as int) =~= names@);
    n
}

/// The suggestions while trading: status, exit, selling each item, selling all of an item the
/// crew has more than one of, and buying the clicked stock where it is not sold out.
pub fn for_store(clicked_stock: Option<&StoreStockView>, sellable_items: &Vec<NameData>) -> (r: Vec<Suggestion>)
    ensures
        simples_are(r@.take(2), seq!["status"@, "exit"@]),
        is_group_of(r@[2], "sell _"@, prefixed("sell "@, base_names(sellable_items@))),
        is_group_of(r@[3], "sell all _"@, prefixed("sell all "@, repeated_plurals(sellable_items@, sellable_items@))),
        match clicked_stock {
            Some(stock) => if stock.quantity != crate::base::store::StockQuantity::Count(0) {
                r.len() == 5 && simple_is(r@[4], "buy "@ + stock.item_noun.singular_view())
            } else {
                r.len() == 4
            },
            None => r.len() == 4,
        },
{
    let mut bases: Vec<String> = Vec::new();
    let mut plurals: Vec<String> = Vec::new();
    let mut i: usize = 0;
    while i < sellable_items.len()
        invariant
            i <= sellable_items.len(),
            bases@.map_values(|e: String| e@) == base_names(sellable_items@.take(i as int)),
            plurals@.map_values(|e: String| e@) == repeated_plurals(sellable_items@.take(i as int), sellable_items@),
        decreases sellable_items.len() - i,
    {
        assert(sellable_items@.take(i + 1).drop_last() =~= sellable_items@.take(i as int));
        let ghost before_bases = bases@;
        let ghost before_plurals = plurals@;
        bases.push(sellable_items[i].base());
        assert(bases@.map_values(|e: String| e@) =~= before_bases.map_values(|e: String| e@).push(
            sellable_items@[i as int].base_view(),
        ));
        if count_same_names(sellable_items, &sellable_items[i]) > 1 {
            plurals.push(sellable_items[i].plural());
            assert(plurals@.map_values(|e: String| e@) =~= before_plurals.map_values(|e: String| e@).push(
                sellable_items@[i as int].plural_view(),
            ));
        }
        i = i + 1;
    }
    assert(sellable_items@.take(sellable_items.len() as int) =~= sellable_items@);
    proof {
        reveal_strlit("status");
        reveal_strlit("exit");
        reveal_strlit("sell ");
        reveal_strlit("sell all ");
        reveal_strlit("_");
        reveal_strlit("sell _");
        reveal_strlit("sell all _");
        assert("sell "@ + "_"@ =~= "sell _"@);
        assert("sell all "@ + "_"@ =~= "sell all _"@);
    }
    let mut suggestions = vec![
        Suggestion::Simple("status".to_owned()),
        Suggestion::Simple("exit".to_owned()),
        group("sell ", &bases),
        group("sell all ", &plurals),
    ];
    match clicked_stock {
        Some(stock) => {
            if !stock.quantity.is_zero() {
                suggestions.push(Suggestion::Simple(concat("buy ", stock.item_noun.singular())));
            }
        },
        None => {},
    }
    suggestions
}

/// The suggestions when choosing a location: one command per alternative, in order.
pub fn for_location_choice(choice: &Choice) -> (r: Vec<Suggestion>)
    ensures
        r.len() == choice.0.len(),
        forall|i: int| 0 <= i < r.len() ==> simple_is(#[trigger] r@[i], choice.0@[i].1@),
{
    let names = choice.alternatives();
    let mut r: Vec<Suggestion> = Vec::new();
    let mut i: usize = 0;
    while i < names.len()
        invariant
            i <= names.len(),
            names.len() == choice.0.len(),
            forall|k: int| 0 <= k < names.len() ==> names[k] == choice.0[k].1,
            r.len() == i,
            forall|k: int| 0 <= k < i ==> simple_is(#[trigger] r@[k], choice.0@[k].1@),
        decreases names.len() - i,
    {
        r.push(Suggestion::Simple(names[i].clone()));
        i = i + 1;
    }
    r
}

} // verus!
