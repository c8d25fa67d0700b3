use crate::game::view::Messages;
use crate::random::{random_below, sample_two_indices};
use crate::text::{chars_of, concat5, to_ascii_lower, ascii_lower};
use rand::rngs::ThreadRng;
use vstd::prelude::*;

verus! {

/// The background art of an area.
#[derive(Copy, Clone, Debug, Eq, PartialEq, Hash)]
pub enum BackgroundType {
    Blank,
    LocationChoice,
    Ship,
    ForestEntrance,
    Forest,
    Field,
    Shack,
    FacilityOutside,
    FacilitySize3,
    FacilitySize4,
    FacilitySize5,
    FacilitySize6,
    FacilitySize7,
}

/// How far the ship is from being able to leave.
#[derive(Copy, Clone, Debug, Eq, PartialEq)]
pub enum ShipStatus {
    NeedTwoCans,
    NeedOneCan,
    Launching,
}

/// A group of locations that one choice on the next planet can lead to.
pub struct Category {
    pub name: String,
    pub location_names: Vec<String>,
}

/// The locations that are left to visit.
pub struct Locations {
    pub categories: Vec<Category>,
    pub fortuna_locations: Vec<String>,
}

/// How many locations are left in the categories from index `n` on.
pub open spec fn count_in_categories(categories: Seq<Category>) -> int
    decreases categories.len(),
{
    if categories.len() == 0 {
        0
    } else {
        count_in_categories(categories.drop_last()) + categories.last().location_names.len()
    }
}

pub proof fn lemma_count_update(categories: Seq<Category>, i: int, c: Category)
    requires
        0 <= i < categories.len(),
    ensures
        count_in_categories(categories.update(i, c)) == count_in_categories(categories)
            - categories[i].location_names.len() + c.location_names.len(),
    decreases categories.len(),
{
    if i < categories.len() - 1 {
        assert(categories.update(i, c).drop_last() == categories.drop_last().update(i, c));
        lemma_count_update(categories.drop_last(), i, c);
    } else {
        assert(categories.update(i, c).drop_last() == categories.drop_last());
    }
}

pub proof fn lemma_count_remove(categories: Seq<Category>, i: int)
    requires
        0 <= i < categories.len(),
    ensures
        count_in_categories(categories.remove(i)) == count_in_categories(categories)
            - categories[i].location_names.len(),
    decreases categories.len(),
{
    if i < categories.len() - 1 {
        assert(categories.remove(i).drop_last() == categories.drop_last().remove(i));
        lemma_count_remove(categories.drop_last(), i);
    } else {
        assert(categories.remove(i) == categories.drop_last());
    }
}

/// Whether `after` is `before` with the location `name` taken out of the category at `ci`: it
/// is one of that category's locations, only that one place of it leaves, the category is
/// dropped once it has no location left, and all else stays.
pub open spec fn took_location(before: Locations, after: Locations, ci: int, name: String) -> bool {
    let names = before.categories@[ci].location_names@;
    exists|k: int|
        #![trigger names[k]]
        0 <= k < names.len() && names[k] == name && after.fortuna_locations == before.fortuna_locations && if names.len()
            == 1 {
            after.categories@ == before.categories@.remove(ci)
        } else {
            &&& after.categories.len() == before.categories.len()
            &&& forall|j: int|
                0 <= j < before.categories.len() && j != ci ==> #[trigger] after.categories@[j] == before.categories@[j]
            &&& after.categories@[ci].name == before.categories@[ci].name
            &&& after.categories@[ci].location_names@ == names.remove(k)
        }
}

/// Whether `after` is the fortuna list `before` with the location `name` taken out of it: it is
/// one of them, and only that one place of it leaves.
pub open spec fn took_fortuna(before: Seq<String>, after: Seq<String>, name: String) -> bool {
    exists|k: int| #![trigger before[k]] 0 <= k < before.len() && before[k] == name && after == before.remove(k)
}

impl Locations {
    /// No category is empty, so that each one can be picked from.
    pub open spec fn wf(&self) -> bool {
        forall|i: int|
            0 <= i < self.categories.len() ==> #[trigger] self.categories[i].location_names.len() > 0
    }

    /// How many locations are left, the fortuna locations included.
    pub open spec fn count(&self) -> int {
        count_in_categories(self.categories@) + self.fortuna_locations.len()
    }

    /// One category, named "test", that holds just `location`.
    pub fn single(location: String) -> (l: Self)
        ensures
            l.wf(),
            l.categories.len() == 1,
            l.categories[0].location_names@ == seq![location],
            l.fortuna_locations.len() == 0,
            l.count() == 1,
    {
        let mut names = Vec::new();
        names.push(location);
        let mut categories = Vec::new();
        categories.push(Category { name: "test".to_owned(), location_names: names });
        let l = Locations { categories, fortuna_locations: Vec::new() };
        assert(l.categories@.drop_last().len() == 0);
        assert(count_in_categories(l.categories@.drop_last()) == 0);
        assert(l.categories@.last() == l.categories@[0]);
        l
    }

    /// Offers the next pick: nothing when no category is left, the only category's pick when one
    /// is left, and otherwise a choice between two different categories.
    pub fn next(&mut self, rng: &mut ThreadRng) -> (r: PickResult)
        requires
            old(self).wf(),
        ensures
            final(self).wf(),
            old(self).categories.len() == 0 ==> r is Nothing && *final(self) == *old(self),
            old(self).categories.len() == 1 ==> (r matches PickResult::Location(name) && old(
                self,
            ).categories[0].location_names@.contains(name) && final(self).count() == old(self).count()
                - 1),
            old(self).categories.len() == 1 ==> final(self).fortuna_locations == old(self).fortuna_locations,
            old(self).categories.len() == 1 ==> (r matches PickResult::Location(name) && took_location(
                *old(self),
                *final(self),
                0,
                name,
            )),
            old(self).categories.len() == 1 && old(self).categories[0].location_names.len() == 1
                ==> final(self).categories.len() == 0,
            old(self).categories.len() == 1 && old(self).categories[0].location_names.len() > 1
                ==> final(self).categories.len() == 1,
            old(self).categories.len() >= 2 ==> (r matches PickResult::Choice(choice) && choice.0.len()
                == 2 && choice.0[0].0 != choice.0[1].0 && (forall|k: int|
                0 <= k < 2 ==> #[trigger] choice.0[k].0 < old(self).categories.len() && choice.0[k].1
                    == old(self).categories[choice.0[k].0 as int].name) && *final(self) == *old(
                self,
            )),
    {
        if self.categories.len() == 0 {
            return PickResult::Nothing;
        }
        if self.categories.len() == 1 {
            return PickResult::Location(self.pick_from_category(0, rng));
        }
        let indices = sample_two_indices(rng, self.categories.len());
        let mut alternatives = Vec::new();
        let i0 = indices[0];
        let i1 = indices[1];
        alternatives.push((i0, self.categories[i0].name.clone()));
        alternatives.push((i1, self.categories[i1].name.clone()));
        PickResult::Choice(Choice(alternatives))
    }

    /// Takes one location, at random, out of the category at `category_index`, and drops the
    /// category once it has no location left.
    pub fn pick_from_category(&mut self, category_index: usize, rng: &mut ThreadRng) -> (r: String)
        requires
            old(self).wf(),
            category_index < old(self).categories.len(),
        ensures
            final(self).wf(),
            old(self).categories[category_index as int].location_names@.contains(r),
            final(self).count() == old(self).count() - 1,
            final(self).fortuna_locations == old(self).fortuna_locations,
            old(self).categories[category_index as int].location_names.len() == 1
                ==> final(self).categories.len() == old(self).categories.len() - 1,
            old(self).categories[category_index as int].location_names.len() > 1
                ==> final(self).categories.len() == old(self).categories.len(),
            took_location(*old(self), *final(self), category_index as int, r),
    {
        let ghost before = self.categories@;
        let mut category = self.categories.remove(category_index);
        let ghost old_names = category.location_names@;
        assert(category.location_names.len() > 0);
        let chosen = random_below(rng, category.location_names.len());
        let ghost category_name = category.name;
        let chosen_location = category.location_names.remove(chosen);
        assert(old_names[chosen as int] == chosen_location);
        assert(category.location_names@ == old_names.remove(chosen as int));
        proof {
            lemma_count_remove(before, category_index as int);
        }
        if category.location_names.len() > 0 {
            let ghost removed = self.categories@;
            self.categories.insert(category_index, category);
            proof {
                assert(self.categories@ == before.update(category_index as int, category));
                lemma_count_update(before, category_index as int, category);
                assert forall|i: int| 0 <= i < self.categories.len() implies #[trigger] self.categories[i].location_names.len() > 0 by {
                    if i != category_index {
                        assert(self.categories[i] == before[i]);
                    }
                }
                assert(old_names[chosen as int] == chosen_location);
                assert forall|j: int|
                    0 <= j < before.len() && j != category_index implies #[trigger] self.categories@[j] == before[j] by {}
            }
        } else {
            proof {
                assert forall|i: int| 0 <= i < self.categories.len() implies #[trigger] self.categories[i].location_names.len() > 0 by {
                    if i < category_index {
                        assert(self.categories[i] == before[i]);
                    } else {
                        assert(self.categories[i] == before[i + 1]);
                    }
                }
                assert(old_names[chosen as int] == chosen_location);
            }
        }
        chosen_location
    }

    /// Takes one fortuna location, at random, if any is left.
    pub fn pick_fortuna_location(&mut self, rng: &mut ThreadRng) -> (r: PickResult)
        ensures
            final(self).categories == old(self).categories,
            old(self).fortuna_locations.len() == 0 ==> r is Nothing && final(self).fortuna_locations
                == old(self).fortuna_locations,
            old(self).fortuna_locations.len() > 0 ==> (r matches PickResult::Location(name) && old(
                self,
            ).fortuna_locations@.contains(name) && final(self).fortuna_locations.len() == old(
                self,
            ).fortuna_locations.len() - 1 && took_fortuna(
                old(self).fortuna_locations@,
                final(self).fortuna_locations@,
                name,
            )),
    {
        if self.fortuna_locations.len() == 0 {
            return PickResult::Nothing;
        }
        let ghost before = self.fortuna_locations@;
        let chosen = random_below(rng, self.fortuna_locations.len());
        let location = self.fortuna_locations.remove(chosen);
        assert(before[chosen as int] == location);
        assert(took_fortuna(before, self.fortuna_locations@, location));
        PickResult::Location(location)
    }
}

/// What the ship's next destination is.
pub enum PickResult {
    Nothing,
    Location(String),
    Choice(Choice),
}

/// Two categories for the player to choose from, by index and by name.
#[derive(Clone, Debug)]
pub struct Choice(pub Vec<(usize, String)>);

impl Choice {
    /// The messages that present the choice.
    pub fn present(&self) -> (messages: Messages)
        requires
            self.0.len() >= 2,
        ensures
            messages.0.len() == 2,
            messages.0[0]@ == "On the next planet, there are two destination targets: "@
                + self.0[0].1@ + ", "@ + self.0[1].1@,
            messages.0[1]@ == "Pick the location to travel to next."@,
    {
        let alternatives = &self.0;
        let mut messages = Messages::new();
        messages.add(
            concat5(
                "On the next planet, there are two destination targets: ",
                alternatives[0].1.as_str(),
                ", ",
                alternatives[1].1.as_str(),
                "",
            ),
        );
        assert(""@.len() == 0) by {
            reveal_strlit("");
        }
        assert(messages.0[0]@ == "On the next planet, there are two destination targets: "@
            + self.0[0].1@ + ", "@ + self.0[1].1@);
        messages.add("Pick the location to travel to next.".to_owned());
        messages
    }

    /// The names of the alternatives.
    pub fn alternatives(&self) -> (names: Vec<String>)
        ensures
            names.len() == self.0.len(),
            forall|i: int| 0 <= i < names.len() ==> names[i] == self.0[i].1,
    {
        let mut names = Vec::new();
        let mut i: usize = 0;
        while i < self.0.len()
            invariant
                i <= self.0.len(),
                names.len() == i,
                forall|k: int| 0 <= k < i ==> names[k] == self.0[k].1,
            decreases self.0.len() - i,
        {
            names.push(self.0[i].1.clone());
            i = i + 1;
        }
        names
    }

    /// The category of the first alternative whose name equals `input`, ignoring ASCII case.
    pub fn try_choose(&self, input: &str) -> (r: Option<usize>)
        ensures
            r is Some <==> exists|i: int|
                0 <= i < self.0.len() && eq_ignore_ascii_case(#[trigger] self.0[i].1@, input@),
            r matches Some(index) ==> exists|i: int|
                0 <= i < self.0.len() && eq_ignore_ascii_case(#[trigger] self.0[i].1@, input@)
                    && self.0[i].0 == index && forall|j: int|
                    0 <= j < i ==> !eq_ignore_ascii_case(#[trigger] self.0[j].1@, input@),
    {
        let input_chars = chars_of(input);
        let mut i: usize = 0;
        while i < self.0.len()
            invariant
                i <= self.0.len(),
                input_chars@ == input@,
                forall|j: int| 0 <= j < i ==> !eq_ignore_ascii_case(#[trigger] self.0[j].1@, input@),
            decreases self.0.len() - i,
        {
            let name = chars_of(self.0[i].1.as_str());
            if chars_eq_ignore_ascii_case(&name, &input_chars) {
                return Some(self.0[i].0);
            }
            i = i + 1;
        }
        None
    }
}

/// Equality of two texts when ASCII letters are compared without regard to case
/// (`str::eq_ignore_ascii_case`).
pub open spec fn eq_ignore_ascii_case(a: Seq<char>, b: Seq<char>) -> bool {
    a.len() == b.len() && forall|i: int| 0 <= i < a.len() ==> ascii_lower(#[trigger] a[i]) == ascii_lower(b[i])
}

/// Decides [`eq_ignore_ascii_case`].
pub fn chars_eq_ignore_ascii_case(a: &Vec<char>, b: &Vec<char>) -> (r: bool)
    ensures
        r == eq_ignore_ascii_case(a@, b@),
{
    if a.len() != b.len() {
        return false;
    }
    let mut i: usize = 0;
    while i < a.len()
        invariant
            i <= a.len() == b.len(),
            forall|k: int| 0 <= k < i ==> ascii_lower(#[trigger] a@[k]) == ascii_lower(b@[k]),
        decreases a.len() - i,
    {
        if to_ascii_lower(a[i]) != to_ascii_lower(b[i]) {
            return false;
        }
        i = i + 1;
    }
    true
}

/// Where the crew is on its way to the fortuna chest.
#[derive(Eq, PartialEq)]
pub enum TrackedState {
    BeforeFortuna { remaining_locations_count: i32 },
    AtFortuna,
}

/// Which locations the crew visits next.
pub struct LocationTracker {
    locations: Locations,
    state: TrackedState,
}

impl LocationTracker {
    /// The locations that are left.
    pub closed spec fn locations_view(&self) -> &Locations {
        &self.locations
    }

    /// Where the crew is on its way.
    pub closed spec fn state_view(&self) -> TrackedState {
        self.state
    }

    /// Visits `locations_before_fortuna` locations from `locations` before the fortuna chest.
    pub fn new(locations: Locations, locations_before_fortuna: i32) -> (t: Self)
        ensures
            *t.locations_view() == locations,
            t.state_view() == (TrackedState::BeforeFortuna {
                remaining_locations_count: locations_before_fortuna,
            }),
    {
        Self {
            locations,
            state: TrackedState::BeforeFortuna { remaining_locations_count: locations_before_fortuna },
        }
    }

    /// Visits just `location`.
    pub fn single(location: String) -> (t: Self)
        ensures
            t.locations_view().categories.len() == 1,
            t.locations_view().categories[0].location_names@ == seq![location],
            t.locations_view().fortuna_locations.len() == 0,
            t.state_view() == (TrackedState::BeforeFortuna { remaining_locations_count: 1 }),
    {
        Self {
            locations: Locations::single(location),
            state: TrackedState::BeforeFortuna { remaining_locations_count: 1 },
        }
    }

    /// Picks where to go next. At the fortuna chest nothing is left; when no regular location is
    /// due any more, the crew turns to a fortuna location; otherwise one regular location is due
    /// less, and the locations offer a pick.
    pub fn next(&mut self, rng: &mut ThreadRng) -> (r: PickResult)
        requires
            old(self).locations_view().wf(),
        ensures
            final(self).locations_view().wf(),
            old(self).state_view() is AtFortuna ==> r is Nothing && final(self).state_view() is AtFortuna
                && *final(self).locations_view() == *old(self).locations_view(),
            old(self).state_view() matches TrackedState::BeforeFortuna { remaining_locations_count }
                ==> (if remaining_locations_count <= 0 {
                &&& final(self).state_view() is AtFortuna
                &&& final(self).locations_view().categories == old(self).locations_view().categories
                &&& (r is Location ==> old(self).locations_view().fortuna_locations@.contains(r->Location_0))
                &&& (r is Nothing <==> old(self).locations_view().fortuna_locations.len() == 0)
                &&& (r is Location <==> old(self).locations_view().fortuna_locations.len() > 0)
                &&& (r is Nothing ==> final(self).locations_view().fortuna_locations
                    == old(self).locations_view().fortuna_locations)
                &&& (r is Location ==> final(self).locations_view().fortuna_locations.len()
                    == old(self).locations_view().fortuna_locations.len() - 1)
                &&& (r matches PickResult::Location(name) ==> took_fortuna(
                    old(self).locations_view().fortuna_locations@,
                    final(self).locations_view().fortuna_locations@,
                    name,
                ))
            } else {
                let before = *old(self).locations_view();
                let after = *final(self).locations_view();
                &&& final(self).state_view() == (TrackedState::BeforeFortuna {
                    remaining_locations_count: (remaining_locations_count - 1) as i32,
                })
                &&& (before.categories.len() == 0 ==> r is Nothing && after == before)
                &&& (before.categories.len() == 1 ==> {
                    &&& r matches PickResult::Location(name) && before.categories[0].location_names@.contains(name)
                        && took_location(before, after, 0, name)
                    &&& after.count() == before.count() - 1
                    &&& after.fortuna_locations == before.fortuna_locations
                    &&& (before.categories[0].location_names.len() == 1 ==> after.categories.len() == 0)
                    &&& (before.categories[0].location_names.len() > 1 ==> after.categories.len() == 1)
                })
                &&& (before.categories.len() >= 2 ==> r is Choice && after == before)
            }),
    {
        match self.state {
            TrackedState::AtFortuna => PickResult::Nothing,
            TrackedState::BeforeFortuna { remaining_locations_count } => {
                if remaining_locations_count <= 0 {
                    self.state = TrackedState::AtFortuna;
                    return self.locations.pick_fortuna_location(rng);
                }
                self.state = TrackedState::BeforeFortuna {
                    remaining_locations_count: remaining_locations_count - 1,
                };
                self.locations.next(rng)
            },
        }
    }

    /// Takes the location that the player chose, or fails where the input names no alternative.
    pub fn try_make_choice(&mut self, choice: &Choice, input: &str, rng: &mut ThreadRng) -> (r: Result<String, String>)
        requires
            old(self).locations_view().wf(),
            forall|i: int|
                0 <= i < choice.0.len() ==> #[trigger] choice.0[i].0 < old(
                    self,
                ).locations_view().categories.len(),
        ensures
            final(self).locations_view().wf(),
            final(self).state_view() == old(self).state_view(),
            r is Err <==> choice.try_choose_spec(input@) is None,
            r matches Err(e) ==> e@ == "Unexpected input: \""@ + input@ + "\""@,
            r matches Ok(name) ==> old(self).locations_view().categories[choice.try_choose_spec(
                input@,
            )->0 as int].location_names@.contains(name) && final(self).locations_view().count()
                == old(self).locations_view().count() - 1,
            r is Err ==> *final(self) == *old(self),
            r matches Ok(name) ==> took_location(
                *old(self).locations_view(),
                *final(self).locations_view(),
                choice.try_choose_spec(input@)->0 as int,
                name,
            ),
    {
        let category_index = match choice.try_choose(input) {
            Some(i) => i,
            None => {
                return Err(crate::text::concat3("Unexpected input: \"", input, "\""));
            },
        };
        proof {
            let i = choose|i: int|
                0 <= i < choice.0.len() && eq_ignore_ascii_case(#[trigger] choice.0[i].1@, input@)
                    && choice.0[i].0 == category_index && forall|j: int|
                    0 <= j < i ==> !eq_ignore_ascii_case(#[trigger] choice.0[j].1@, input@);
            choice.lemma_first_match(input@, i);
        }
        Ok(self.locations.pick_from_category(category_index, rng))
    }

    /// Whether the crew has reached the fortuna chest.
    pub fn is_at_fortuna(&self) -> (r: bool)
        ensures
            r == (self.state_view() is AtFortuna),
    {
        match self.state {
            TrackedState::AtFortuna => true,
            _ => false,
        }
    }
}

impl Choice {
    /// The position of the first alternative named `input`, ignoring ASCII case.
    pub open spec fn first_match(&self, input: Seq<char>, i: int) -> bool {
        0 <= i < self.0.len() && eq_ignore_ascii_case(self.0[i].1@, input) && forall|j: int|
            0 <= j < i ==> !eq_ignore_ascii_case(#[trigger] self.0[j].1@, input)
    }

    /// The category that `try_choose` gives for `input`.
    pub open spec fn try_choose_spec(&self, input: Seq<char>) -> Option<usize> {
        if exists|i: int| self.first_match(input, i) {
            Some(self.0[choose|i: int| self.first_match(input, i)].0)
        } else {
            None
        }
    }

    pub proof fn lemma_first_match(&self, input: Seq<char>, i: int)
        requires
            self.first_match(input, i),
        ensures
            self.try_choose_spec(input) == Some(self.0[i].0),
    {
        let k = choose|k: int| self.first_match(input, k);
        if k < i {
            assert(!eq_ignore_ascii_case(self.0[k].1@, input));
        } else if k > i {
            assert(!eq_ignore_ascii_case(self.0[i].1@, input));
        }
    }
}

} // verus!
