use crate::base::EntityId;
use crate::random::{random_below, sample_two_indices};
use rand::rngs::ThreadRng;
use crate::text::{chars_of, concat, concat4, concat5, string_of, vec_chars_eq};
use vstd::prelude::*;

verus! {

/// The first position at or after `i` where `s` holds `c`.
pub open spec fn find_from(s: Seq<char>, i: int, c: char) -> Option<int>
    decreases s.len() - i,
{
    if i < 0 || i >= s.len() {
        None
    } else if s[i] == c {
        Some(i)
    } else {
        find_from(s, i + 1, c)
    }
}

pub proof fn lemma_find_from(s: Seq<char>, i: int, c: char)
    ensures
        find_from(s, i, c) matches Some(j) ==> 0 <= i <= j < s.len() && s[j] == c && forall|k: int|
            i <= k < j ==> s[k] != c,
        find_from(s, i, c) is None ==> forall|k: int| 0 <= i <= k < s.len() ==> s[k] != c,
    decreases s.len() - i,
{
    if 0 <= i < s.len() && s[i] != c {
        lemma_find_from(s, i + 1, c);
    }
}

/// The value bound to `key`: the latest binding wins, and an unknown key reads as `???`.
pub open spec fn lookup_value(entries: Seq<(Seq<char>, Seq<char>)>, key: Seq<char>) -> Seq<char>
    decreases entries.len(),
{
    if entries.len() == 0 {
        "???"@
    } else if entries.last().0 == key {
        entries.last().1
    } else {
        lookup_value(entries.drop_last(), key)
    }
}

/// Replaces each `{key}` of `text` by the value bound to `key`, from left to right.
pub open spec fn resolve_text(entries: Seq<(Seq<char>, Seq<char>)>, text: Seq<char>) -> Seq<char>
    decreases text.len(),
{
    match find_from(text, 0, '{') {
        Some(start) => match find_from(text, start, '}') {
            Some(end) => {
                proof {
                    lemma_find_from(text, 0, '{');
                    lemma_find_from(text, start, '}');
                }
                text.take(start) + lookup_value(entries, text.subrange(start + 1, end))
                    + resolve_text(entries, text.skip(end + 1))
            },
            None => text,
        },
        None => text,
    }
}

/// Text substitutions for dialogue: each key is bound to the text that replaces `{key}`.
pub struct TextResolutionContext {
    resolver_map: Vec<(String, String)>,
}

impl TextResolutionContext {
    /// The bindings, oldest first.
    pub closed spec fn entries(&self) -> Seq<(Seq<char>, Seq<char>)> {
        self.resolver_map@.map_values(|e: (String, String)| (e.0@, e.1@))
    }

    /// A context without bindings.
    pub fn new() -> (c: Self)
        ensures
            c.entries() == Seq::<(Seq<char>, Seq<char>)>::empty(),
    {
        let c = TextResolutionContext { resolver_map: Vec::new() };
        assert(c.entries() =~= Seq::<(Seq<char>, Seq<char>)>::empty());
        c
    }

    /// Binds `key` to `value`; a later binding of the same key replaces an earlier one.
    pub fn add_resolver(&mut self, key: &str, value: String)
        ensures
            final(self).entries() == old(self).entries().push((key@, value@)),
    {
        let ghost before = self.entries();
        self.resolver_map.push((key.to_owned(), value));
        assert(self.entries() =~= before.push((key@, value@)));
    }

    fn lookup(&self, key: &Vec<char>) -> (v: String)
        ensures
            v@ == lookup_value(self.entries(), key@),
    {
        let mut i = self.resolver_map.len();
        assert(self.entries().take(i as int) == self.entries());
        while i > 0
            invariant
                i <= self.resolver_map.len(),
                lookup_value(self.entries(), key@) == lookup_value(self.entries().take(i as int), key@),
            decreases i,
        {
            let entry_key = chars_of(self.resolver_map[i - 1].0.as_str());
            assert(self.entries().take(i as int).last() == self.entries()[i - 1]);
            assert(self.entries().take(i as int).drop_last() == self.entries().take(i - 1));
            if vec_chars_eq(&entry_key, key) {
                return self.resolver_map[i - 1].1.clone();
            }
            i = i - 1;
        }
        "???".to_owned()
    }

    /// Replaces each `{key}` of `text`, from left to right, by the text bound to `key`, or by
    /// `???` where no text is bound to it.
    pub fn resolve(&self, text: &str) -> (r: String)
        ensures
            r@ == resolve_text(self.entries(), text@),
    {
        let chars = chars_of(text);
        let mut result: Vec<char> = Vec::new();
        let mut pos: usize = 0;
        assert(chars@.skip(0) == chars@);
        assert(result@ + chars@ == chars@);
        while pos < chars.len()
            invariant
                pos <= chars.len(),
                result@ + resolve_text(self.entries(), chars@.skip(pos as int)) == resolve_text(
                    self.entries(),
                    chars@,
                ),
            decreases chars.len() - pos,
        {
            let ghost rest = chars@.skip(pos as int);
            let start = match find_char(&chars, pos, '{') {
                Some(s) => s,
                None => {
                    proof {
                        lemma_find_skip(chars@, pos as int, pos as int, '{');
                    }
                    append_range(&mut result, &chars, pos, chars.len());
                    assert(rest == chars@.subrange(pos as int, chars.len() as int));
                    assert(chars@.skip(chars.len() as int).len() == 0);
                    pos = chars.len();
                    continue;
                },
            };
            let end = match find_char(&chars, start, '}') {
                Some(e) => e,
                None => {
                    proof {
                        lemma_find_skip(chars@, pos as int, pos as int, '{');
                        lemma_find_skip(chars@, pos as int, start as int, '}');
                    }
                    append_range(&mut result, &chars, pos, chars.len());
                    assert(rest == chars@.subrange(pos as int, chars.len() as int));
                    assert(chars@.skip(chars.len() as int).len() == 0);
                    pos = chars.len();
                    continue;
                },
            };
            proof {
                lemma_find_skip(chars@, pos as int, pos as int, '{');
                lemma_find_skip(chars@, pos as int, start as int, '}');
                lemma_find_from(chars@, pos as int, '{');
                lemma_find_from(chars@, start as int, '}');
                assert(rest.take(start - pos) == chars@.subrange(pos as int, start as int));
                assert(rest.subrange(start - pos + 1, end - pos) == chars@.subrange(
                    start + 1,
                    end as int,
                ));
                assert(rest.skip(end - pos + 1) == chars@.skip(end + 1));
            }
            append_range(&mut result, &chars, pos, start);
            let key = copy_range(&chars, start + 1, end);
            let value = chars_of(self.lookup(&key).as_str());
            let mut j: usize = 0;
            let ghost before = result@;
            while j < value.len()
                invariant
                    j <= value.len(),
                    result@ == before + value@.take(j as int),
                decreases value.len() - j,
            {
                result.push(value[j]);
                assert(value@.take(j + 1) == value@.take(j as int).push(value@[j as int]));
                j = j + 1;
            }
            assert(value@.take(value.len() as int) == value@);
            pos = end + 1;
        }
        assert(chars@.skip(pos as int).len() == 0);
        assert(resolve_text(self.entries(), chars@.skip(pos as int)) == chars@.skip(pos as int));
        assert(result@ + chars@.skip(pos as int) == result@);
        string_of(&result)
    }

}

/// Whether resolving `text` looks up `key`: whether one of the `{key}` placeholders that
/// resolving replaces, from left to right, names it.
pub open spec fn uses_key(text: Seq<char>, key: Seq<char>) -> bool
    decreases text.len(),
{
    match find_from(text, 0, '{') {
        Some(start) => match find_from(text, start, '}') {
            Some(end) => {
                proof {
                    lemma_find_from(text, 0, '{');
                    lemma_find_from(text, start, '}');
                }
                text.subrange(start + 1, end) == key || uses_key(text.skip(end + 1), key)
            },
            None => false,
        },
        None => false,
    }
}

/// Whether resolving `text` looks up `key`, as [`uses_key`] says.
pub fn uses_key_in(text: &str, key: &str) -> (r: bool)
    ensures
        r == uses_key(text@, key@),
{
    let chars = chars_of(text);
    let key_chars = chars_of(key);
    let mut pos: usize = 0;
    assert(chars@.skip(0) == chars@);
    while pos < chars.len()
        invariant
            pos <= chars.len(),
            key_chars@ == key@,
            chars@ == text@,
            uses_key(chars@, key@) == uses_key(chars@.skip(pos as int), key@),
        decreases chars.len() - pos,
    {
        let ghost rest = chars@.skip(pos as int);
        let start = match find_char(&chars, pos, '{') {
            Some(s) => s,
            None => {
                proof {
                    lemma_find_skip(chars@, pos as int, pos as int, '{');
                }
                return false;
            },
        };
        let end = match find_char(&chars, start, '}') {
            Some(e) => e,
            None => {
                proof {
                    lemma_find_skip(chars@, pos as int, pos as int, '{');
                    lemma_find_skip(chars@, pos as int, start as int, '}');
                }
                return false;
            },
        };
        proof {
            lemma_find_skip(chars@, pos as int, pos as int, '{');
            lemma_find_skip(chars@, pos as int, start as int, '}');
            lemma_find_from(chars@, pos as int, '{');
            lemma_find_from(chars@, start as int, '}');
            assert(rest.subrange(start - pos + 1, end - pos) == chars@.subrange(start + 1, end as int));
            assert(rest.skip(end - pos + 1) == chars@.skip(end + 1));
        }
        let found = copy_range(&chars, start + 1, end);
        if vec_chars_eq(&found, &key_chars) {
            return true;
        }
        pos = end + 1;
    }
    assert(chars@.skip(pos as int).len() == 0);
    false
}

/// Whether resolving a dialogue line makes the speaker's name known: where the line uses
/// `{name}` and the speaker has a name.
pub fn marks_name_known(text: &str, speaker_has_name: bool) -> (r: bool)
    ensures
        r == (speaker_has_name && uses_key(text@, "name"@)),
{
    speaker_has_name && uses_key_in(text, "name")
}

pub proof fn lemma_find_skip(s: Seq<char>, pos: int, i: int, c: char)
    requires
        0 <= pos <= i,
        pos <= s.len(),
    ensures
        find_from(s.skip(pos), i - pos, c) == (match find_from(s, i, c) {
            Some(j) => Some(j - pos),
            None => None,
        }),
    decreases s.len() - i,
{
    if i < s.len() {
        assert(s.skip(pos)[i - pos] == s[i]);
        if s[i] != c {
            lemma_find_skip(s, pos, i + 1, c);
        }
    }
}

/// The text of an optional value, or "???" where there is none.
pub open spec fn or_unknown(value: Option<String>) -> Seq<char> {
    match value {
        Some(v) => v@,
        None => "???"@,
    }
}

fn text_or_unknown(value: Option<String>) -> (s: String)
    ensures
        s@ == or_unknown(value),
{
    match value {
        Some(v) => v,
        None => "???".to_owned(),
    }
}

/// The substitutions of dialogue between a speaker and a target: `name` (the speaker's own
/// name), `the_speaker`, `the_target`, `crew_loss_memory_name` (the crew member the speaker
/// lost) and `reward`; a value the speaker does not have reads "???".
pub fn setup_context(
    speaker_name: Option<String>,
    the_speaker: String,
    the_target: String,
    crew_loss_memory_name: Option<String>,
    reward: Option<String>,
) -> (c: TextResolutionContext)
    ensures
        c.entries() == seq![
            ("name"@, or_unknown(speaker_name)),
            ("the_speaker"@, the_speaker@),
            ("the_target"@, the_target@),
            ("crew_loss_memory_name"@, or_unknown(crew_loss_memory_name)),
            ("reward"@, or_unknown(reward)),
        ],
{
    let mut c = TextResolutionContext::new();
    c.add_resolver("name", text_or_unknown(speaker_name));
    c.add_resolver("the_speaker", the_speaker);
    c.add_resolver("the_target", the_target);
    c.add_resolver("crew_loss_memory_name", text_or_unknown(crew_loss_memory_name));
    c.add_resolver("reward", text_or_unknown(reward));
    assert(c.entries() =~= seq![
        ("name"@, or_unknown(speaker_name)),
        ("the_speaker"@, the_speaker@),
        ("the_target"@, the_target@),
        ("crew_loss_memory_name"@, or_unknown(crew_loss_memory_name)),
        ("reward"@, or_unknown(reward)),
    ]);
    c
}

/// The first position at or after `from` where `v` holds `c`.
pub fn find_char(v: &Vec<char>, from: usize, c: char) -> (r: Option<usize>)
    requires
        from <= v.len(),
    ensures
        r matches Some(i) ==> find_from(v@, from as int, c) == Some(i as int) && from <= i < v.len(),
        r is None ==> find_from(v@, from as int, c) is None,
{
    let mut i = from;
    while i < v.len()
        invariant
            from <= i <= v.len(),
            find_from(v@, from as int, c) == find_from(v@, i as int, c),
        decreases v.len() - i,
    {
        if v[i] == c {
            return Some(i);
        }
        i = i + 1;
    }
    None
}

/// Copies `v[from..to]`.
pub fn copy_range(v: &Vec<char>, from: usize, to: usize) -> (r: Vec<char>)
    requires
        from <= to <= v.len(),
    ensures
        r@ == v@.subrange(from as int, to as int),
{
    let mut r: Vec<char> = Vec::new();
    append_range(&mut r, v, from, to);
    r
}

/// Appends `v[from..to]` to `out`.
pub fn append_range(out: &mut Vec<char>, v: &Vec<char>, from: usize, to: usize)
    requires
        from <= to <= v.len(),
    ensures
        final(out)@ == old(out)@ + v@.subrange(from as int, to as int),
{
    let ghost before = out@;
    let mut i = from;
    while i < to
        invariant
            from <= i <= to <= v.len(),
            out@ == before + v@.subrange(from as int, i as int),
        decreases to - i,
    {
        out.push(v[i]);
        assert(v@.subrange(from as int, i + 1) == v@.subrange(from as int, i as int).push(v@[i as int]));
        i = i + 1;
    }
}

/// A topic that the player can bring up when talking to someone.
#[derive(Clone, Copy, Debug, PartialEq, Eq, Structural)]
pub enum TalkTopic {
    AskName,
    CompleteHuntQuest,
    CompletePassengerRoute,
}

impl TalkTopic {
    /// What to talk about with a target: its name where it is not known yet, else a hunt that
    /// it rewarded and that is done; none otherwise.
    pub fn pick(name_is_known: Option<bool>, hunt_fulfilled: Option<bool>) -> (r: Option<TalkTopic>)
        ensures
            name_is_known == Some(false) ==> r == Some(TalkTopic::AskName),
            name_is_known != Some(false) && hunt_fulfilled == Some(true) ==> r == Some(TalkTopic::CompleteHuntQuest),
            name_is_known != Some(false) && hunt_fulfilled != Some(true) ==> r is None,
    {
        if let Some(false) = name_is_known {
            return Some(TalkTopic::AskName);
        }
        match hunt_fulfilled {
            Some(true) => Some(TalkTopic::CompleteHuntQuest),
            _ => None,
        }
    }
}

} // verus!

verus! {

/// The positions of the entries, in order, of which the predicate holds.
pub open spec fn indices_where<T>(s: Seq<T>, p: spec_fn(T) -> bool) -> Seq<usize>
    decreases s.len(),
{
    if s.len() == 0 {
        Seq::empty()
    } else {
        let earlier = indices_where(s.drop_last(), p);
        if p(s.last()) {
            earlier.push((s.len() - 1) as usize)
        } else {
            earlier
        }
    }
}

/// A crew member as the encounter check sees it: the entity, its area, whether it is badly
/// hurt, and whether it has talked about being badly hurt (none where it keeps no talk state).
#[derive(Clone, Copy)]
pub struct CrewTalkFacts {
    pub entity: EntityId,
    pub area: EntityId,
    pub badly_hurt: bool,
    pub talked_about_badly_hurt: Option<bool>,
}

/// What the encounter check reads of the game: the controlled character and its area (none
/// where it has no position); the areas of the entities with an encounter dialogue and of those
/// with a background dialogue, in order; whether the player's area is safe; the crew characters;
/// whether the crew has talked about having enough fuel, and whether the fuel that the ship
/// needs is known and the crew holds that many cans.
pub struct EncounterFacts {
    pub controlled: EntityId,
    pub player_area: Option<EntityId>,
    pub encounter_areas: Vec<EntityId>,
    pub background_areas: Vec<EntityId>,
    pub area_is_safe: bool,
    pub crew: Vec<CrewTalkFacts>,
    pub talked_about_enough_fuel: bool,
    pub holds_enough_fuel: bool,
}

/// The dialogues that an encounter sets off: the encounter dialogues (by position among the
/// entities with one), then the background dialogues; whether the crew now talks about having
/// enough fuel, with one of `speakers` (crew characters in the area other than the controlled
/// one) chosen to say so, where there is one; and the crew members (by position) that talk
/// about being badly hurt.
pub struct EncounterPlan {
    pub encounters: Vec<usize>,
    pub background: Vec<usize>,
    pub obtained_enough_fuel: bool,
    pub speakers: Vec<usize>,
    pub badly_hurt_talks: Vec<usize>,
}

/// A crew member that may speak up in the area: another than the controlled one, there.
pub open spec fn may_speak(c: CrewTalkFacts, controlled: EntityId, area: EntityId) -> bool {
    c.entity != controlled && c.area == area
}

/// A crew member that talks about being badly hurt: one that may speak, is badly hurt, and
/// has not talked about it yet.
pub open spec fn talks_badly_hurt(c: CrewTalkFacts, controlled: EntityId, area: EntityId) -> bool {
    may_speak(c, controlled, area) && c.badly_hurt && c.talked_about_badly_hurt == Some(false)
}

/// Whether an area is the given one.
pub open spec fn is_area(area: EntityId) -> spec_fn(EntityId) -> bool {
    |a: EntityId| a == area
}

/// Whether a crew member may speak up in the area.
pub open spec fn speaker_in(controlled: EntityId, area: EntityId) -> spec_fn(CrewTalkFacts) -> bool {
    |c: CrewTalkFacts| may_speak(c, controlled, area)
}

/// Whether a crew member talks about being badly hurt in the area.
pub open spec fn hurt_talker_in(controlled: EntityId, area: EntityId) -> spec_fn(CrewTalkFacts) -> bool {
    |c: CrewTalkFacts| talks_badly_hurt(c, controlled, area)
}

/// Whether the plan is what an encounter in `area` sets off, checked in this order:
/// encounter and background dialogues of entities in the area; then, where the area is
/// safe, the fuel talk (once, where enough fuel is held) and the badly hurt talks.
pub open spec fn encounter_plan_spec(f: EncounterFacts, area: EntityId, p: EncounterPlan) -> bool {
    &&& p.encounters@ == indices_where(f.encounter_areas@, is_area(area))
    &&& p.background@ == indices_where(f.background_areas@, is_area(area))
    &&& p.speakers@ == (if f.area_is_safe {
        indices_where(f.crew@, speaker_in(f.controlled, area))
    } else {
        Seq::empty()
    })
    &&& p.obtained_enough_fuel == (f.area_is_safe && !f.talked_about_enough_fuel && f.holds_enough_fuel)
    &&& p.badly_hurt_talks@ == (if f.area_is_safe {
        indices_where(f.crew@, hurt_talker_in(f.controlled, area))
    } else {
        Seq::empty()
    })
}

fn areas_matching(areas: &Vec<EntityId>, area: EntityId) -> (r: Vec<usize>)
    ensures
        r@ == indices_where(areas@, is_area(area)),
{
    let mut r: Vec<usize> = Vec::new();
    let mut i: usize = 0;
    while i < areas.len()
        invariant
            i <= areas.len(),
            r@ == indices_where(areas@.take(i as int), is_area(area)),
        decreases areas.len() - i,
    {
        assert(areas@.take(i + 1).drop_last() =~= areas@.take(i as int));
        if areas[i] == area {
            r.push(i);
        }
        i = i + 1;
    }
    assert(areas@.take(areas.len() as int) =~= areas@);
    r
}

fn crew_matching(crew: &Vec<CrewTalkFacts>, controlled: EntityId, area: EntityId, hurt_only: bool) -> (r: Vec<usize>)
    ensures
        !hurt_only ==> r@ == indices_where(crew@, speaker_in(controlled, area)),
        hurt_only ==> r@ == indices_where(crew@, hurt_talker_in(controlled, area)),
{
    let mut r: Vec<usize> = Vec::new();
    let mut i: usize = 0;
    while i < crew.len()
        invariant
            i <= crew.len(),
            !hurt_only ==> r@ == indices_where(crew@.take(i as int), speaker_in(controlled, area)),
            hurt_only ==> r@ == indices_where(
                crew@.take(i as int),
                hurt_talker_in(controlled, area),
            ),
        decreases crew.len() - i,
    {
        assert(crew@.take(i + 1).drop_last() =~= crew@.take(i as int));
        assert(crew@.take(i + 1).last() == crew@[i as int]);
        let c = crew[i];
        let speaks = c.entity != controlled && c.area == area;
        let hurt_talk = speaks && c.badly_hurt && c.talked_about_badly_hurt == Some(false);
        if (hurt_only && hurt_talk) || (!hurt_only && speaks) {
            r.push(i);
        }
        i = i + 1;
    }
    assert(crew@.take(crew.len() as int) =~= crew@);
    r
}

/// The dialogues that the player's arrival among others sets off, as
/// [`encounter_plan_spec`] says; none where the controlled character has no position.
pub fn pick_encounter_dialogue(f: &EncounterFacts) -> (r: Option<EncounterPlan>)
    ensures
        r is None <==> f.player_area is None,
        r matches Some(p) ==> encounter_plan_spec(*f, f.player_area->0, p),
{
    let area = match f.player_area {
        Some(a) => a,
        None => return None,
    };
    let encounters = areas_matching(&f.encounter_areas, area);
    let background = areas_matching(&f.background_areas, area);
    let (speakers, badly_hurt_talks) = if f.area_is_safe {
        (crew_matching(&f.crew, f.controlled, area, false), crew_matching(&f.crew, f.controlled, area, true))
    } else {
        (Vec::new(), Vec::new())
    };
    let obtained_enough_fuel = f.area_is_safe && !f.talked_about_enough_fuel && f.holds_enough_fuel;
    Some(EncounterPlan { encounters, background, obtained_enough_fuel, speakers, badly_hurt_talks })
}

} // verus!

verus! {

/// A hunt task that an NPC gives, as the prompt reads it: whether it is fulfilled, the dialogues
/// for giving it and for when it was already done, and how its target is called.
pub struct HuntTaskFacts {
    pub fulfilled: bool,
    pub task_dialogue: Option<String>,
    pub already_completed_dialogue: Option<String>,
    pub target_label: String,
}

/// What prompting an NPC reads of the game: the names of the NPC and of the crew member, its
/// hunt task and the text of its reward (none where it has none), its talk dialogue, whether it
/// is a passenger asking for a ride, whether it is recruitable (and then whether it asks to be
/// recruited), and whether it keeps a store.
pub struct NpcFacts {
    pub npc_name: String,
    pub crew_name: String,
    pub hunt_task: Option<HuntTaskFacts>,
    pub reward_text: Option<String>,
    pub talk: Option<String>,
    pub passenger_requesting: bool,
    pub recruitable: Option<bool>,
    pub shopkeeper: bool,
}

/// What the NPC does when a crew member comes up to it.
pub enum NpcPromptAction {
    /// Starts the dialogue of that name.
    Dialogue(String),
    /// Says the message.
    Message(String),
    /// Asks to be recruited.
    RecruitRequest,
    /// Opens its store.
    Trade,
}

/// The prompt: what the NPC does; whether its hunt task is now presented; whether the task is
/// done with (its reward goes to the crew member and the task is removed); whether the crew
/// member now decides about taking the NPC as a passenger.
pub struct NpcPrompt {
    pub action: NpcPromptAction,
    pub task_presented: bool,
    pub task_completed: bool,
    pub passenger_decision: bool,
}

/// The text of a reward, "???" where it has none.
pub open spec fn reward_text_spec(reward_text: Option<String>) -> Seq<char> {
    match reward_text {
        Some(t) => t@,
        None => "???"@,
    }
}

/// Whether the action starts the dialogue of that name.
pub open spec fn is_dialogue(a: NpcPromptAction, id: Seq<char>) -> bool {
    a matches NpcPromptAction::Dialogue(d) && d@ == id
}

/// Whether the action says the message.
pub open spec fn is_message(a: NpcPromptAction, text: Seq<char>) -> bool {
    a matches NpcPromptAction::Message(m) && m@ == text
}

/// The message of an NPC that gives a hunt task without a dialogue for it.
pub open spec fn hunt_request_message(f: NpcFacts, h: HuntTaskFacts) -> Seq<char> {
    f.npc_name@ + " asks "@ + f.crew_name@ + " to hunt down "@ + h.target_label@ + " nearby and offers "@
        + reward_text_spec(f.reward_text) + " as reward."@
}

/// The message of an NPC whose hunt task was done before it was given, without a dialogue for
/// that.
pub open spec fn hunt_done_message(f: NpcFacts, h: HuntTaskFacts) -> Seq<char> {
    f.npc_name@ + " was going to ask for help with "@ + h.target_label@
        + ", but since it has already been taken care of, "@ + f.npc_name@ + " gives "@ + f.crew_name@ + " "@
        + reward_text_spec(f.reward_text) + " as reward."@
}

/// What prompting the NPC comes to, checked in this order: a hunt task first
/// (presented while unfulfilled, else completed and rewarded), then a talk dialogue, a passenger
/// request, recruiting, and the store; nothing where none of these applies.
pub open spec fn npc_prompt_spec(f: NpcFacts, r: Option<NpcPrompt>) -> bool {
    match f.hunt_task {
        Some(h) => r matches Some(p) && !p.passenger_decision && if !h.fulfilled {
            &&& p.task_presented
            &&& !p.task_completed
            &&& match h.task_dialogue {
                Some(d) => is_dialogue(p.action, d@),
                None => is_message(p.action, hunt_request_message(f, h)),
            }
        } else {
            &&& !p.task_presented
            &&& p.task_completed
            &&& match h.already_completed_dialogue {
                Some(d) => is_dialogue(p.action, d@),
                None => is_message(p.action, hunt_done_message(f, h)),
            }
        },
        None => if f.talk is Some {
            r matches Some(p) && is_dialogue(p.action, f.talk->0@) && !p.task_presented && !p.task_completed
                && !p.passenger_decision
        } else if f.passenger_requesting {
            r matches Some(p) && is_dialogue(p.action, "core/passenger/request"@) && !p.task_presented
                && !p.task_completed && p.passenger_decision
        } else if f.recruitable is Some {
            r matches Some(p) && !p.task_presented && !p.task_completed && !p.passenger_decision && if f.recruitable->0 {
                p.action is RecruitRequest
            } else {
                is_dialogue(p.action, "core/recruit/hint"@)
            }
        } else if f.shopkeeper {
            r matches Some(p) && p.action is Trade && !p.task_presented && !p.task_completed && !p.passenger_decision
        } else {
            r is None
        },
    }
}

/// An NPC plays its own dialogue for a hunt task where it has one: whatever prompt meets the
/// spec for an unfulfilled task with a task dialogue starts that dialogue and presents the task,
/// and for a fulfilled one with a dialogue for that case starts that one. The hunt messages are
/// said only where the task has no dialogue for the case.
pub proof fn law_hunt_task_dialogue_first(f: NpcFacts, r: Option<NpcPrompt>)
    requires
        npc_prompt_spec(f, r),
    ensures
        f.hunt_task matches Some(h) ==> (!h.fulfilled && h.task_dialogue is Some ==> (r matches Some(p)
            && p.task_presented && (p.action matches NpcPromptAction::Dialogue(d) && d@ == h.task_dialogue->0@))),
        f.hunt_task matches Some(h) ==> (h.fulfilled && h.already_completed_dialogue is Some ==> (r matches Some(p)
            && p.task_completed && (p.action matches NpcPromptAction::Dialogue(d) && d@
            == h.already_completed_dialogue->0@))),
        f.hunt_task matches Some(h) ==> (r matches Some(p) && p.action is Message ==> (if h.fulfilled {
            h.already_completed_dialogue is None
        } else {
            h.task_dialogue is None
        })),
{
}

fn prompt(action: NpcPromptAction) -> (p: NpcPrompt)
    ensures
        p.action == action,
        !p.task_presented && !p.task_completed && !p.passenger_decision,
{
    NpcPrompt { action, task_presented: false, task_completed: false, passenger_decision: false }
}

/// What an NPC does when a crew member comes up to it, as [`npc_prompt_spec`] says.
pub fn pick_npc_prompt(f: &NpcFacts) -> (r: Option<NpcPrompt>)
    ensures
        npc_prompt_spec(*f, r),
{
    let reward: String = match &f.reward_text {
        Some(t) => t.clone(),
        None => "???".to_owned(),
    };
    proof {
        reveal_strlit("???");
    }
    assert(reward@ == reward_text_spec(f.reward_text));
    match &f.hunt_task {
        Some(h) => {
            if !h.fulfilled {
                let action = match &h.task_dialogue {
                    Some(d) => NpcPromptAction::Dialogue(d.clone()),
                    None => {
                        let head = concat5(
                            f.npc_name.as_str(),
                            " asks ",
                            f.crew_name.as_str(),
                            " to hunt down ",
                            h.target_label.as_str(),
                        );
                        let m = concat4(head.as_str(), " nearby and offers ", reward.as_str(), " as reward.");
                        assert(m@ =~= hunt_request_message(*f, *h));
                        NpcPromptAction::Message(m)
                    },
                };
                Some(NpcPrompt { action, task_presented: true, task_completed: false, passenger_decision: false })
            } else {
                let action = match &h.already_completed_dialogue {
                    Some(d) => NpcPromptAction::Dialogue(d.clone()),
                    None => {
                        let head = concat5(
                            f.npc_name.as_str(),
                            " was going to ask for help with ",
                            h.target_label.as_str(),
                            ", but since it has already been taken care of, ",
                            f.npc_name.as_str(),
                        );
                        let tail = concat5(" gives ", f.crew_name.as_str(), " ", reward.as_str(), " as reward.");
                        let m = concat(head.as_str(), tail.as_str());
                        assert(m@ =~= hunt_done_message(*f, *h));
                        NpcPromptAction::Message(m)
                    },
                };
                Some(NpcPrompt { action, task_presented: false, task_completed: true, passenger_decision: false })
            }
        },
        None => {
            if let Some(t) = &f.talk {
                Some(prompt(NpcPromptAction::Dialogue(t.clone())))
            } else if f.passenger_requesting {
                Some(
                    NpcPrompt {
                        action: NpcPromptAction::Dialogue("core/passenger/request".to_owned()),
                        task_presented: false,
                        task_completed: false,
                        passenger_decision: true,
                    },
                )
            } else if let Some(will_request) = f.recruitable {
                if will_request {
                    Some(prompt(NpcPromptAction::RecruitRequest))
                } else {
                    Some(prompt(NpcPromptAction::Dialogue("core/recruit/hint".to_owned())))
                }
            } else if f.shopkeeper {
                Some(prompt(NpcPromptAction::Trade))
            } else {
                None
            }
        },
    }
}

} // verus!

verus! {

/// What the crew talks about on the ship between locations.
#[derive(Debug, Clone, Copy, PartialEq, Eq, Structural)]
pub enum ShipDialogue {
    ApproachingFortuna,
    CrewLoss,
    Regular,
}

impl ShipDialogue {
    /// The name of the topic's dialogue.
    pub fn dialogue_id(self) -> (s: &'static str)
        ensures
            self == ShipDialogue::ApproachingFortuna ==> s@ == "core/on_ship/approaching_fortuna"@,
            self == ShipDialogue::CrewLoss ==> s@ == "core/on_ship/crew_loss"@,
            self == ShipDialogue::Regular ==> s@ == "core/on_ship/regular"@,
    {
        match self {
            ShipDialogue::ApproachingFortuna => "core/on_ship/approaching_fortuna",
            ShipDialogue::CrewLoss => "core/on_ship/crew_loss",
            ShipDialogue::Regular => "core/on_ship/regular",
        }
    }
}

/// The crew characters that recently lost a crew member, in order.
pub open spec fn recent_losers(crew: Seq<(EntityId, bool)>) -> Seq<EntityId>
    decreases crew.len(),
{
    if crew.len() == 0 {
        Seq::empty()
    } else if crew.last().1 {
        recent_losers(crew.drop_last()).push(crew.last().0)
    } else {
        recent_losers(crew.drop_last())
    }
}

/// The crew characters other than `e`, in order.
pub open spec fn others_than(crew: Seq<(EntityId, bool)>, e: EntityId) -> Seq<EntityId>
    decreases crew.len(),
{
    if crew.len() == 0 {
        Seq::empty()
    } else if crew.last().0 != e {
        others_than(crew.drop_last(), e).push(crew.last().0)
    } else {
        others_than(crew.drop_last(), e)
    }
}

/// The topic on the ship and the two crew characters that talk, given the draws: `first` and
/// `second`, two crew characters drawn; `loser`, one of those that recently lost a crew member;
/// `other`, one of the others than that one. Where the fortuna chest is next, the two drawn talk
/// about it; else one who recently lost a crew member talks about it with another; else the two
/// drawn talk. None where there are not two to talk.
pub open spec fn ship_topic_spec(
    crew: Seq<(EntityId, bool)>,
    fortuna_next: bool,
    first: int,
    second: int,
    loser: int,
    other: int,
) -> Option<(ShipDialogue, EntityId, EntityId)> {
    let losers = recent_losers(crew);
    if crew.len() < 2 {
        None
    } else if fortuna_next {
        Some((ShipDialogue::ApproachingFortuna, crew[first].0, crew[second].0))
    } else if losers.len() > 0 && others_than(crew, losers[loser]).len() > 0 {
        Some((ShipDialogue::CrewLoss, losers[loser], others_than(crew, losers[loser])[other]))
    } else {
        Some((ShipDialogue::Regular, crew[first].0, crew[second].0))
    }
}

fn collect_losers(crew: &Vec<(EntityId, bool)>) -> (r: Vec<EntityId>)
    ensures
        r@ == recent_losers(crew@),
{
    let mut r: Vec<EntityId> = Vec::new();
    let mut i: usize = 0;
    while i < crew.len()
        invariant
            i <= crew.len(),
            r@ == recent_losers(crew@.take(i as int)),
        decreases crew.len() - i,
    {
        assert(crew@.take(i + 1).drop_last() =~= crew@.take(i as int));
        assert(crew@.take(i + 1).last() == crew@[i as int]);
        if crew[i].1 {
            r.push(crew[i].0);
        }
        i = i + 1;
    }
    assert(crew@.take(crew.len() as int) =~= crew@);
    r
}

fn collect_others(crew: &Vec<(EntityId, bool)>, e: EntityId) -> (r: Vec<EntityId>)
    ensures
        r@ == others_than(crew@, e),
{
    let mut r: Vec<EntityId> = Vec::new();
    let mut i: usize = 0;
    while i < crew.len()
        invariant
            i <= crew.len(),
            r@ == others_than(crew@.take(i as int), e),
        decreases crew.len() - i,
    {
        assert(crew@.take(i + 1).drop_last() =~= crew@.take(i as int));
        assert(crew@.take(i + 1).last() == crew@[i as int]);
        if crew[i].0 != e {
            r.push(crew[i].0);
        }
        i = i + 1;
    }
    assert(crew@.take(crew.len() as int) =~= crew@);
    r
}

/// The topic on the ship given the draws, as [`ship_topic_spec`] says. The draws must lie
/// within what they are drawn from.
pub fn ship_topic_from_draws(
    crew: &Vec<(EntityId, bool)>,
    fortuna_next: bool,
    first: usize,
    second: usize,
    loser: usize,
    other: usize,
) -> (r: Option<(ShipDialogue, EntityId, EntityId)>)
    requires
        crew.len() >= 2 ==> first < crew.len() && second < crew.len(),
        recent_losers(crew@).len() > 0 ==> loser < recent_losers(crew@).len(),
        recent_losers(crew@).len() > 0 ==> (others_than(crew@, recent_losers(crew@)[loser as int]).len() > 0
            ==> other < others_than(crew@, recent_losers(crew@)[loser as int]).len()),
    ensures
        r == ship_topic_spec(crew@, fortuna_next, first as int, second as int, loser as int, other as int),
{
    if crew.len() < 2 {
        return None;
    }
    if fortuna_next {
        return Some((ShipDialogue::ApproachingFortuna, crew[first].0, crew[second].0));
    }
    let losers = collect_losers(crew);
    if losers.len() > 0 {
        let others = collect_others(crew, losers[loser]);
        if others.len() > 0 {
            return Some((ShipDialogue::CrewLoss, losers[loser], others[other]));
        }
    }
    Some((ShipDialogue::Regular, crew[first].0, crew[second].0))
}

/// The topic on the ship and the two crew characters that talk, with the draws made at random:
/// two different crew characters, one who recently lost a crew member, and another than that
/// one. The result is [`ship_topic_spec`] for some such draws.
pub fn pick_ship_dialogue_topic(rng: &mut ThreadRng, crew: &Vec<(EntityId, bool)>, fortuna_next: bool) -> (r: Option<
    (ShipDialogue, EntityId, EntityId),
>)
    ensures
        exists|first: int, second: int, loser: int, other: int|
            (crew.len() >= 2 ==> 0 <= first < crew.len() && 0 <= second < crew.len() && first != second) && r
                == #[trigger] ship_topic_spec(crew@, fortuna_next, first, second, loser, other),
{
    let mut first: usize = 0;
    let mut second: usize = 1;
    if crew.len() >= 2 {
        let pair = sample_two_indices(rng, crew.len());
        first = pair[0];
        second = pair[1];
    }
    let losers = collect_losers(crew);
    let mut loser: usize = 0;
    let mut other: usize = 0;
    if losers.len() > 0 {
        loser = random_below(rng, losers.len());
        let others = collect_others(crew, losers[loser]);
        if others.len() > 0 {
            other = random_below(rng, others.len());
        }
    }
    let r = ship_topic_from_draws(crew, fortuna_next, first, second, loser, other);
    assert(r == ship_topic_spec(crew@, fortuna_next, first as int, second as int, loser as int, other as int));
    r
}

} // verus!
