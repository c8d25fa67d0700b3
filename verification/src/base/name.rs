use super::status::CreatureAttribute;
use crate::text::{concat, concat3, decimal, decimal_u16, str_eq};
use vstd::prelude::*;

verus! {

/// `x ` after a value, or nothing where there is none.
pub open spec fn with_space(value: Option<Seq<char>>) -> Seq<char> {
    match value {
        Some(v) => v + " "@,
        None => Seq::empty(),
    }
}

fn format_option_with_space(value: Option<&str>) -> (s: String)
    ensures
        s@ == with_space(match value {
            Some(v) => Some(v@),
            None => None,
        }),
{
    match value {
        Some(v) => concat(v, " "),
        None => {
            let s = String::new();
            assert(s@ =~= Seq::<char>::empty());
            s
        },
    }
}

/// The name of a character, which the crew may not know yet.
#[derive(Clone, Debug)]
pub struct Name {
    pub name: String,
    pub is_known: bool,
}

impl Name {
    /// A name that the crew knows.
    pub fn known(name: &str) -> (n: Self)
        ensures
            n.name@ == name@,
            n.is_known,
    {
        Self { name: name.to_owned(), is_known: true }
    }
}

/// The id of a noun in the noun data.
#[derive(Clone, Debug, Eq, PartialEq, Hash)]
pub struct NounId(pub String);

impl NounId {
    /// The noun with this id.
    pub fn from_str(value: &str) -> (n: Self)
        ensures
            n.0@ == value@,
    {
        Self(value.to_owned())
    }
}

/// The indefinite article of a noun.
#[derive(Debug, Clone, Copy, PartialEq, Eq, Hash, Structural)]
pub enum IndefiniteArticle {
    A,
    An,
}

impl IndefiniteArticle {
    /// The article's text.
    pub open spec fn text(self) -> Seq<char> {
        match self {
            IndefiniteArticle::A => "a"@,
            IndefiniteArticle::An => "an"@,
        }
    }

    /// The article's text (also its `Display`).
    pub fn as_str(self) -> (s: &'static str)
        ensures
            s@ == self.text(),
    {
        match self {
            IndefiniteArticle::A => "a",
            IndefiniteArticle::An => "an",
        }
    }
}

impl Default for IndefiniteArticle {
    fn default() -> (a: Self)
        ensures
            a == IndefiniteArticle::A,
    {
        IndefiniteArticle::A
    }
}

/// The forms of a noun.
#[derive(Clone, Debug)]
pub struct NounData {
    singular: String,
    plural: String,
    article: IndefiniteArticle,
}

/// How a count is written.
#[derive(Debug, Clone, Copy, PartialEq, Eq, Structural)]
pub enum CountFormat {
    Numeric,
    Text,
}

/// Which article a counted noun gets.
#[derive(Debug, Clone, Copy, PartialEq, Eq, Structural)]
pub enum ArticleKind {
    The,
    A,
    One,
}

/// The English word of a count from one to ten.
pub open spec fn count_word(count: u16) -> Seq<char> {
    if count == 1 {
        "one"@
    } else if count == 2 {
        "two"@
    } else if count == 3 {
        "three"@
    } else if count == 4 {
        "four"@
    } else if count == 5 {
        "five"@
    } else if count == 6 {
        "six"@
    } else if count == 7 {
        "seven"@
    } else if count == 8 {
        "eight"@
    } else if count == 9 {
        "nine"@
    } else {
        "ten"@
    }
}

impl CountFormat {
    /// How the count is written: in words from one to ten in text format, and otherwise as a
    /// decimal number.
    pub open spec fn written(self, count: u16) -> Seq<char> {
        if self == CountFormat::Text && 1 <= count <= 10 {
            count_word(count)
        } else {
            decimal(count as nat)
        }
    }

    /// Writes `count` as [`CountFormat::written`] says.
    pub fn apply(self, count: u16) -> (s: String)
        ensures
            s@ == self.written(count),
    {
        if self == CountFormat::Numeric {
            return decimal_u16(count);
        }
        let word = match count {
            1 => "one",
            2 => "two",
            3 => "three",
            4 => "four",
            5 => "five",
            6 => "six",
            7 => "seven",
            8 => "eight",
            9 => "nine",
            10 => "ten",
            _ => return decimal_u16(count),
        };
        word.to_owned()
    }
}

impl NounData {
    /// The singular form.
    pub closed spec fn singular_view(&self) -> Seq<char> {
        self.singular@
    }

    /// The plural form.
    pub closed spec fn plural_view(&self) -> Seq<char> {
        self.plural@
    }

    /// The indefinite article.
    pub closed spec fn article_view(&self) -> IndefiniteArticle {
        self.article
    }

    /// The form for `count` things: singular for one, plural otherwise.
    pub open spec fn form_for(&self, count: u16) -> Seq<char> {
        if count == 1 {
            self.singular_view()
        } else {
            self.plural_view()
        }
    }

    /// What `with_count` writes.
    pub open spec fn counted(
        &self,
        adjective: Option<Seq<char>>,
        count: u16,
        article: ArticleKind,
        format: CountFormat,
    ) -> Seq<char> {
        if article == ArticleKind::The {
            if count == 1 {
                "the "@ + with_space(adjective) + self.singular_view()
            } else {
                "the "@ + format.written(count) + " "@ + with_space(adjective) + self.form_for(count)
            }
        } else if article == ArticleKind::A && count == 1 {
            self.article_view().text() + " "@ + with_space(adjective) + self.singular_view()
        } else {
            format.written(count) + " "@ + with_space(adjective) + self.form_for(count)
        }
    }

    /// A noun with these forms.
    pub fn new(singular: &str, plural: &str, article: IndefiniteArticle) -> (n: Self)
        ensures
            n.singular_view() == singular@,
            n.plural_view() == plural@,
            n.article_view() == article,
    {
        Self { singular: singular.to_owned(), plural: plural.to_owned(), article }
    }

    /// The noun of unknown things: "???" in both forms, with article "a".
    pub fn unknown() -> (n: Self)
        ensures
            n.singular_view() == "???"@,
            n.plural_view() == "???"@,
            n.article_view() == IndefiniteArticle::A,
    {
        Self::new("???", "???", IndefiniteArticle::A)
    }

    /// A copy of the noun.
    pub fn duplicate(&self) -> (n: Self)
        ensures
            n.singular_view() == self.singular_view(),
            n.plural_view() == self.plural_view(),
            n.article_view() == self.article_view(),
    {
        Self { singular: self.singular.clone(), plural: self.plural.clone(), article: self.article }
    }

    /// The singular form.
    pub fn singular(&self) -> (s: &str)
        ensures
            s@ == self.singular_view(),
    {
        self.singular.as_str()
    }

    /// The plural form.
    pub fn plural(&self) -> (s: &str)
        ensures
            s@ == self.plural_view(),
    {
        self.plural.as_str()
    }

    /// The indefinite article.
    pub fn article(&self) -> (a: IndefiniteArticle)
        ensures
            a == self.article_view(),
    {
        self.article
    }

    /// The form for `count` things.
    pub fn for_count(&self, count: u16) -> (s: &str)
        ensures
            s@ == self.form_for(count),
    {
        if count == 1 {
            self.singular.as_str()
        } else {
            self.plural.as_str()
        }
    }

    /// The noun with a count in words and the given article, without adjective.
    pub fn with_text_count(&self, count: u16, article: ArticleKind) -> (s: String)
        ensures
            s@ == self.counted(None, count, article, CountFormat::Text),
    {
        self.with_count(None, count, article, CountFormat::Text)
    }

    /// The noun with its count, adjective and article: "the sword" or "the two swords" for the
    /// definite article, "a sword" for one thing with the indefinite article, and otherwise
    /// "two swords".
    pub fn with_count(
        &self,
        adjective: Option<&Adjective>,
        count: u16,
        article: ArticleKind,
        format: CountFormat,
    ) -> (s: String)
        ensures
            s@ == self.counted(
                match adjective {
                    Some(a) => Some(a.0@),
                    None => None,
                },
                count,
                article,
                format,
            ),
    {
        let adjective_text = match adjective {
            Some(a) => format_option_with_space(Some(a.0.as_str())),
            None => format_option_with_space(None),
        };
        if article == ArticleKind::The {
            if count == 1 {
                concat3("the ", adjective_text.as_str(), self.singular())
            } else {
                let mut s = concat("the ", format.apply(count).as_str());
                s.append(" ");
                s.append(adjective_text.as_str());
                s.append(self.for_count(count));
                s
            }
        } else if article == ArticleKind::A && count == 1 {
            let mut s = concat(self.article.as_str(), " ");
            s.append(adjective_text.as_str());
            s.append(self.singular());
            s
        } else {
            let mut s = concat(format.apply(count).as_str(), " ");
            s.append(adjective_text.as_str());
            s.append(self.for_count(count));
            s
        }
    }
}

/// How a counted noun begins and ends: one thing with the indefinite article begins with the
/// noun's own article ("a" or "an") and a space, and ends with the singular; with the definite
/// article it begins with "the "; any other count than one ends with the plural.
pub proof fn law_counted_noun_articles(
    noun: NounData,
    adjective: Option<Seq<char>>,
    count: u16,
    article: ArticleKind,
    format: CountFormat,
)
    ensures
        ({
            let s = noun.counted(adjective, 1, ArticleKind::A, format);
            let a = noun.article_view().text();
            &&& s.len() >= a.len() + 1
            &&& s.take(a.len() + 1int) == a + " "@
            &&& s.len() >= noun.singular_view().len()
            &&& s.skip(s.len() - noun.singular_view().len()) == noun.singular_view()
        }),
        ({
            let s = noun.counted(adjective, count, ArticleKind::The, format);
            s.len() >= 4 && s.take(4) == "the "@
        }),
        count != 1 ==> ({
            let s = noun.counted(adjective, count, article, format);
            s.len() >= noun.plural_view().len() && s.skip(s.len() - noun.plural_view().len())
                == noun.plural_view()
        }),
{
    reveal_strlit("the ");
    reveal_strlit(" ");
    let a = noun.article_view().text();
    let s1 = noun.counted(adjective, 1, ArticleKind::A, format);
    let rest = with_space(adjective) + noun.singular_view();
    assert(s1 =~= (a + " "@) + rest);
    assert(s1.take(a.len() + 1int) =~= a + " "@);
    assert(s1.skip(s1.len() - noun.singular_view().len()) =~= noun.singular_view());
    let st = noun.counted(adjective, count, ArticleKind::The, format);
    if count == 1 {
        assert(st =~= "the "@ + (with_space(adjective) + noun.singular_view()));
    } else {
        assert(st =~= "the "@ + (format.written(count) + " "@ + with_space(adjective) + noun.form_for(count)));
    }
    assert(st.take(4) =~= "the "@);
    if count != 1 {
        let sc = noun.counted(adjective, count, article, format);
        let p = noun.plural_view();
        if article == ArticleKind::The {
            assert(sc =~= ("the "@ + format.written(count) + " "@ + with_space(adjective)) + p);
        } else {
            assert(sc =~= (format.written(count) + " "@ + with_space(adjective)) + p);
        }
        assert(sc.skip(sc.len() - p.len()) =~= p);
    }
}

/// An adjective that sets a thing apart from others of its kind.
#[derive(Clone, Debug, Eq, PartialEq, Hash)]
pub struct Adjective(pub String);

/// How an entity is named, before its noun is looked up.
#[derive(Clone)]
pub enum NameIdData {
    Name(String),
    Noun(Option<Adjective>, NounId),
}

/// How an entity is named: by its own name, or by a noun with an optional adjective.
#[derive(Clone)]
pub enum NameData {
    Name(String),
    Noun(Option<Adjective>, NounData),
}

/// The text of an optional adjective.
pub open spec fn adjective_view(adjective: Option<Adjective>) -> Option<Seq<char>> {
    match adjective {
        Some(a) => Some(a.0@),
        None => None,
    }
}

fn adjective_text(adjective: &Option<Adjective>) -> (s: String)
    ensures
        s@ == with_space(adjective_view(*adjective)),
{
    match adjective {
        Some(a) => format_option_with_space(Some(a.0.as_str())),
        None => format_option_with_space(None),
    }
}

impl NameData {
    /// The name without article, singular.
    pub open spec fn base_view(&self) -> Seq<char> {
        match self {
            NameData::Name(name) => name@,
            NameData::Noun(adjective, noun) => with_space(adjective_view(*adjective)) + noun.singular_view(),
        }
    }

    /// The name without article, plural.
    pub open spec fn plural_view(&self) -> Seq<char> {
        match self {
            NameData::Name(name) => name@,
            NameData::Noun(adjective, noun) => with_space(adjective_view(*adjective)) + noun.plural_view(),
        }
    }

    /// The name with the definite article.
    pub open spec fn definite_view(&self) -> Seq<char> {
        match self {
            NameData::Name(name) => name@,
            NameData::Noun(adjective, noun) => "the "@ + with_space(adjective_view(*adjective))
                + noun.singular_view(),
        }
    }

    /// "sword", "rusty sword" or the character's name.
    pub fn base(&self) -> (s: String)
        ensures
            s@ == self.base_view(),
    {
        match self {
            NameData::Name(name) => name.clone(),
            NameData::Noun(adjective, noun) => concat(adjective_text(adjective).as_str(), noun.singular()),
        }
    }

    /// "swords", "rusty swords" or the character's name.
    pub fn plural(&self) -> (s: String)
        ensures
            s@ == self.plural_view(),
    {
        match self {
            NameData::Name(name) => name.clone(),
            NameData::Noun(adjective, noun) => concat(adjective_text(adjective).as_str(), noun.plural()),
        }
    }

    /// "the sword", "the rusty sword" or the character's name.
    pub fn definite(&self) -> (s: String)
        ensures
            s@ == self.definite_view(),
    {
        match self {
            NameData::Name(name) => name.clone(),
            NameData::Noun(adjective, noun) => concat3(
                "the ",
                adjective_text(adjective).as_str(),
                noun.singular(),
            ),
        }
    }
}

impl Default for NameData {
    fn default() -> (n: Self)
        ensures
            n matches NameData::Name(name) && name@ == "???"@,
    {
        NameData::Name("???".to_owned())
    }
}

/// A name, with the body type of the creature where it has one.
#[derive(Clone)]
pub struct NameWithAttribute(pub NameData, pub Option<CreatureAttribute>);

/// The adjective of an optional attribute.
pub open spec fn attribute_view(attribute: Option<CreatureAttribute>) -> Option<Seq<char>> {
    match attribute {
        Some(a) => Some(a.adjective()),
        None => None,
    }
}

fn attribute_text(attribute: Option<CreatureAttribute>) -> (s: String)
    ensures
        s@ == with_space(attribute_view(attribute)),
{
    match attribute {
        Some(a) => format_option_with_space(Some(a.as_adjective())),
        None => format_option_with_space(None),
    }
}

impl NameWithAttribute {
    /// "muscular goblin" or the character's name.
    pub fn base(&self) -> (s: String)
        ensures
            s@ == (match self.0 {
                NameData::Name(name) => name@,
                NameData::Noun(adjective, noun) => with_space(adjective_view(adjective)) + with_space(
                    attribute_view(self.1),
                ) + noun.singular_view(),
            }),
    {
        match &self.0 {
            NameData::Name(name) => name.clone(),
            NameData::Noun(adjective, noun) => concat3(
                adjective_text(adjective).as_str(),
                attribute_text(self.1).as_str(),
                noun.singular(),
            ),
        }
    }

    /// "the muscular goblin" or the character's name.
    pub fn definite(&self) -> (s: String)
        ensures
            s@ == (match self.0 {
                NameData::Name(name) => name@,
                NameData::Noun(adjective, noun) => "the "@ + with_space(adjective_view(adjective))
                    + with_space(attribute_view(self.1)) + noun.singular_view(),
            }),
    {
        match &self.0 {
            NameData::Name(name) => name.clone(),
            NameData::Noun(adjective, noun) => {
                let mut s = concat3(
                    "the ",
                    adjective_text(adjective).as_str(),
                    attribute_text(self.1).as_str(),
                );
                s.append(noun.singular());
                s
            },
        }
    }
}

} // verus!

verus! {

/// How a noun is counted: by its adjective and its noun id.
pub type NounKey = (Option<Seq<char>>, Seq<char>);

/// The names among the name data, in order.
pub open spec fn names_of(data: Seq<NameIdData>) -> Seq<Seq<char>>
    decreases data.len(),
{
    if data.len() == 0 {
        Seq::empty()
    } else {
        match data.last() {
            NameIdData::Name(name) => names_of(data.drop_last()).push(name@),
            NameIdData::Noun(..) => names_of(data.drop_last()),
        }
    }
}

/// The noun keys among the name data, in order.
pub open spec fn noun_keys(data: Seq<NameIdData>) -> Seq<NounKey>
    decreases data.len(),
{
    if data.len() == 0 {
        Seq::empty()
    } else {
        match data.last() {
            NameIdData::Name(_) => noun_keys(data.drop_last()),
            NameIdData::Noun(adjective, noun_id) => noun_keys(data.drop_last()).push(
                (adjective_view(adjective), noun_id.0@),
            ),
        }
    }
}

/// Each key once, in the order of first occurrence.
pub open spec fn distinct_in_order(keys: Seq<NounKey>) -> Seq<NounKey>
    decreases keys.len(),
{
    if keys.len() == 0 {
        Seq::empty()
    } else {
        let earlier = distinct_in_order(keys.drop_last());
        if earlier.contains(keys.last()) {
            earlier
        } else {
            earlier.push(keys.last())
        }
    }
}

/// How often `key` occurs.
pub open spec fn occurrences(keys: Seq<NounKey>, key: NounKey) -> nat
    decreases keys.len(),
{
    if keys.len() == 0 {
        0
    } else {
        occurrences(keys.drop_last(), key) + if keys.last() == key {
            1nat
        } else {
            0nat
        }
    }
}

pub proof fn lemma_distinct_contains(keys: Seq<NounKey>, key: NounKey)
    ensures
        distinct_in_order(keys).contains(key) <==> keys.contains(key),
    decreases keys.len(),
{
    if keys.len() > 0 {
        lemma_distinct_contains(keys.drop_last(), key);
        if keys.contains(key) && key != keys.last() {
            let i = choose|i: int| 0 <= i < keys.len() && keys[i] == key;
            assert(keys.drop_last()[i] == key);
        }
        if keys.drop_last().contains(key) {
            let i = choose|i: int| 0 <= i < keys.drop_last().len() && keys.drop_last()[i] == key;
            assert(keys[i] == key);
        }
        let earlier = distinct_in_order(keys.drop_last());
        if !earlier.contains(keys.last()) {
            if earlier.push(keys.last()).contains(key) && key != keys.last() {
                let i = choose|i: int| 0 <= i < earlier.len() + 1 && earlier.push(keys.last())[i] == key;
                assert(earlier[i] == key);
            }
            if earlier.contains(key) {
                let i = choose|i: int| 0 <= i < earlier.len() && earlier[i] == key;
                assert(earlier.push(keys.last())[i] == key);
            }
            assert(earlier.push(keys.last())[earlier.len() as int] == keys.last());
        }
        assert(keys[keys.len() - 1] == keys.last());
    }
}

pub proof fn lemma_distinct_unique(keys: Seq<NounKey>)
    ensures
        forall|i: int, j: int|
            0 <= i < j < distinct_in_order(keys).len() ==> distinct_in_order(keys)[i] != distinct_in_order(keys)[j],
    decreases keys.len(),
{
    if keys.len() > 0 {
        lemma_distinct_unique(keys.drop_last());
        let earlier = distinct_in_order(keys.drop_last());
        if !earlier.contains(keys.last()) {
            assert forall|i: int, j: int|
                0 <= i < j < earlier.push(keys.last()).len() implies earlier.push(keys.last())[i] != earlier.push(keys.last())[j] by {
                if j == earlier.len() {
                    assert(earlier[i] == earlier.push(keys.last())[i]);
                }
            }
        }
    }
}

/// What `names_with_counts` writes: the names in order, then each noun once, in the order of
/// its first occurrence, with how often it occurs.
pub open spec fn names_with_counts_spec(
    data: Seq<NameIdData>,
    article: ArticleKind,
    format: CountFormat,
    noun_map: crate::asset::NounDataMap,
) -> Seq<Seq<char>> {
    let keys = noun_keys(data);
    names_of(data) + distinct_in_order(keys).map_values(
        |k: NounKey| noun_map.lookup_spec(k.1).counted(k.0, occurrences(keys, k) as u16, article, format),
    )
}

impl NameIdData {
    /// The name data, with the noun looked up.
    pub fn lookup(self, noun_map: &crate::asset::NounDataMap) -> (n: NameData)
        ensures
            self matches NameIdData::Name(name) ==> n == NameData::Name(name),
            self matches NameIdData::Noun(adjective, noun_id) ==> (n matches NameData::Noun(a, noun)
                && a == adjective && noun.singular_view() == noun_map.lookup_spec(noun_id.0@).singular_view()
                && noun.plural_view() == noun_map.lookup_spec(noun_id.0@).plural_view()
                && noun.article_view() == noun_map.lookup_spec(noun_id.0@).article_view()),
    {
        match self {
            NameIdData::Name(name) => NameData::Name(name),
            NameIdData::Noun(adjective, noun_id) => NameData::Noun(
                adjective,
                noun_map.lookup(&noun_id).duplicate(),
            ),
        }
    }
}

/// Whether two names are the same: the same own name, or the same adjective and noun forms.
pub open spec fn same_name(a: NameData, b: NameData) -> bool {
    match (a, b) {
        (NameData::Name(x), NameData::Name(y)) => x@ == y@,
        (NameData::Noun(adj_a, noun_a), NameData::Noun(adj_b, noun_b)) => adjective_view(adj_a) == adjective_view(adj_b)
            && noun_a.singular_view() == noun_b.singular_view() && noun_a.plural_view() == noun_b.plural_view()
            && noun_a.article_view() == noun_b.article_view(),
        _ => false,
    }
}

impl NameData {
    /// Whether the two names are the same.
    pub fn same_as(&self, other: &NameData) -> (r: bool)
        ensures
            r == same_name(*self, *other),
    {
        match (self, other) {
            (NameData::Name(x), NameData::Name(y)) => str_eq(x.as_str(), y.as_str()),
            (NameData::Noun(adj_a, noun_a), NameData::Noun(adj_b, noun_b)) => optional_text_eq(adj_a, adj_b)
                && str_eq(noun_a.singular(), noun_b.singular()) && str_eq(noun_a.plural(), noun_b.plural())
                && noun_a.article() == noun_b.article(),
            _ => false,
        }
    }
}

impl Default for NameIdData {
    fn default() -> (n: Self)
        ensures
            n matches NameIdData::Name(name) && name@ == "???"@,
    {
        NameIdData::Name("???".to_owned())
    }
}

fn optional_text_eq(a: &Option<Adjective>, b: &Option<Adjective>) -> (r: bool)
    ensures
        r == (adjective_view(*a) == adjective_view(*b)),
{
    match (a, b) {
        (Some(x), Some(y)) => str_eq(x.0.as_str(), y.0.as_str()),
        (None, None) => true,
        _ => false,
    }
}

/// Lists the names, then each noun once with how often it occurs (counted noun phrases in the
/// order of first occurrence).
pub fn names_with_counts(
    data: Vec<NameIdData>,
    article: ArticleKind,
    format: CountFormat,
    noun_map: &crate::asset::NounDataMap,
) -> (r: Vec<String>)
    requires
        forall|key: NounKey| #[trigger] occurrences(noun_keys(data@), key) <= u16::MAX,
    ensures
        r@.map_values(|s: String| s@) == names_with_counts_spec(data@, article, format, *noun_map),
{
    let mut names: Vec<String> = Vec::new();
    let mut nouns: Vec<(Option<Adjective>, NounId, u16)> = Vec::new();
    let mut i: usize = 0;
    while i < data.len()
        invariant
            i <= data.len(),
            forall|key: NounKey| #[trigger] occurrences(noun_keys(data@), key) <= u16::MAX,
            names@.map_values(|s: String| s@) == names_of(data@.take(i as int)),
            nouns.len() == distinct_in_order(noun_keys(data@.take(i as int))).len(),
            forall|j: int|
                0 <= j < nouns.len() ==> (adjective_view(#[trigger] nouns@[j].0), nouns@[j].1.0@)
                    == distinct_in_order(noun_keys(data@.take(i as int)))[j] && nouns@[j].2
                    == occurrences(noun_keys(data@.take(i as int)), (adjective_view(nouns@[j].0), nouns@[j].1.0@)),
            noun_keys(data@.take(i as int)).len() <= i,
        decreases data.len() - i,
    {
        let ghost prefix = data@.take(i as int);
        let ghost next = data@.take(i + 1);
        assert(next.drop_last() == prefix);
        assert(next.last() == data@[i as int]);
        let ghost old_names = names@;
        match data[i].clone_data() {
            NameIdData::Name(name) => {
                names.push(name);
                assert(names@.map_values(|s: String| s@) =~= old_names.map_values(|s: String| s@).push(data@[i as int]->Name_0@));
            },
            NameIdData::Noun(adjective, noun_id) => {
                let ghost keys = noun_keys(prefix);
                let ghost key = (adjective_view(adjective), noun_id.0@);
                assert(noun_keys(next) == keys.push(key));
                assert(names@.map_values(|s: String| s@) =~= old_names.map_values(|s: String| s@));
                assert(keys.push(key).drop_last() == keys);
                let ghost distinct = distinct_in_order(keys);
                proof {
                    lemma_distinct_unique(keys);
                }
                let found = find_noun(&nouns, &adjective, &noun_id);
                assert forall|k: int| 0 <= k < nouns.len() implies (adjective_view(nouns@[k].0), nouns@[k].1.0@) == distinct[k] by {
                    assert((adjective_view(nouns@[k].0), nouns@[k].1.0@) == distinct_in_order(noun_keys(prefix))[k]);
                }
                if found.is_some() {
                    let j = found.unwrap();
                    assert(distinct[j as int] == key);
                    assert(distinct.contains(key));
                    proof {
                        lemma_distinct_contains(keys, key);
                    }
                    assert(occurrences(keys, key) + 1 <= u16::MAX) by {
                        lemma_occurrences_prefix(data@, i + 1, key);
                        assert(occurrences(noun_keys(next), key) == occurrences(keys, key) + 1);
                        assert(occurrences(noun_keys(data@), key) <= u16::MAX);
                    }
                    let entry = nouns.remove(j);
                    nouns.insert(j, (entry.0, entry.1, entry.2 + 1));
                    assert forall|k: int| 0 <= k < nouns.len() implies (adjective_view(#[trigger] nouns@[k].0), nouns@[k].1.0@)
                        == distinct_in_order(noun_keys(next))[k] && nouns@[k].2
                        == occurrences(noun_keys(next), (adjective_view(nouns@[k].0), nouns@[k].1.0@)) by {
                        assert(distinct_in_order(noun_keys(next)) == distinct);
                        if k != j {
                            assert(distinct[k] != key);
                        }
                    }
                } else {
                    assert(!distinct.contains(key)) by {
                        if distinct.contains(key) {
                            let k = choose|k: int| 0 <= k < distinct.len() && distinct[k] == key;
                            assert((adjective_view(nouns@[k].0), nouns@[k].1.0@) == distinct[k]);
                        }
                    }
                    proof {
                        lemma_distinct_contains(keys, key);
                    }
                    nouns.push((adjective, noun_id, 1));
                    assert forall|k: int| 0 <= k < nouns.len() implies (adjective_view(#[trigger] nouns@[k].0), nouns@[k].1.0@)
                        == distinct_in_order(noun_keys(next))[k] && nouns@[k].2
                        == occurrences(noun_keys(next), (adjective_view(nouns@[k].0), nouns@[k].1.0@)) by {
                        assert(distinct_in_order(noun_keys(next)) == distinct.push(key));
                        if k < nouns.len() - 1 {
                            assert(distinct[k] != key);
                        } else {
                            lemma_occurrences_absent(keys, key);
                        }
                    }
                }
            },
        }
        i = i + 1;
    }
    assert(data@.take(data.len() as int) == data@);
    let ghost keys = noun_keys(data@);
    let ghost distinct = distinct_in_order(keys);
    let mut result = names;
    let ghost base = result@.map_values(|s: String| s@);
    let mut k: usize = 0;
    while k < nouns.len()
        invariant
            k <= nouns.len() == distinct.len(),
            base == names_of(data@),
            result@.map_values(|s: String| s@) == base + distinct.take(k as int).map_values(
                |key: NounKey| noun_map.lookup_spec(key.1).counted(key.0, occurrences(keys, key) as u16, article, format),
            ),
            forall|j: int|
                0 <= j < nouns.len() ==> (adjective_view(#[trigger] nouns@[j].0), nouns@[j].1.0@)
                    == distinct[j] && nouns@[j].2 == occurrences(keys, distinct[j]),
        decreases nouns.len() - k,
    {
        let noun = noun_map.lookup(&nouns[k].1);
        let text = noun.with_count(nouns[k].0.as_ref(), nouns[k].2, article, format);
        let ghost before = result@;
        result.push(text);
        assert(distinct.take(k + 1) == distinct.take(k as int).push(distinct[k as int]));
        assert(result@.map_values(|s: String| s@) =~= before.map_values(|s: String| s@).push(text@));
        k = k + 1;
    }
    assert(distinct.take(nouns.len() as int) == distinct);
    result
}

/// A noun occurs no more often among the first `j` entries than among them all.
proof fn lemma_occurrences_prefix(data: Seq<NameIdData>, j: int, key: NounKey)
    requires
        0 <= j <= data.len(),
    ensures
        occurrences(noun_keys(data.take(j)), key) <= occurrences(noun_keys(data), key),
    decreases data.len() - j,
{
    if j < data.len() {
        lemma_occurrences_prefix(data, j + 1, key);
        let next = data.take(j + 1);
        assert(next.drop_last() =~= data.take(j));
        let ks = noun_keys(data.take(j));
        match next.last() {
            NameIdData::Name(_) => {},
            NameIdData::Noun(a, id) => {
                assert(noun_keys(next) == ks.push((adjective_view(a), id.0@)));
                assert(ks.push((adjective_view(a), id.0@)).drop_last() =~= ks);
            },
        }
    } else {
        assert(data.take(j) =~= data);
    }
}

fn find_noun(nouns: &Vec<(Option<Adjective>, NounId, u16)>, adjective: &Option<Adjective>, noun_id: &NounId) -> (r: Option<usize>)
    ensures
        r matches Some(j) ==> j < nouns.len() && (adjective_view(nouns@[j as int].0), nouns@[j as int].1.0@) == (adjective_view(*adjective), noun_id.0@),
        r is None ==> forall|k: int| 0 <= k < nouns.len() ==> (adjective_view(nouns@[k].0), nouns@[k].1.0@) != (adjective_view(*adjective), noun_id.0@),
{
    let mut j: usize = 0;
    while j < nouns.len()
        invariant
            j <= nouns.len(),
            forall|k: int| 0 <= k < j ==> (adjective_view(nouns@[k].0), nouns@[k].1.0@) != (adjective_view(*adjective), noun_id.0@),
        decreases nouns.len() - j,
    {
        if optional_text_eq(&nouns[j].0, adjective) && str_eq(nouns[j].1.0.as_str(), noun_id.0.as_str()) {
            return Some(j);
        }
        j = j + 1;
    }
    None
}

/// How often the keys of `listed` occur in `keys`, added up.
pub open spec fn total_occurrences(listed: Seq<NounKey>, keys: Seq<NounKey>) -> nat
    decreases listed.len(),
{
    if listed.len() == 0 {
        0
    } else {
        total_occurrences(listed.drop_last(), keys) + occurrences(keys, listed.last())
    }
}

proof fn lemma_total_push(listed: Seq<NounKey>, keys: Seq<NounKey>, x: NounKey)
    ensures
        total_occurrences(listed, keys.push(x)) == total_occurrences(listed, keys) + occurrences(listed, x),
    decreases listed.len(),
{
    if listed.len() > 0 {
        lemma_total_push(listed.drop_last(), keys, x);
        assert(keys.push(x).drop_last() =~= keys);
    }
}

proof fn lemma_occurrences_once(listed: Seq<NounKey>, x: NounKey)
    requires
        forall|i: int, j: int| 0 <= i < j < listed.len() ==> listed[i] != listed[j],
        listed.contains(x),
    ensures
        occurrences(listed, x) == 1,
    decreases listed.len(),
{
    let rest = listed.drop_last();
    assert(listed[listed.len() - 1] == listed.last());
    if listed.last() == x {
        if rest.contains(x) {
            let i = choose|i: int| 0 <= i < rest.len() && rest[i] == x;
            assert(listed[i] == listed[listed.len() - 1]);
        }
        lemma_occurrences_absent(rest, x);
    } else {
        let i = choose|i: int| 0 <= i < listed.len() && listed[i] == x;
        assert(rest[i] == x);
        lemma_occurrences_once(rest, x);
    }
}

/// Every unnamed entry is counted once: the counts of the distinct nouns that
/// `names_with_counts` lists add up to the number of entries without a name.
pub proof fn law_noun_counts_cover_entries(data: Seq<NameIdData>)
    ensures
        total_occurrences(distinct_in_order(noun_keys(data)), noun_keys(data)) == noun_keys(data).len(),
{
    lemma_counts_cover_keys(noun_keys(data));
}

proof fn lemma_counts_cover_keys(keys: Seq<NounKey>)
    ensures
        total_occurrences(distinct_in_order(keys), keys) == keys.len(),
    decreases keys.len(),
{
    if keys.len() > 0 {
        let rest = keys.drop_last();
        let x = keys.last();
        let earlier = distinct_in_order(rest);
        lemma_counts_cover_keys(rest);
        assert(keys =~= rest.push(x));
        lemma_total_push(earlier, rest, x);
        lemma_distinct_unique(rest);
        lemma_distinct_contains(rest, x);
        if earlier.contains(x) {
            lemma_occurrences_once(earlier, x);
        } else {
            lemma_occurrences_absent(earlier, x);
            lemma_occurrences_absent(rest, x);
            assert(earlier.push(x).drop_last() =~= earlier);
        }
    }
}

pub proof fn lemma_occurrences_bound(keys: Seq<NounKey>, key: NounKey)
    ensures
        occurrences(keys, key) <= keys.len(),
    decreases keys.len(),
{
    if keys.len() > 0 {
        lemma_occurrences_bound(keys.drop_last(), key);
    }
}

pub proof fn lemma_occurrences_absent(keys: Seq<NounKey>, key: NounKey)
    requires
        !keys.contains(key),
    ensures
        occurrences(keys, key) == 0,
    decreases keys.len(),
{
    if keys.len() > 0 {
        assert(keys[keys.len() - 1] == keys.last());
        if keys.drop_last().contains(key) {
            let i = choose|i: int| 0 <= i < keys.drop_last().len() && keys.drop_last()[i] == key;
            assert(keys[i] == key);
        }
        lemma_occurrences_absent(keys.drop_last(), key);
    }
}

impl NameIdData {
    /// A copy of the name data.
    pub fn clone_data(&self) -> (n: Self)
        ensures
            n == *self,
    {
        match self {
            NameIdData::Name(name) => NameIdData::Name(name.clone()),
            NameIdData::Noun(adjective, noun_id) => NameIdData::Noun(
                match adjective {
                    Some(a) => Some(Adjective(a.0.clone())),
                    None => None,
                },
                NounId(noun_id.0.clone()),
            ),
        }
    }
}

} // verus!
