use crate::text::{
    ascii_lower, chars_of, concat3, concat5, string_of_range, to_ascii_lower, trim_end,
    trimmed_len,
};
use vstd::prelude::*;

verus! {

/// Whether `prefix` starts `input`, ignoring ASCII case.
pub open spec fn matches_prefix(input: Seq<char>, prefix: Seq<char>) -> bool {
    &&& prefix.len() <= input.len()
    &&& forall|i: int| 0 <= i < prefix.len() ==> ascii_lower(#[trigger] input[i]) == ascii_lower(prefix[i])
}

/// The digit value of a decimal digit character.
pub open spec fn digit_value(c: char) -> int {
    (c as int) - ('0' as int)
}

/// The position of the first space in `s` at or after `i`.
pub open spec fn find_space(s: Seq<char>, i: int) -> Option<int>
    decreases s.len() - i,
{
    if i < 0 || i >= s.len() {
        None
    } else if s[i] == ' ' {
        Some(i)
    } else {
        find_space(s, i + 1)
    }
}

/// Whether every character is an ASCII decimal digit.
pub open spec fn all_digits(s: Seq<char>) -> bool {
    forall|i: int| 0 <= i < s.len() ==> '0' <= #[trigger] s[i] && s[i] <= '9'
}

/// The number that a string of decimal digits denotes.
pub open spec fn digits_value(s: Seq<char>) -> nat
    decreases s.len(),
{
    if s.len() == 0 {
        0
    } else {
        (digits_value(s.drop_last()) * 10 + digit_value(s.last())) as nat
    }
}

/// What `u16::from_str` gives: an optional `+`, then one or more decimal digits whose value fits.
pub open spec fn parse_u16(s: Seq<char>) -> Option<u16> {
    let digits = if s.len() > 0 && s[0] == '+' { s.skip(1) } else { s };
    if digits.len() > 0 && all_digits(digits) && digits_value(digits) <= u16::MAX {
        Some(digits_value(digits) as u16)
    } else {
        None
    }
}

proof fn lemma_digits_value_grows(s: Seq<char>, i: int)
    requires
        0 <= i <= s.len(),
        all_digits(s),
    ensures
        digits_value(s.take(i)) <= digits_value(s),
    decreases s.len() - i,
{
    if i < s.len() {
        lemma_digits_value_grows(s, i + 1);
        assert(s.take(i + 1).drop_last() == s.take(i));
        assert(s.take(i + 1).last() == s[i]);
    } else {
        assert(s.take(i) == s);
    }
}

/// Parses a decimal `u16` the way `u16::from_str` does.
pub fn parse_u16_chars(s: &Vec<char>) -> (r: Option<u16>)
    ensures
        r == parse_u16(s@),
{
    let start: usize = if s.len() > 0 && s[0] == '+' { 1 } else { 0 };
    let ghost digits = if s@.len() > 0 && s@[0] == '+' { s@.skip(1) } else { s@ };
    assert(digits == s@.skip(start as int));
    if start >= s.len() {
        return None;
    }
    let mut value: u32 = 0;
    let mut i: usize = start;
    while i < s.len()
        invariant
            start <= i <= s.len(),
            digits == s@.skip(start as int),
            digits == (if s@.len() > 0 && s@[0] == '+' { s@.skip(1) } else { s@ }),
            digits.len() > 0,
            all_digits(s@.subrange(start as int, i as int)),
            value == digits_value(s@.subrange(start as int, i as int)),
            value <= u16::MAX,
        decreases s.len() - i,
    {
        let c = s[i];
        if !('0' <= c && c <= '9') {
            assert(digits[i - start] == c);
            assert(!all_digits(digits));
            return None;
        }
        let d: u32 = (c as u32) - ('0' as u32);
        let ghost prev = s@.subrange(start as int, i as int);
        let ghost next = s@.subrange(start as int, i + 1);
        assert(next.drop_last() == prev);
        assert(next.last() == c);
        assert(all_digits(next));
        if value > 6553 || value * 10 + d > 65535 {
            proof {
                assert(next == digits.take(i + 1 - start));
                assert(digits_value(next) == value * 10 + d);
                if all_digits(digits) {
                    lemma_digits_value_grows(digits, i + 1 - start);
                }
            }
            return None;
        }
        value = value * 10 + d;
        i = i + 1;
    }
    assert(s@.subrange(start as int, s.len() as int) == digits);
    Some(value as u16)
}

/// A command being read word by word. It holds the whole input and how many characters of it
/// have been consumed.
#[derive(Clone, Copy)]
pub struct Parse<'a> {
    input: &'a str,
    start: usize,
}

impl<'a> Parse<'a> {
    #[verifier::type_invariant]
    spec fn inv(self) -> bool {
        self.start <= self.input@.len()
    }

    /// The whole input.
    pub closed spec fn input_view(self) -> Seq<char> {
        self.input@
    }

    /// How many characters have been consumed.
    pub closed spec fn start_view(self) -> nat {
        self.start as nat
    }

    /// The part of the input that is not consumed yet.
    pub open spec fn active(self) -> Seq<char> {
        self.input_view().skip(self.start_view() as int)
    }

    /// The consumed part of the input, without trailing whitespace.
    pub open spec fn consumed(self) -> Seq<char> {
        trim_end(self.input_view().take(self.start_view() as int))
    }

    /// What `try_advance` gives for `word`: consume the word, and the space after it if any.
    pub open spec fn advance_spec(self, word: Seq<char>) -> Option<nat> {
        let rest = self.active();
        if !matches_prefix(rest, word) {
            None
        } else if rest.len() == word.len() {
            Some((self.start_view() + word.len()) as nat)
        } else if rest[word.len() as int] == ' ' {
            Some((self.start_view() + word.len() + 1) as nat)
        } else {
            None
        }
    }

    /// Starts parsing `input` from its beginning.
    pub fn new(input: &'a str) -> (p: Self)
        ensures
            p.input_view() == input@,
            p.start_view() == 0,
    {
        Self { input, start: 0 }
    }

    /// Calls `closure` if no input is left.
    pub fn empty<R, F: FnOnce() -> R>(&self, closure: F) -> (r: Option<R>)
        requires
            self.active().len() == 0 ==> call_requires(closure, ()),
        ensures
            r is Some <==> self.active().len() == 0,
            r matches Some(v) ==> call_ensures(closure, (), v),
    {
        if self.active_len() == 0 {
            Some(closure())
        } else {
            None
        }
    }

    /// Calls `on_match` with what is left after `word`, if the input goes on with `word`.
    pub fn literal<R, F: FnOnce(Parse<'a>) -> R>(&self, word: &str, on_match: F) -> (r: Option<R>)
        requires
            forall|p: Parse<'a>|
                p.input_view() == self.input_view() && Some(p.start_view()) == self.advance_spec(
                    word@,
                ) ==> call_requires(on_match, (p,)),
        ensures
            r is Some <==> self.advance_spec(word@) is Some,
            r matches Some(v) ==> exists|p: Parse<'a>|
                p.input_view() == self.input_view() && Some(p.start_view()) == self.advance_spec(
                    word@,
                ) && call_ensures(on_match, (p,), v),
    {
        match self.try_advance(word) {
            Some(p) => Some(on_match(p)),
            None => None,
        }
    }

    /// Reads the next word as a `u16` and calls `on_match` with the rest and the number.
    pub fn numeric<R, F: FnOnce(Parse<'a>, u16) -> R>(&self, on_match: F) -> (r: Option<R>)
        requires
            forall|p: Parse<'a>, n: u16| call_requires(on_match, (p, n)),
        ensures
            r is Some <==> parse_u16(self.next_word_spec()) is Some,
            r matches Some(v) ==> exists|p: Parse<'a>|
                p.input_view() == self.input_view() && p.start_view() == self.after_next_word() && call_ensures(
                    on_match,
                    (p, parse_u16(self.next_word_spec())->0),
                    v,
                ),
    {
        let (word, parse) = self.next_word();
        match parse_u16_chars(&word) {
            Some(n) => Some(on_match(parse, n)),
            None => None,
        }
    }

    /// The next word: the unconsumed input up to its first space.
    pub open spec fn next_word_spec(self) -> Seq<char> {
        match find_space(self.active(), 0) {
            Some(i) => self.active().take(i),
            None => self.active(),
        }
    }

    /// Where reading goes on after the next word: past the space that ends it, or, where no
    /// space ends it, where the word starts.
    pub open spec fn after_next_word(self) -> nat {
        match find_space(self.active(), 0) {
            Some(i) => (self.start_view() + i + 1) as nat,
            None => self.start_view(),
        }
    }

    /// Reads the next word as a `u16`: the number and where reading goes on after it.
    pub(crate) fn read_number(&self) -> (r: Option<(Self, u16)>)
        ensures
            r is None <==> parse_u16(self.next_word_spec()) is None,
            r matches Some((p, n)) ==> p.input_view() == self.input_view() && p.start_view()
                == self.after_next_word() && Some(n) == parse_u16(self.next_word_spec()),
    {
        let (word, parse) = self.next_word();
        match parse_u16_chars(&word) {
            Some(n) => Some((parse, n)),
            None => None,
        }
    }

    /// Calls `done` if no input is left, and otherwise fails with a message that quotes what was read.
    pub fn done_or_err<R, F: FnOnce() -> Result<R, String>>(self, done: F) -> (r: Result<R, String>)
        requires
            self.active().len() == 0 ==> call_requires(done, ()),
        ensures
            self.active().len() == 0 ==> call_ensures(done, (), r),
            self.active().len() != 0 ==> (r matches Err(e) && e@ == "Unexpected argument after \""@
                + self.consumed() + "\""@),
    {
        if self.active_len() == 0 {
            done()
        } else {
            let consumed = self.consumed_input();
            Err(concat3("Unexpected argument after \"", consumed.as_str(), "\""))
        }
    }

    /// Hands what is left of the input to `closure`.
    pub fn take_remaining<R, F: FnOnce(&str) -> R>(self, closure: F) -> (r: R)
        requires
            forall|s: &str| s@ == self.active() ==> call_requires(closure, (s,)),
        ensures
            exists|s: &str| s@ == self.active() && call_ensures(closure, (s,), r),
    {
        let remaining = self.active_input();
        closure(remaining.as_str())
    }

    /// Matches the names of the provided objects against the start of the remainder of the command.
    /// If a match is found, `success` is called with the first matching object and a Parse for the
    /// new remainder. If none is found, `failure` is called with the remainder of the command.
    pub fn match_against<A, R, F, E>(self, iterable: Vec<(String, A)>, success: F, failure: E) -> (r: R)
        where
            F: FnOnce(Parse<'a>, A) -> R,
            E: FnOnce(&str) -> R,
        requires
            forall|p: Parse<'a>, a: A| call_requires(success, (p, a)),
            forall|s: &str| s@ == self.active() ==> call_requires(failure, (s,)),
        ensures
            (exists|i: int| 0 <= i < iterable.len() && (self.advance_spec(
                #[trigger] iterable@[i].0@,
            ) is Some)) ==> exists|i: int, p: Parse<'a>|
                0 <= i < iterable.len() && self.advance_spec(iterable@[i].0@) is Some
                    && (forall|j: int| 0 <= j < i ==> self.advance_spec(#[trigger] iterable@[j].0@) is None)
                    && p.input_view() == self.input_view() && Some(p.start_view()) == self.advance_spec(iterable@[i].0@)
                    && call_ensures(success, (p, iterable@[i].1), r),
            (forall|i: int| 0 <= i < iterable.len() ==> (self.advance_spec(
                #[trigger] iterable@[i].0@,
            ) is None)) ==> exists|s: &str| s@ == self.active() && call_ensures(failure, (s,), r),
    {
        let ghost original = iterable@;
        let mut candidates = iterable;
        let n = candidates.len();
        let mut i: usize = 0;
        let mut found: Option<(Parse<'a>, A)> = None;
        while i < n
            invariant
                n == original.len(),
                candidates.len() == n - i,
                forall|k: int| 0 <= k < n - i ==> #[trigger] candidates@[k] == original[k + i],
                original == iterable@,
                found is None,
                i <= n,
                forall|j: int| 0 <= j < i ==> self.advance_spec(#[trigger] original[j].0@) is None,
                forall|p: Parse<'a>, a: A| call_requires(success, (p, a)),
            decreases n - i,
        {
            let (name, object) = candidates.remove(0);
            assert(name@ == original[i as int].0@);
            match self.try_advance(name.as_str()) {
                Some(p) => {
                    found = Some((p, object));
                    assert(object == original[i as int].1);
                    proof {
                        assert(self.advance_spec(original[i as int].0@) is Some);
                    }
                    let (p, object) = found.unwrap();
                    let r = success(p, object);
                    assert(0 <= i < original.len() && self.advance_spec(original[i as int].0@) is Some
                        && (forall|j: int| 0 <= j < i ==> self.advance_spec(#[trigger] original[j].0@) is None)
                        && p.input_view() == self.input_view() && Some(p.start_view()) == self.advance_spec(original[i as int].0@)
                        && call_ensures(success, (p, original[i as int].1), r));
                    assert(self.advance_spec(iterable@[i as int].0@) is Some);
                    return r;
                },
                None => {},
            }
            i = i + 1;
        }
        let remaining = self.active_input();
        failure(remaining.as_str())
    }

    /// The error for input that no rule accepts, quoting what was read and what was not.
    pub fn default_err<R>(&self) -> (r: Result<R, String>)
        ensures
            r matches Err(e) && (if self.consumed().len() == 0 {
                e@ == "Unexpected input: \""@ + self.active() + "\""@
            } else {
                e@ == "Unexpected input after \""@ + self.consumed() + "\": \""@ + self.active()
                    + "\""@
            }),
    {
        let consumed = self.consumed_input();
        let remaining = self.active_input();
        if consumed.as_str().is_empty() {
            Err(concat3("Unexpected input: \"", remaining.as_str(), "\""))
        } else {
            Err(
                concat5(
                    "Unexpected input after \"",
                    consumed.as_str(),
                    "\": \"",
                    remaining.as_str(),
                    "\"",
                ),
            )
        }
    }

    pub(crate) fn active_len(&self) -> (n: usize)
        ensures
            n == self.active().len(),
            self.start_view() <= self.input_view().len(),
    {
        proof {
            use_type_invariant(self);
        }
        let chars = chars_of(self.input);
        chars.len() - self.start
    }

    pub(crate) fn active_input(&self) -> (s: String)
        ensures
            s@ == self.active(),
    {
        proof {
            use_type_invariant(self);
        }
        let chars = chars_of(self.input);
        string_of_range(&chars, self.start, chars.len())
    }

    pub(crate) fn consumed_input(&self) -> (s: String)
        ensures
            s@ == self.consumed(),
    {
        proof {
            use_type_invariant(self);
        }
        let chars = chars_of(self.input);
        let n = trimmed_len(&chars, self.start);
        assert(chars@.take(n as int) == chars@.subrange(0, n as int));
        string_of_range(&chars, 0, n)
    }

    pub(crate) fn try_advance(&self, word: &str) -> (r: Option<Self>)
        ensures
            r matches Some(p) ==> p.input_view() == self.input_view() && Some(p.start_view())
                == self.advance_spec(word@),
            r is None <==> self.advance_spec(word@) is None,
    {
        proof {
            use_type_invariant(self);
        }
        let chars = chars_of(self.input);
        let word_chars = chars_of(word);
        let ghost rest = self.active();
        let advance = match starts_with_ignore_ascii_case(&chars, self.start, &word_chars) {
            Some(n) => n,
            None => return None,
        };
        assert(advance == word_chars.len());
        assert(word_chars@.len() <= chars@.len() - self.start);
        assert(self.start + advance <= chars.len());
        let after = self.start + advance;
        if after == chars.len() {
            Some(self.advance_start(advance))
        } else if chars[after] == ' ' {
            assert(rest[word@.len() as int] == chars@[after as int]);
            Some(self.advance_start(advance + 1))
        } else {
            assert(rest[word@.len() as int] == chars@[after as int]);
            None
        }
    }

    fn next_word(&self) -> (r: (Vec<char>, Self))
        ensures
            r.0@ == self.next_word_spec(),
            r.1.input_view() == self.input_view(),
            r.1.start_view() == self.after_next_word(),
    {
        proof {
            use_type_invariant(self);
        }
        let chars = chars_of(self.input);
        let ghost active = self.active();
        let mut i = self.start;
        while i < chars.len()
            invariant
                self.start <= i <= chars.len(),
                chars@ == self.input@,
                active == chars@.skip(self.start as int),
                find_space(active, 0) == find_space(active, i - self.start),
            decreases chars.len() - i,
        {
            if chars[i] == ' ' {
                let k = i - self.start;
                assert(active[k as int] == ' ');
                let word = string_of_range(&chars, self.start, i);
                let word = chars_of(word.as_str());
                assert(active.take(k as int) == chars@.subrange(self.start as int, i as int));
                return (word, self.advance_start(k + 1));
            }
            assert(active[i - self.start] == chars@[i as int]);
            i = i + 1;
        }
        let word = string_of_range(&chars, self.start, chars.len());
        let word = chars_of(word.as_str());
        (word, *self)
    }

    fn advance_start(&self, length: usize) -> (p: Self)
        requires
            self.start_view() + length <= self.input_view().len() <= usize::MAX,
        ensures
            p.input_view() == self.input_view(),
            p.start_view() == self.start_view() + length,
    {
        Parse { input: self.input, start: self.start + length }
    }
}

/// If `prefix` starts `input[from..]`, ignoring ASCII case, how many characters it covers.
pub fn starts_with_ignore_ascii_case(input: &Vec<char>, from: usize, prefix: &Vec<char>) -> (r: Option<usize>)
    requires
        from <= input.len(),
    ensures
        r is Some <==> matches_prefix(input@.skip(from as int), prefix@),
        r matches Some(n) ==> n == prefix.len(),
{
    let ghost rest = input@.skip(from as int);
    if input.len() - from < prefix.len() {
        return None;
    }
    let mut i: usize = 0;
    while i < prefix.len()
        invariant
            i <= prefix.len() <= input.len() - from,
            rest == input@.skip(from as int),
            forall|j: int| 0 <= j < i ==> ascii_lower(#[trigger] rest[j]) == ascii_lower(prefix@[j]),
        decreases prefix.len() - i,
    {
        if to_ascii_lower(input[from + i]) != to_ascii_lower(prefix[i]) {
            assert(rest[i as int] == input@[from + i]);
            return None;
        }
        assert(rest[i as int] == input@[from + i]);
        i = i + 1;
    }
    Some(prefix.len())
}

} // verus!
