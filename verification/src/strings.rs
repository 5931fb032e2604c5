//! The string pass: concatenated names, cities that contain a pattern, and
//! names reversed by character.

use vstd::prelude::*;
use crate::record::{Record, cities_of, names_of};

verus! {

/// `String::push` of std: appends one character to the end of the string.
pub assume_specification[ String::push ](s: &mut String, c: char)
    ensures
        final(s)@ == old(s)@.push(c),
;

/// The separator that follows every name in the concatenation: one space.
pub open spec fn separator() -> Seq<char> {
    seq![' ']
}

/// The pattern that the pass looks for in cities: the text `New`.
pub open spec fn city_pattern() -> Seq<char> {
    seq!['N', 'e', 'w']
}

/// Every name followed by the separator, in order, as one text.
pub open spec fn joined(names: Seq<Seq<char>>) -> Seq<char>
    decreases names.len(),
{
    if names.len() == 0 {
        Seq::empty()
    } else {
        joined(names.drop_last()) + names.last() + separator()
    }
}

/// The lengths of all texts together, in characters.
pub open spec fn total_len(texts: Seq<Seq<char>>) -> nat
    decreases texts.len(),
{
    if texts.len() == 0 {
        0
    } else {
        total_len(texts.drop_last()) + texts.last().len()
    }
}

/// `needle` stands in `hay` at position `at`, character for character.
pub open spec fn occurs_at(hay: Seq<char>, needle: Seq<char>, at: int) -> bool {
    &&& 0 <= at
    &&& at + needle.len() <= hay.len()
    &&& hay.subrange(at, at + needle.len()) == needle
}

/// `needle` stands somewhere in `hay`. The match is exact: case counts.
pub open spec fn contains_text(hay: Seq<char>, needle: Seq<char>) -> bool {
    exists|at: int| occurs_at(hay, needle, at)
}

/// How many of `texts` contain `needle`.
pub open spec fn count_containing(texts: Seq<Seq<char>>, needle: Seq<char>) -> nat
    decreases texts.len(),
{
    if texts.len() == 0 {
        0
    } else {
        count_containing(texts.drop_last(), needle) + if contains_text(texts.last(), needle) {
            1nat
        } else {
            0nat
        }
    }
}

/// Each text with its characters in reverse order.
pub open spec fn reversed_all(texts: Seq<Seq<char>>) -> Seq<Seq<char>> {
    Seq::new(texts.len(), |i: int| texts[i].reverse())
}

/// The texts that a sequence of strings holds.
pub open spec fn texts_of(strings: Seq<String>) -> Seq<Seq<char>> {
    Seq::new(strings.len(), |i: int| strings[i]@)
}

/// Reversing a reversed text gives the text back, for every text: the empty
/// one and those with repeated characters too.
pub proof fn reversal_round_trip(text: Seq<char>)
    ensures
        text.reverse().reverse() == text,
        text.reverse().len() == text.len(),
{
    assert(text.reverse().reverse() =~= text);
}

/// The concatenation is as long as all names together plus one separator
/// character for each name.
pub proof fn joined_length(names: Seq<Seq<char>>)
    ensures
        joined(names).len() == total_len(names) + names.len(),
    decreases names.len(),
{
    if names.len() > 0 {
        joined_length(names.drop_last());
    }
}

/// A count over a collection to which `more` texts were added is the count
/// before plus the count of what was added, so it never falls.
pub proof fn count_grows_with_texts(
    texts: Seq<Seq<char>>,
    more: Seq<Seq<char>>,
    needle: Seq<char>,
)
    ensures
        count_containing(texts + more, needle) == count_containing(texts, needle)
            + count_containing(more, needle),
        count_containing(texts + more, needle) >= count_containing(texts, needle),
    decreases more.len(),
{
    if more.len() == 0 {
        assert(texts + more =~= texts);
    } else {
        count_grows_with_texts(texts, more.drop_last(), needle);
        assert((texts + more).drop_last() =~= texts + more.drop_last());
        assert((texts + more).last() == more.last());
    }
}

/// Over record collections: adding records never lowers the number of cities
/// that contain the needle.
pub proof fn count_grows_with_records(records: Seq<Record>, more: Seq<Record>, needle: Seq<char>)
    ensures
        count_containing(cities_of(records + more), needle) == count_containing(
            cities_of(records),
            needle,
        ) + count_containing(cities_of(more), needle),
        count_containing(cities_of(records + more), needle) >= count_containing(
            cities_of(records),
            needle,
        ),
{
    assert(cities_of(records + more) =~= cities_of(records) + cities_of(more));
    count_grows_with_texts(cities_of(records), cities_of(more), needle);
}

/// Adding one text raises the count by one where the text contains the
/// needle, and leaves it as it was where it does not.
pub proof fn count_after_one_more(texts: Seq<Seq<char>>, text: Seq<char>, needle: Seq<char>)
    ensures
        count_containing(texts.push(text), needle) == count_containing(texts, needle) + if contains_text(
            text,
            needle,
        ) {
            1nat
        } else {
            0nat
        },
{
    assert(texts.push(text).drop_last() =~= texts);
    assert(texts.push(text).last() == text);
}

/// The count is 0 exactly when no text contains the needle, and never more
/// than the number of texts.
pub proof fn count_zero_without_match(texts: Seq<Seq<char>>, needle: Seq<char>)
    ensures
        count_containing(texts, needle) == 0 <==> forall|i: int|
            0 <= i < texts.len() ==> !contains_text(#[trigger] texts[i], needle),
        count_containing(texts, needle) <= texts.len(),
    decreases texts.len(),
{
    if texts.len() > 0 {
        let front = texts.drop_last();
        count_zero_without_match(front, needle);
        if count_containing(texts, needle) == 0 {
            assert forall|i: int| 0 <= i < texts.len() implies !contains_text(
                #[trigger] texts[i],
                needle,
            ) by {
                if i < front.len() {
                    assert(front[i] == texts[i]);
                }
            }
        } else if forall|i: int| 0 <= i < texts.len() ==> !contains_text(#[trigger] texts[i], needle) {
            assert forall|i: int| 0 <= i < front.len() implies !contains_text(
                #[trigger] front[i],
                needle,
            ) by {
                assert(front[i] == texts[i]);
            }
            assert(!contains_text(texts[texts.len() - 1], needle));
        }
    }
}

/// The characters of a text, in order.
pub fn chars_of(text: &str) -> (out: Vec<char>)
    ensures
        out@ == text@,
{
    let mut out: Vec<char> = Vec::new();
    for c in it: text.chars()
        invariant
            out@ == text@.take(it.index() as int),
            it.seq() == text@,
    {
        out.push(c);
    }
    out
}

/// Whether `needle` stands in `hay` at `at`.
fn matches_at(hay: &Vec<char>, needle: &Vec<char>, at: usize) -> (out: bool)
    requires
        at + needle.len() <= hay.len(),
    ensures
        out == occurs_at(hay@, needle@, at as int),
{
    let ghost window = hay@.subrange(at as int, at + needle.len());
    let mut k: usize = 0;
    while k < needle.len()
        invariant
            k <= needle.len(),
            at + needle.len() <= hay.len(),
            window == hay@.subrange(at as int, at + needle.len()),
            forall|j: int| 0 <= j < k ==> window[j] == needle@[j],
        decreases needle.len() - k,
    {
        if hay[at + k] != needle[k] {
            proof {
                assert(window[k as int] != needle@[k as int]);
            }
            return false;
        }
        k = k + 1;
    }
    proof {
        assert(window =~= needle@);
    }
    true
}

/// Whether `hay` contains `needle` as a substring, anywhere and case
/// sensitively. Every text contains the empty text.
pub fn contains(hay: &str, needle: &str) -> (out: bool)
    ensures
        out == contains_text(hay@, needle@),
{
    let h = chars_of(hay);
    let n = chars_of(needle);
    if n.len() > h.len() {
        return false;
    }
    let last: usize = h.len() - n.len();
    let mut at: usize = 0;
    loop
        invariant
            at <= last,
            last + n.len() == h.len(),
            h@ == hay@,
            n@ == needle@,
            forall|k: int| 0 <= k < at ==> !occurs_at(h@, n@, k),
        ensures
            forall|k: int| 0 <= k <= last ==> !occurs_at(h@, n@, k),
        decreases last - at,
    {
        if matches_at(&h, &n, at) {
            return true;
        }
        if at == last {
            break;
        }
        at = at + 1;
    }
    false
}

/// Every name followed by one space, in collection order, as one text.
pub fn concatenated_names(records: &[Record]) -> (out: String)
    ensures
        out@ == joined(names_of(records@)),
        out@.len() == total_len(names_of(records@)) + records@.len(),
{
    let ghost names = names_of(records@);
    let mut out = String::new();
    let mut i: usize = 0;
    while i < records.len()
        invariant
            i <= records.len(),
            names == names_of(records@),
            out@ == joined(names.take(i as int)),
        decreases records.len() - i,
    {
        proof {
            reveal_strlit(" ");
            let upto = names.take(i as int + 1);
            assert(upto.drop_last() =~= names.take(i as int));
            assert(upto.last() == records[i as int]@.name);
            assert(" "@ =~= separator());
        }
        out.append(records[i].name());
        out.append(" ");
        i = i + 1;
    }
    proof {
        assert(names.take(i as int) =~= names);
        joined_length(names);
    }
    out
}

/// Number of records whose city contains `pattern`.
pub fn count_cities_containing(records: &[Record], pattern: &str) -> (out: usize)
    ensures
        out == count_containing(cities_of(records@), pattern@),
{
    let ghost cities = cities_of(records@);
    let mut count: usize = 0;
    let mut i: usize = 0;
    while i < records.len()
        invariant
            i <= records.len(),
            cities == cities_of(records@),
            count == count_containing(cities.take(i as int), pattern@),
            count <= i,
        decreases records.len() - i,
    {
        proof {
            let upto = cities.take(i as int + 1);
            assert(upto.drop_last() =~= cities.take(i as int));
            assert(upto.last() == records[i as int]@.city);
        }
        if contains(records[i].city(), pattern) {
            count = count + 1;
        }
        i = i + 1;
    }
    proof {
        assert(cities.take(i as int) =~= cities);
    }
    count
}

/// The text with its characters in reverse order. The unit is the character,
/// not the byte, so the result is valid text whatever the characters are.
pub fn reverse_text(text: &str) -> (out: String)
    ensures
        out@ == text@.reverse(),
{
    let chars = chars_of(text);
    let mut out = String::new();
    let mut i: usize = chars.len();
    while i > 0
        invariant
            i <= chars.len(),
            chars@ == text@,
            out@.len() == chars.len() - i,
            forall|k: int| 0 <= k < out@.len() ==> out@[k] == chars@[chars.len() - 1 - k],
        decreases i,
    {
        i = i - 1;
        out.push(chars[i]);
    }
    proof {
        assert(out@ =~= text@.reverse());
    }
    out
}

/// The name of every record, reversed by character, in collection order.
pub fn reversed_names(records: &[Record]) -> (out: Vec<String>)
    ensures
        texts_of(out@) == reversed_all(names_of(records@)),
{
    let ghost names = names_of(records@);
    let mut out: Vec<String> = Vec::new();
    let mut i: usize = 0;
    while i < records.len()
        invariant
            i <= records.len(),
            names == names_of(records@),
            out@.len() == i,
            forall|k: int| 0 <= k < i ==> (#[trigger] out@[k])@ == names[k].reverse(),
        decreases records.len() - i,
    {
        let r = reverse_text(records[i].name());
        out.push(r);
        i = i + 1;
    }
    proof {
        assert(texts_of(out@) =~= reversed_all(names));
    }
    out
}

/// What the string pass computes.
#[derive(Debug)]
pub struct StringSummary {
    /// Every name followed by one space, as one text.
    pub concatenated: String,
    /// Number of records whose city contains `New`.
    pub matching_cities: usize,
    /// Every name reversed by character, parallel to the collection.
    pub reversed: Vec<String>,
}

impl StringSummary {
    /// The summary holds exactly the three results for these names and cities.
    pub open spec fn describes(self, names: Seq<Seq<char>>, cities: Seq<Seq<char>>) -> bool {
        &&& self.concatenated@ == joined(names)
        &&& self.matching_cities == count_containing(cities, city_pattern())
        &&& texts_of(self.reversed@) == reversed_all(names)
    }
}

/// The string pass over a collection. It cannot fail: an empty collection
/// gives an empty text, a count of 0 and no reversed names.
pub fn string_pass(records: &[Record]) -> (out: StringSummary)
    ensures
        out.describes(names_of(records@), cities_of(records@)),
{
    proof {
        reveal_strlit("New");
        assert("New"@ =~= city_pattern());
    }
    StringSummary {
        concatenated: concatenated_names(records),
        matching_cities: count_cities_containing(records, "New"),
        reversed: reversed_names(records),
    }
}

} // verus!
