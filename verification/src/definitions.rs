//! Choosing a word's definition from a dictionary reply: the Wiktionary
//! reply for Spanish words and the dictionaryapi.dev reply for English ones.
use vstd::prelude::*;
use vstd::string::StringExecFns;
use vstd::utf8::encode_utf8;
use vstd::utf8::encode_scalar;

use crate::json::{Json, field, items_of, text_of, get_field, as_array, as_text};
use crate::text::{chars_of, strip_html, strip_html_spec, trim, trim_spec};

verus! {

broadcast use vstd::utf8::char_is_scalar;

/// The text held by an optional string.
pub open spec fn opt_text(o: Option<String>) -> Option<Seq<char>> {
    match o {
        Some(s) => Some(s@),
        None => None,
    }
}

/// The number of bytes of the UTF-8 encoding of `s` (what `str::len` counts).
pub open spec fn byte_len(s: Seq<char>) -> nat {
    encode_utf8(s).len()
}

fn utf8_width(c: char) -> (w: u64)
    ensures
        w == encode_scalar(c as u32).len(),
{
    let u = c as u32;
    if u <= 0x7f {
        1
    } else if u <= 0x7ff {
        2
    } else if u <= 0xffff {
        3
    } else {
        4
    }
}

/// Whether the UTF-8 encoding of `s` is longer than five bytes.
pub fn longer_than_five_bytes(s: &str) -> (r: bool)
    ensures
        r == (byte_len(s@) > 5),
{
    let v = chars_of(s);
    let mut sum: u64 = 0;
    let mut i: usize = 0;
    proof {
        assert(v@.skip(0) =~= v@);
    }
    while i < v.len() && sum <= 5
        invariant
            v@ == s@,
            i <= v@.len(),
            sum <= 9,
            sum + encode_utf8(v@.skip(i as int)).len() == byte_len(s@),
        decreases v@.len() - i,
    {
        proof {
            assert(v@.skip(i as int).drop_first() =~= v@.skip(i + 1));
            assert(v@.skip(i as int)[0] == v@[i as int]);
        }
        sum = sum + utf8_width(v[i]);
        i = i + 1;
    }
    proof {
        if i == v@.len() {
            assert(v@.skip(i as int) =~= Seq::<char>::empty());
        }
    }
    sum > 5
}

/// Whether `s` begins with an opening parenthesis.
pub open spec fn opens_with_paren(s: Seq<char>) -> bool {
    s.len() > 0 && s[0] == '('
}

/// Whether `s` begins with an opening parenthesis.
pub fn starts_with_paren(s: &str) -> (r: bool)
    ensures
        r == opens_with_paren(s@),
{
    let v = chars_of(s);
    v.len() > 0 && v[0] == '('
}

// ---------------------------------------------------------------- Spanish

/// The text of the `definition` member of `def`, when it is a string.
pub open spec fn raw_definition(def: Json) -> Option<Seq<char>> {
    text_of(field(def, "definition"@))
}

/// A Wiktionary definition made readable: markup removed, then trimmed.
pub open spec fn clean_wiktionary(raw: Seq<char>) -> Seq<char> {
    trim_spec(strip_html_spec(raw))
}

/// Whether a cleaned Wiktionary definition is worth keeping: longer than
/// five bytes and not a parenthesised usage note.
pub open spec fn usable_wiktionary(clean: Seq<char>) -> bool {
    byte_len(clean) > 5 && !opens_with_paren(clean)
}

/// The first usable cleaned definition among `defs`, in order.
pub open spec fn first_in_wiktionary_definitions(defs: Seq<Json>) -> Option<Seq<char>>
    decreases defs.len(),
{
    if defs.len() == 0 {
        None
    } else if raw_definition(defs[0]) is Some && usable_wiktionary(
        clean_wiktionary(raw_definition(defs[0])->0),
    ) {
        Some(clean_wiktionary(raw_definition(defs[0])->0))
    } else {
        first_in_wiktionary_definitions(defs.drop_first())
    }
}

/// The first usable definition among the `definitions` of each of `parts`,
/// part after part.
pub open spec fn first_in_wiktionary_parts(parts: Seq<Json>) -> Option<Seq<char>>
    decreases parts.len(),
{
    if parts.len() == 0 {
        None
    } else {
        match first_in_wiktionary_definitions(items_of(field(parts[0], "definitions"@))) {
            Some(d) => Some(d),
            None => first_in_wiktionary_parts(parts.drop_first()),
        }
    }
}

/// The definition a Wiktionary reply gives a Spanish word: the first usable
/// one under the `es` entries, else under the `en` entries.
pub open spec fn wiktionary_definition(reply: Json) -> Option<Seq<char>> {
    match first_in_wiktionary_parts(items_of(field(reply, "es"@))) {
        Some(d) => Some(d),
        None => first_in_wiktionary_parts(items_of(field(reply, "en"@))),
    }
}

fn first_in_definitions_es(defs: &Vec<Json>) -> (r: Option<String>)
    ensures
        opt_text(r) == first_in_wiktionary_definitions(defs@),
{
    let mut i: usize = 0;
    proof {
        assert(defs@.skip(0) =~= defs@);
    }
    while i < defs.len()
        invariant
            i <= defs@.len(),
            first_in_wiktionary_definitions(defs@) == first_in_wiktionary_definitions(
                defs@.skip(i as int),
            ),
        decreases defs@.len() - i,
    {
        proof {
            assert(defs@.skip(i as int).drop_first() =~= defs@.skip(i + 1));
            assert(defs@.skip(i as int)[0] == defs@[i as int]);
        }
        if let Some(def_html) = as_text(get_field(&defs[i], "definition")) {
            let stripped = strip_html(def_html.as_str());
            let clean = trim(stripped.as_str());
            if longer_than_five_bytes(clean.as_str()) && !starts_with_paren(clean.as_str()) {
                return Some(clean);
            }
        }
        i = i + 1;
    }
    None
}

fn first_in_parts_es(parts: &Vec<Json>) -> (r: Option<String>)
    ensures
        opt_text(r) == first_in_wiktionary_parts(parts@),
{
    let mut i: usize = 0;
    proof {
        assert(parts@.skip(0) =~= parts@);
    }
    while i < parts.len()
        invariant
            i <= parts@.len(),
            first_in_wiktionary_parts(parts@) == first_in_wiktionary_parts(parts@.skip(i as int)),
        decreases parts@.len() - i,
    {
        proof {
            assert(parts@.skip(i as int).drop_first() =~= parts@.skip(i + 1));
            assert(parts@.skip(i as int)[0] == parts@[i as int]);
        }
        if let Some(defs) = as_array(get_field(&parts[i], "definitions")) {
            let found = first_in_definitions_es(defs);
            if found.is_some() {
                return found;
            }
        } else {
            assert(items_of(field(parts@[i as int], "definitions"@)) =~= Seq::<Json>::empty());
        }
        i = i + 1;
    }
    None
}

/// The definition a Wiktionary reply gives a Spanish word.
pub fn spanish_definition(reply: &Json) -> (r: Option<String>)
    ensures
        opt_text(r) == wiktionary_definition(*reply),
{
    if let Some(parts) = as_array(get_field(reply, "es")) {
        let found = first_in_parts_es(parts);
        if found.is_some() {
            return found;
        }
    } else {
        assert(items_of(field(*reply, "es"@)) =~= Seq::<Json>::empty());
    }
    if let Some(parts) = as_array(get_field(reply, "en")) {
        first_in_parts_es(parts)
    } else {
        assert(items_of(field(*reply, "en"@)) =~= Seq::<Json>::empty());
        None
    }
}

// ---------------------------------------------------------------- English

/// The trimmed text of the first definition of `meaning`, when there is one
/// and it is a string.
pub open spec fn meaning_definition(meaning: Json) -> Option<Seq<char>> {
    let defs = items_of(field(meaning, "definitions"@));
    if defs.len() > 0 && raw_definition(defs[0]) is Some {
        Some(trim_spec(raw_definition(defs[0])->0))
    } else {
        None
    }
}

/// The first of `meanings` whose definition is longer than five bytes.
pub open spec fn first_in_meanings(meanings: Seq<Json>) -> Option<Seq<char>>
    decreases meanings.len(),
{
    if meanings.len() == 0 {
        None
    } else if meaning_definition(meanings[0]) is Some && byte_len(
        meaning_definition(meanings[0])->0,
    ) > 5 {
        meaning_definition(meanings[0])
    } else {
        first_in_meanings(meanings.drop_first())
    }
}

/// The first usable definition among the `meanings` of each of `entries`,
/// entry after entry.
pub open spec fn first_in_entries(entries: Seq<Json>) -> Option<Seq<char>>
    decreases entries.len(),
{
    if entries.len() == 0 {
        None
    } else {
        match first_in_meanings(items_of(field(entries[0], "meanings"@))) {
            Some(d) => Some(d),
            None => first_in_entries(entries.drop_first()),
        }
    }
}

/// The definition a dictionaryapi.dev reply gives an English word.
pub open spec fn dictionary_definition(reply: Json) -> Option<Seq<char>> {
    match reply {
        Json::Array(entries) => first_in_entries(entries@),
        _ => None,
    }
}

fn meaning_definition_exec(meaning: &Json) -> (r: Option<String>)
    ensures
        opt_text(r) == meaning_definition(*meaning),
{
    if let Some(defs) = as_array(get_field(meaning, "definitions")) {
        if defs.len() > 0 {
            if let Some(def_str) = as_text(get_field(&defs[0], "definition")) {
                return Some(trim(def_str.as_str()));
            }
        }
        None
    } else {
        assert(items_of(field(*meaning, "definitions"@)) =~= Seq::<Json>::empty());
        None
    }
}

fn first_in_meanings_exec(meanings: &Vec<Json>) -> (r: Option<String>)
    ensures
        opt_text(r) == first_in_meanings(meanings@),
{
    let mut i: usize = 0;
    proof {
        assert(meanings@.skip(0) =~= meanings@);
    }
    while i < meanings.len()
        invariant
            i <= meanings@.len(),
            first_in_meanings(meanings@) == first_in_meanings(meanings@.skip(i as int)),
        decreases meanings@.len() - i,
    {
        proof {
            assert(meanings@.skip(i as int).drop_first() =~= meanings@.skip(i + 1));
            assert(meanings@.skip(i as int)[0] == meanings@[i as int]);
        }
        if let Some(clean) = meaning_definition_exec(&meanings[i]) {
            if longer_than_five_bytes(clean.as_str()) {
                return Some(clean);
            }
        }
        i = i + 1;
    }
    None
}

fn first_in_entries_exec(entries: &Vec<Json>) -> (r: Option<String>)
    ensures
        opt_text(r) == first_in_entries(entries@),
{
    let mut i: usize = 0;
    proof {
        assert(entries@.skip(0) =~= entries@);
    }
    while i < entries.len()
        invariant
            i <= entries@.len(),
            first_in_entries(entries@) == first_in_entries(entries@.skip(i as int)),
        decreases entries@.len() - i,
    {
        proof {
            assert(entries@.skip(i as int).drop_first() =~= entries@.skip(i + 1));
            assert(entries@.skip(i as int)[0] == entries@[i as int]);
        }
        if let Some(meanings) = as_array(get_field(&entries[i], "meanings")) {
            let found = first_in_meanings_exec(meanings);
            if found.is_some() {
                return found;
            }
        } else {
            assert(items_of(field(entries@[i as int], "meanings"@)) =~= Seq::<Json>::empty());
        }
        i = i + 1;
    }
    None
}

/// The definition a dictionaryapi.dev reply gives an English word.
pub fn english_definition(reply: &Json) -> (r: Option<String>)
    ensures
        opt_text(r) == dictionary_definition(*reply),
{
    match reply {
        Json::Array(entries) => first_in_entries_exec(entries),
        _ => None,
    }
}

proof fn lemma_wiktionary_definitions_usable(defs: Seq<Json>)
    ensures
        first_in_wiktionary_definitions(defs) matches Some(d) ==> usable_wiktionary(d),
    decreases defs.len(),
{
    if defs.len() > 0 {
        lemma_wiktionary_definitions_usable(defs.drop_first());
    }
}

proof fn lemma_wiktionary_parts_usable(parts: Seq<Json>)
    ensures
        first_in_wiktionary_parts(parts) matches Some(d) ==> usable_wiktionary(d),
    decreases parts.len(),
{
    if parts.len() > 0 {
        lemma_wiktionary_definitions_usable(items_of(field(parts[0], "definitions"@)));
        lemma_wiktionary_parts_usable(parts.drop_first());
    }
}

/// A definition taken from a Wiktionary reply is always usable: longer than
/// five bytes and not opening with a parenthesis.
pub proof fn law_wiktionary_definition_is_usable(reply: Json)
    ensures
        wiktionary_definition(reply) matches Some(d) ==> usable_wiktionary(d),
{
    lemma_wiktionary_parts_usable(items_of(field(reply, "es"@)));
    lemma_wiktionary_parts_usable(items_of(field(reply, "en"@)));
}

proof fn lemma_meanings_long(meanings: Seq<Json>)
    ensures
        first_in_meanings(meanings) matches Some(d) ==> byte_len(d) > 5,
    decreases meanings.len(),
{
    if meanings.len() > 0 {
        lemma_meanings_long(meanings.drop_first());
    }
}

proof fn lemma_entries_long(entries: Seq<Json>)
    ensures
        first_in_entries(entries) matches Some(d) ==> byte_len(d) > 5,
    decreases entries.len(),
{
    if entries.len() > 0 {
        lemma_meanings_long(items_of(field(entries[0], "meanings"@)));
        lemma_entries_long(entries.drop_first());
    }
}

/// A definition taken from a dictionaryapi.dev reply is always longer than
/// five bytes.
pub proof fn law_dictionary_definition_is_long(reply: Json)
    ensures
        dictionary_definition(reply) matches Some(d) ==> byte_len(d) > 5,
{
    match reply {
        Json::Array(entries) => lemma_entries_long(entries@),
        _ => {},
    }
}

/// Spanish definitions come from the `es` entries whenever those hold a
/// usable one.
pub proof fn law_spanish_entries_come_first(reply: Json)
    requires
        first_in_wiktionary_parts(items_of(field(reply, "es"@))) is Some,
    ensures
        wiktionary_definition(reply) == first_in_wiktionary_parts(items_of(field(reply, "es"@))),
{
}

// ---------------------------------------------------------------- position laws

/// The definition entries listed under a part of speech.
pub open spec fn definitions_of(part: Json) -> Seq<Json> {
    items_of(field(part, "definitions"@))
}

/// Whether a Wiktionary definition entry holds a text that, once cleaned, is
/// usable.
pub open spec fn usable_entry(def: Json) -> bool {
    raw_definition(def) is Some && usable_wiktionary(clean_wiktionary(raw_definition(def)->0))
}

/// The cleaned text of a Wiktionary definition entry.
pub open spec fn cleaned_entry(def: Json) -> Seq<char> {
    clean_wiktionary(raw_definition(def)->0)
}

/// Whether entry `k` of part `p` is the first usable definition among
/// `parts` in document order: usable, with no usable entry in an earlier part
/// nor earlier in the same part.
pub open spec fn first_usable_at(parts: Seq<Json>, p: int, k: int) -> bool {
    &&& 0 <= p < parts.len()
    &&& 0 <= k < definitions_of(parts[p]).len()
    &&& usable_entry(definitions_of(parts[p])[k])
    &&& forall|j: int| 0 <= j < k ==> !usable_entry(#[trigger] definitions_of(parts[p])[j])
    &&& forall|q: int, j: int|
        0 <= q < p && 0 <= j < definitions_of(parts[q]).len() ==> !usable_entry(
            #[trigger] definitions_of(parts[q])[j],
        )
}

/// Whether no entry of any of `parts` is usable.
pub open spec fn no_usable_entry(parts: Seq<Json>) -> bool {
    forall|q: int, j: int|
        0 <= q < parts.len() && 0 <= j < definitions_of(parts[q]).len() ==> !usable_entry(
            #[trigger] definitions_of(parts[q])[j],
        )
}

/// Among definition entries, the first usable one gives the definition,
/// whatever follows it.
pub proof fn law_first_usable_definition_wins(defs: Seq<Json>, k: int)
    requires
        0 <= k < defs.len(),
        usable_entry(defs[k]),
        forall|j: int| 0 <= j < k ==> !usable_entry(#[trigger] defs[j]),
    ensures
        first_in_wiktionary_definitions(defs) == Some(cleaned_entry(defs[k])),
    decreases k,
{
    if k > 0 {
        assert(!usable_entry(defs[0]));
        let rest = defs.drop_first();
        assert forall|j: int| 0 <= j < k - 1 implies !usable_entry(#[trigger] rest[j]) by {
            assert(rest[j] == defs[j + 1]);
        }
        assert(rest[k - 1] == defs[k]);
        law_first_usable_definition_wins(rest, k - 1);
    }
}

/// Definition entries none of which is usable give no definition.
pub proof fn law_no_usable_definition(defs: Seq<Json>)
    requires
        forall|j: int| 0 <= j < defs.len() ==> !usable_entry(#[trigger] defs[j]),
    ensures
        first_in_wiktionary_definitions(defs) is None,
    decreases defs.len(),
{
    if defs.len() > 0 {
        assert(!usable_entry(defs[0]));
        let rest = defs.drop_first();
        assert forall|j: int| 0 <= j < rest.len() implies !usable_entry(#[trigger] rest[j]) by {
            assert(rest[j] == defs[j + 1]);
        }
        law_no_usable_definition(rest);
    }
}

/// Among parts of speech, the first usable definition in document order (part
/// by part, entry by entry) is the one chosen: an earlier part wins over a
/// later one.
pub proof fn law_first_usable_in_parts_wins(parts: Seq<Json>, p: int, k: int)
    requires
        first_usable_at(parts, p, k),
    ensures
        first_in_wiktionary_parts(parts) == Some(cleaned_entry(definitions_of(parts[p])[k])),
    decreases p,
{
    if p == 0 {
        law_first_usable_definition_wins(definitions_of(parts[0]), k);
    } else {
        assert forall|j: int| 0 <= j < definitions_of(parts[0]).len() implies !usable_entry(
            #[trigger] definitions_of(parts[0])[j],
        ) by {
            assert(!usable_entry(definitions_of(parts[0])[j]));
        }
        law_no_usable_definition(definitions_of(parts[0]));
        let rest = parts.drop_first();
        assert(rest[p - 1] == parts[p]);
        assert forall|q: int, j: int|
            0 <= q < p - 1 && 0 <= j < definitions_of(rest[q]).len() implies !usable_entry(
            #[trigger] definitions_of(rest[q])[j],
        ) by {
            assert(rest[q] == parts[q + 1]);
            assert(!usable_entry(definitions_of(parts[q + 1])[j]));
        }
        assert(first_usable_at(rest, p - 1, k));
        law_first_usable_in_parts_wins(rest, p - 1, k);
    }
}

/// Parts of speech none of whose entries is usable give no definition.
pub proof fn law_no_usable_in_parts(parts: Seq<Json>)
    requires
        no_usable_entry(parts),
    ensures
        first_in_wiktionary_parts(parts) is None,
    decreases parts.len(),
{
    if parts.len() > 0 {
        assert forall|j: int| 0 <= j < definitions_of(parts[0]).len() implies !usable_entry(
            #[trigger] definitions_of(parts[0])[j],
        ) by {
            assert(!usable_entry(definitions_of(parts[0])[j]));
        }
        law_no_usable_definition(definitions_of(parts[0]));
        let rest = parts.drop_first();
        assert forall|q: int, j: int|
            0 <= q < rest.len() && 0 <= j < definitions_of(rest[q]).len() implies !usable_entry(
            #[trigger] definitions_of(rest[q])[j],
        ) by {
            assert(rest[q] == parts[q + 1]);
            assert(!usable_entry(definitions_of(parts[q + 1])[j]));
        }
        law_no_usable_in_parts(rest);
    }
}

/// A Spanish word's definition is the first usable one under `es` when there
/// is one there, whatever the `en` entries hold.
pub proof fn law_spanish_reply_takes_first_es_definition(reply: Json, p: int, k: int)
    requires
        first_usable_at(items_of(field(reply, "es"@)), p, k),
    ensures
        wiktionary_definition(reply) == Some(
            cleaned_entry(definitions_of(items_of(field(reply, "es"@))[p])[k]),
        ),
{
    law_first_usable_in_parts_wins(items_of(field(reply, "es"@)), p, k);
}

/// When no `es` entry is usable, a Spanish word's definition is the first
/// usable one under `en`, and there is none when neither holds one.
pub proof fn law_spanish_reply_falls_back_to_en(reply: Json)
    requires
        no_usable_entry(items_of(field(reply, "es"@))),
    ensures
        wiktionary_definition(reply) == first_in_wiktionary_parts(items_of(field(reply, "en"@))),
        no_usable_entry(items_of(field(reply, "en"@))) ==> wiktionary_definition(reply) is None,
{
    law_no_usable_in_parts(items_of(field(reply, "es"@)));
    if no_usable_entry(items_of(field(reply, "en"@))) {
        law_no_usable_in_parts(items_of(field(reply, "en"@)));
    }
}

/// The definition a meaning offers: the first of its definition entries,
/// when that holds a string, trimmed.
pub proof fn law_meaning_uses_first_definition_trimmed(meaning: Json)
    ensures
        definitions_of(meaning).len() > 0 && raw_definition(definitions_of(meaning)[0]) is Some
            ==> meaning_definition(meaning) == Some(
            trim_spec(raw_definition(definitions_of(meaning)[0])->0),
        ),
        definitions_of(meaning).len() == 0 || raw_definition(definitions_of(meaning)[0]) is None
            ==> meaning_definition(meaning) is None,
{
}

/// Whether a meaning offers a definition longer than five bytes.
pub open spec fn long_meaning(meaning: Json) -> bool {
    meaning_definition(meaning) is Some && byte_len(meaning_definition(meaning)->0) > 5
}

/// Among meanings, the earliest one that offers a definition longer than
/// five bytes gives the definition, whatever follows it.
pub proof fn law_earliest_long_meaning_wins(meanings: Seq<Json>, k: int)
    requires
        0 <= k < meanings.len(),
        long_meaning(meanings[k]),
        forall|j: int| 0 <= j < k ==> !long_meaning(#[trigger] meanings[j]),
    ensures
        first_in_meanings(meanings) == meaning_definition(meanings[k]),
    decreases k,
{
    if k > 0 {
        assert(!long_meaning(meanings[0]));
        let rest = meanings.drop_first();
        assert forall|j: int| 0 <= j < k - 1 implies !long_meaning(#[trigger] rest[j]) by {
            assert(rest[j] == meanings[j + 1]);
        }
        assert(rest[k - 1] == meanings[k]);
        law_earliest_long_meaning_wins(rest, k - 1);
    }
}

/// Meanings none of which offers a definition longer than five bytes give no
/// definition.
pub proof fn law_no_long_meaning(meanings: Seq<Json>)
    requires
        forall|j: int| 0 <= j < meanings.len() ==> !long_meaning(#[trigger] meanings[j]),
    ensures
        first_in_meanings(meanings) is None,
    decreases meanings.len(),
{
    if meanings.len() > 0 {
        assert(!long_meaning(meanings[0]));
        let rest = meanings.drop_first();
        assert forall|j: int| 0 <= j < rest.len() implies !long_meaning(#[trigger] rest[j]) by {
            assert(rest[j] == meanings[j + 1]);
        }
        law_no_long_meaning(rest);
    }
}

/// The meanings listed under an entry.
pub open spec fn meanings_of(entry: Json) -> Seq<Json> {
    items_of(field(entry, "meanings"@))
}

/// Whether meaning `k` of entry `e` is the first long meaning among
/// `entries` in document order.
pub open spec fn first_long_at(entries: Seq<Json>, e: int, k: int) -> bool {
    &&& 0 <= e < entries.len()
    &&& 0 <= k < meanings_of(entries[e]).len()
    &&& long_meaning(meanings_of(entries[e])[k])
    &&& forall|j: int| 0 <= j < k ==> !long_meaning(#[trigger] meanings_of(entries[e])[j])
    &&& forall|q: int, j: int|
        0 <= q < e && 0 <= j < meanings_of(entries[q]).len() ==> !long_meaning(
            #[trigger] meanings_of(entries[q])[j],
        )
}

/// Among the entries of a dictionaryapi.dev reply, the first long meaning in
/// document order (entry by entry, meaning by meaning) gives the English
/// word's definition.
pub proof fn law_english_reply_takes_first_long_meaning(entries: Seq<Json>, e: int, k: int)
    requires
        first_long_at(entries, e, k),
    ensures
        first_in_entries(entries) == meaning_definition(meanings_of(entries[e])[k]),
    decreases e,
{
    if e == 0 {
        law_earliest_long_meaning_wins(meanings_of(entries[0]), k);
    } else {
        assert forall|j: int| 0 <= j < meanings_of(entries[0]).len() implies !long_meaning(
            #[trigger] meanings_of(entries[0])[j],
        ) by {
            assert(!long_meaning(meanings_of(entries[0])[j]));
        }
        law_no_long_meaning(meanings_of(entries[0]));
        let rest = entries.drop_first();
        assert(rest[e - 1] == entries[e]);
        assert forall|q: int, j: int|
            0 <= q < e - 1 && 0 <= j < meanings_of(rest[q]).len() implies !long_meaning(
            #[trigger] meanings_of(rest[q])[j],
        ) by {
            assert(rest[q] == entries[q + 1]);
            assert(!long_meaning(meanings_of(entries[q + 1])[j]));
        }
        assert(first_long_at(rest, e - 1, k));
        law_english_reply_takes_first_long_meaning(rest, e - 1, k);
    }
}

/// Entries none of whose meanings is long give no definition.
pub proof fn law_no_long_meaning_in_entries(entries: Seq<Json>)
    requires
        forall|q: int, j: int|
            0 <= q < entries.len() && 0 <= j < meanings_of(entries[q]).len() ==> !long_meaning(
                #[trigger] meanings_of(entries[q])[j],
            ),
    ensures
        first_in_entries(entries) is None,
    decreases entries.len(),
{
    if entries.len() > 0 {
        assert forall|j: int| 0 <= j < meanings_of(entries[0]).len() implies !long_meaning(
            #[trigger] meanings_of(entries[0])[j],
        ) by {
            assert(!long_meaning(meanings_of(entries[0])[j]));
        }
        law_no_long_meaning(meanings_of(entries[0]));
        let rest = entries.drop_first();
        assert forall|q: int, j: int|
            0 <= q < rest.len() && 0 <= j < meanings_of(rest[q]).len() implies !long_meaning(
            #[trigger] meanings_of(rest[q])[j],
        ) by {
            assert(rest[q] == entries[q + 1]);
            assert(!long_meaning(meanings_of(entries[q + 1])[j]));
        }
        law_no_long_meaning_in_entries(rest);
    }
}

/// A dictionaryapi.dev reply that is not a list gives no definition; a list
/// gives the definition of its entries.
pub proof fn law_english_reply_shape(reply: Json)
    ensures
        !(reply is Array) ==> dictionary_definition(reply) is None,
        reply matches Json::Array(entries) ==> dictionary_definition(reply) == first_in_entries(
            entries@,
        ),
{
}

// ---------------------------------------------------------------- lookup

/// The definition that the reply of the dictionary for the word's language
/// gives: Wiktionary for Spanish, dictionaryapi.dev for English.
pub open spec fn reply_definition(reply: Json, is_spanish: bool) -> Option<Seq<char>> {
    if is_spanish {
        wiktionary_definition(reply)
    } else {
        dictionary_definition(reply)
    }
}

/// The definition a dictionary reply gives, for a Spanish or an English word.
pub fn definition_from_reply(reply: &Json, is_spanish: bool) -> (r: Option<String>)
    ensures
        opt_text(r) == reply_definition(*reply, is_spanish),
{
    if is_spanish {
        spanish_definition(reply)
    } else {
        english_definition(reply)
    }
}

/// The address at which the dictionary for the word's language describes it.
pub open spec fn definition_url_spec(word: Seq<char>, is_spanish: bool) -> Seq<char> {
    if is_spanish {
        "https://en.wiktionary.org/api/rest_v1/page/definition/"@ + word
    } else {
        "https://api.dictionaryapi.dev/api/v2/entries/en/"@ + word
    }
}

/// The address at which the dictionary for the word's language describes it.
pub fn definition_url(word: &str, is_spanish: bool) -> (r: String)
    ensures
        r@ == definition_url_spec(word@, is_spanish),
{
    let mut url = String::new();
    if is_spanish {
        url.append("https://en.wiktionary.org/api/rest_v1/page/definition/");
    } else {
        url.append("https://api.dictionaryapi.dev/api/v2/entries/en/");
    }
    url.append(word);
    url
}

} // verus!
