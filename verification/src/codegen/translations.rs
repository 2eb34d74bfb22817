//! Translation tables of the importer: lists of pairs of an id and a text.
use vstd::prelude::*;
use vstd::string::StringExecFns;

use crate::codegen::cleaned::{description_reference, parse_description, simplify_translation_text};
use crate::codegen::generate::without_prefix;
use crate::codegen::raw::{
    clean_enum_text, cleaned_enum_text, max_index_len, parse_translation_text, translation_text,
    Culture, DocumentElement, TextResource,
};
use crate::codegen::strings::{simplified, strip_prefix};
use crate::codegen::unique_mapping::{
    less, lemma_text_less_irreflexive, lemma_text_less_total, lemma_text_less_transitive, text_less,
};
use crate::text::{starts_with, str_eq};

verus! {

/// The text of the first entry of a table with the given id.
pub open spec fn lookup(table: Seq<(String, String)>, id: Seq<char>) -> Option<Seq<char>>
    decreases table.len(),
{
    if table.len() == 0 {
        None
    } else if table[0].0@ == id {
        Some(table[0].1@)
    } else {
        lookup(table.drop_first(), id)
    }
}

/// Looks an id up in a table.
pub fn translation_of<'a>(table: &'a [(String, String)], id: &str) -> (res: Option<&'a str>)
    ensures
        res matches Some(text) ==> lookup(table@, id@) == Some(text@),
        res is None ==> lookup(table@, id@) is None,
{
    let mut i: usize = 0;
    assert(table@.subrange(0, table@.len() as int) =~= table@);
    while i < table.len()
        invariant
            i <= table@.len(),
            lookup(table@, id@) == lookup(table@.subrange(i as int, table@.len() as int), id@),
        decreases table@.len() - i,
    {
        let rest = Ghost(table@.subrange(i as int, table@.len() as int));
        assert(rest@.drop_first() =~= table@.subrange(i + 1, table@.len() as int));
        if str_eq(table[i].0.as_str(), id) {
            return Some(table[i].1.as_str());
        }
        i = i + 1;
    }
    None
}

/// Whether each id occurs once in a table, as each key does in a map: a
/// table with this invariant holds what a map from its ids to its texts
/// holds, and `lookup` reads that map.
pub open spec fn distinct_ids(table: Seq<(String, String)>) -> bool {
    forall|i: int, j: int| 0 <= i < j < table.len() ==> (#[trigger] table[i]).0@ != (#[trigger] table[j]).0@
}

/// Whether the ids of a table are in strictly ascending order, as the keys
/// of a sorted map are; such a table has distinct ids.
pub open spec fn sorted_ids(table: Seq<(String, String)>) -> bool {
    forall|i: int, j: int|
        0 <= i < j < table.len() ==> text_less((#[trigger] table[i]).0@, (#[trigger] table[j]).0@)
}

/// A table with ascending ids has distinct ids.
pub proof fn lemma_sorted_ids_distinct(table: Seq<(String, String)>)
    requires
        sorted_ids(table),
    ensures
        distinct_ids(table),
{
    assert forall|i: int, j: int| 0 <= i < j < table.len() implies (#[trigger] table[i]).0@ != (
    #[trigger] table[j]).0@ by {
        if table[i].0@ == table[j].0@ {
            lemma_text_less_irreflexive(table[i].0@);
        }
    }
}

/// Sets the text of an id: the first entry with that id gets it, or a new
/// entry where there is none, after the entries whose ids are less, so that
/// a lookup finds what a map would hold; a table whose ids are distinct, or
/// ascending, keeps them so.
pub fn table_insert(table: &mut Vec<(String, String)>, id: String, text: String)
    ensures
        forall|k: Seq<char>| #[trigger]
            lookup(final(table)@, k) == if k == id@ {
                Some(text@)
            } else {
                lookup(old(table)@, k)
            },
        distinct_ids(old(table)@) ==> distinct_ids(final(table)@),
        sorted_ids(old(table)@) ==> sorted_ids(final(table)@),
{
    let ghost original = table@;
    let mut i: usize = 0;
    while i < table.len()
        invariant
            table@ == original,
            original == old(table)@,
            i <= table@.len(),
            forall|j: int| 0 <= j < i ==> (#[trigger] table@[j]).0@ != id@,
        decreases table@.len() - i,
    {
        if str_eq(table[i].0.as_str(), id.as_str()) {
            let entry = (id, text);
            table.set(i, entry);
            proof {
                assert forall|k: Seq<char>| #[trigger]
                    lookup(original.update(i as int, entry), k) == if k == entry.0@ {
                        Some(entry.1@)
                    } else {
                        lookup(original, k)
                    } by {
                    lemma_lookup_update(original, i as int, entry, k);
                }
                assert(table@ =~= original.update(i as int, entry));
                if distinct_ids(original) {
                    assert forall|a: int, b: int| 0 <= a < b < table@.len() implies (
                    #[trigger] table@[a]).0@ != (#[trigger] table@[b]).0@ by {
                        assert(original[a].0@ != original[b].0@);
                    }
                }
                if sorted_ids(original) {
                    assert forall|a: int, b: int| 0 <= a < b < table@.len() implies text_less(
                        (#[trigger] table@[a]).0@,
                        (#[trigger] table@[b]).0@,
                    ) by {
                        assert(text_less(original[a].0@, original[b].0@));
                    }
                }
            }
            return;
        }
        i = i + 1;
    }
    let mut j: usize = 0;
    while j < table.len() && less(table[j].0.as_str(), id.as_str())
        invariant
            table@ == original,
            j <= table@.len(),
            forall|k: int| 0 <= k < j ==> text_less((#[trigger] table@[k]).0@, id@),
        decreases table@.len() - j,
    {
        j = j + 1;
    }
    let entry = (id, text);
    table.insert(j, entry);
    proof {
        let t = table@;
        assert(t == original.insert(j as int, entry));
        assert forall|k: Seq<char>| #[trigger]
            lookup(t, k) == if k == entry.0@ {
                Some(entry.1@)
            } else {
                lookup(original, k)
            } by {
            lemma_lookup_insert(original, j as int, entry, k);
        }
        if distinct_ids(original) {
            assert forall|a: int, b: int| 0 <= a < b < t.len() implies (#[trigger] t[a]).0@ != (
            #[trigger] t[b]).0@ by {
                if b < j {
                    assert(original[a].0@ != original[b].0@);
                } else if b == j {
                    assert(original[a].0@ != id@);
                } else if a < j {
                    assert(original[a].0@ != original[b - 1].0@);
                } else if a == j {
                    assert(original[b - 1].0@ != id@);
                } else {
                    assert(original[a - 1].0@ != original[b - 1].0@);
                }
            }
        }
        if sorted_ids(original) {
            if j < original.len() {
                lemma_text_less_total(original[j as int].0@, id@);
                assert(original[j as int].0@ != id@);
                assert(text_less(id@, original[j as int].0@));
            }
            assert forall|a: int, b: int| 0 <= a < b < t.len() implies text_less(
                (#[trigger] t[a]).0@,
                (#[trigger] t[b]).0@,
            ) by {
                if b < j {
                    assert(text_less(original[a].0@, original[b].0@));
                } else if b == j {
                } else if a < j {
                    assert(text_less(original[a].0@, id@));
                    if b - 1 > j {
                        assert(text_less(original[j as int].0@, original[b - 1].0@));
                        lemma_text_less_transitive(id@, original[j as int].0@, original[b - 1].0@);
                    }
                    lemma_text_less_transitive(original[a].0@, id@, original[b - 1].0@);
                } else if a == j {
                    if b - 1 > j {
                        assert(text_less(original[j as int].0@, original[b - 1].0@));
                        lemma_text_less_transitive(id@, original[j as int].0@, original[b - 1].0@);
                    }
                } else {
                    assert(text_less(original[a - 1].0@, original[b - 1].0@));
                }
            }
        }
    }
}

/// In a table whose ids are distinct, the lookup of an id finds the entry
/// of that id, wherever it stands.
pub proof fn lemma_lookup_distinct(t: Seq<(String, String)>, i: int)
    requires
        distinct_ids(t),
        0 <= i < t.len(),
    ensures
        lookup(t, t[i].0@) == Some(t[i].1@),
    decreases t.len(),
{
    if i > 0 {
        assert(t[0].0@ != t[i].0@);
        let r = t.drop_first();
        assert forall|a: int, b: int| 0 <= a < b < r.len() implies (#[trigger] r[a]).0@ != (
        #[trigger] r[b]).0@ by {
            assert(t[a + 1].0@ != t[b + 1].0@);
        }
        assert(r[i - 1] == t[i]);
        lemma_lookup_distinct(r, i - 1);
    }
}

proof fn lemma_lookup_insert(t: Seq<(String, String)>, j: int, e: (String, String), k: Seq<char>)
    requires
        0 <= j <= t.len(),
        forall|i: int| 0 <= i < t.len() ==> (#[trigger] t[i]).0@ != e.0@,
    ensures
        lookup(t.insert(j, e), k) == if k == e.0@ {
            Some(e.1@)
        } else {
            lookup(t, k)
        },
    decreases t.len(),
{
    if j == 0 {
        assert(t.insert(0, e)[0] == e);
        assert(t.insert(0, e).drop_first() =~= t);
    } else {
        assert(t.insert(j, e)[0] == t[0]);
        assert(t.insert(j, e).drop_first() =~= t.drop_first().insert(j - 1, e));
        assert forall|i: int| 0 <= i < t.drop_first().len() implies (#[trigger] t.drop_first()[i]).0@
            != e.0@ by {
            assert(t.drop_first()[i] == t[i + 1]);
        }
        lemma_lookup_insert(t.drop_first(), j - 1, e, k);
        if k == e.0@ {
            assert(t[0].0@ != e.0@);
        }
    }
}

proof fn lemma_lookup_update(t: Seq<(String, String)>, i: int, e: (String, String), k: Seq<char>)
    requires
        0 <= i < t.len(),
        t[i].0@ == e.0@,
        forall|j: int| 0 <= j < i ==> (#[trigger] t[j]).0@ != e.0@,
    ensures
        lookup(t.update(i, e), k) == if k == e.0@ {
            Some(e.1@)
        } else {
            lookup(t, k)
        },
    decreases t.len(),
{
    if i > 0 {
        assert(t.update(i, e).drop_first() =~= t.drop_first().update(i - 1, e));
        assert forall|j: int| 0 <= j < i - 1 implies (#[trigger] t.drop_first()[j]).0@ != e.0@ by {
            assert(t.drop_first()[j] == t[j + 1]);
        }
        lemma_lookup_update(t.drop_first(), i - 1, e, k);
    } else {
        assert(t.update(i, e).drop_first() =~= t.drop_first());
    }
}

/// The German text of each label, simplified, with the label: the labels
/// without a German text left out, the last label first, so that a lookup
/// finds the label that a map keyed by the text would keep.
pub open spec fn reversed_translations(table: Seq<(String, Vec<(String, String)>)>) -> Seq<
    (Seq<char>, Seq<char>),
>
    decreases table.len(),
{
    if table.len() == 0 {
        Seq::empty()
    } else {
        let text = simplified(lookup(table[0].1@, "de"@)->0);
        let rest = reversed_translations(table.drop_first());
        if text.len() == 0 {
            rest
        } else {
            rest.push((text, table[0].0@))
        }
    }
}

/// The text of the first entry with the given id among pairs of texts.
pub open spec fn pair_lookup(pairs: Seq<(Seq<char>, Seq<char>)>, id: Seq<char>) -> Option<Seq<char>>
    decreases pairs.len(),
{
    if pairs.len() == 0 {
        None
    } else if pairs[0].0 == id {
        Some(pairs[0].1)
    } else {
        pair_lookup(pairs.drop_first(), id)
    }
}

/// The German text of a label's texts, simplified.
pub open spec fn german_text(entry: (String, Vec<(String, String)>)) -> Seq<char> {
    simplified(lookup(entry.1@, "de"@)->0)
}

proof fn lemma_reversed_push(table: Seq<(String, Vec<(String, String)>)>, x: (String, Vec<(String, String)>))
    ensures
        reversed_translations(table.push(x)) == if german_text(x).len() == 0 {
            reversed_translations(table)
        } else {
            seq![(german_text(x), x.0@)] + reversed_translations(table)
        },
    decreases table.len(),
{
    if table.len() == 0 {
        assert(table.push(x).drop_first() =~= table);
        assert(reversed_translations(table) =~= Seq::empty());
        if german_text(x).len() > 0 {
            assert(Seq::<(Seq<char>, Seq<char>)>::empty().push((german_text(x), x.0@)) =~= seq![
                (german_text(x), x.0@),
            ] + Seq::<(Seq<char>, Seq<char>)>::empty());
        }
    } else {
        assert(table.push(x).drop_first() =~= table.drop_first().push(x));
        assert(table.push(x)[0] == table[0]);
        lemma_reversed_push(table.drop_first(), x);
        let e = (german_text(table[0]), table[0].0@);
        let r = reversed_translations(table.drop_first());
        if german_text(x).len() > 0 {
            assert((seq![(german_text(x), x.0@)] + r).push(e) =~= seq![(german_text(x), x.0@)] + r.push(e));
        }
    }
}

/// Lists the translation ids by their German text, for a table of the texts
/// of each label by culture in which each label has a German text: a table
/// with ascending, distinct texts in which each text finds the last label
/// that has it, as a map filled in the order of the labels keeps it.
pub fn reverse_translations_raw(translations_raw: &[(String, Vec<(String, String)>)]) -> (res: Vec<
    (String, String),
>)
    requires
        forall|i: int|
            0 <= i < translations_raw@.len() ==> lookup(
                (#[trigger] translations_raw@[i]).1@,
                "de"@,
            ) is Some,
    ensures
        sorted_ids(res@),
        forall|k: Seq<char>| #[trigger]
            lookup(res@, k) == pair_lookup(reversed_translations(translations_raw@), k),
{
    let mut out: Vec<(String, String)> = Vec::new();
    let mut i: usize = 0;
    while i < translations_raw.len()
        invariant
            i <= translations_raw@.len(),
            forall|j: int|
                0 <= j < translations_raw@.len() ==> lookup(
                    (#[trigger] translations_raw@[j]).1@,
                    "de"@,
                ) is Some,
            sorted_ids(out@),
            forall|k: Seq<char>| #[trigger]
                lookup(out@, k) == pair_lookup(
                    reversed_translations(translations_raw@.subrange(0, i as int)),
                    k,
                ),
        decreases translations_raw@.len() - i,
    {
        let entry = &translations_raw[i];
        let ghost prefix = translations_raw@.subrange(0, i as int);
        assert(translations_raw@.subrange(0, i + 1) =~= prefix.push(*entry));
        proof {
            lemma_reversed_push(prefix, *entry);
        }
        let german = translation_of(entry.1.as_slice(), "de");
        if let Some(german) = german {
            let text = simplify_translation_text(german);
            assert(text@ == german_text(*entry));
            if text.unicode_len() > 0 {
                let ghost before = out@;
                let ghost t = text@;
                let ghost r = reversed_translations(prefix);
                let ghost front = seq![(t, entry.0@)] + r;
                assert(front[0] == (t, entry.0@));
                assert(front.drop_first() =~= r);
                table_insert(&mut out, text, entry.0.clone());
                assert forall|k: Seq<char>| #[trigger]
                    lookup(out@, k) == pair_lookup(
                        reversed_translations(translations_raw@.subrange(0, i + 1)),
                        k,
                    ) by {
                    assert(lookup(out@, k) == if k == t {
                        Some(entry.0@)
                    } else {
                        lookup(before, k)
                    });
                    assert(pair_lookup(front, k) == if k == t {
                        Some(entry.0@)
                    } else {
                        pair_lookup(r, k)
                    });
                }
            }
        }
        i = i + 1;
    }
    assert(translations_raw@.subrange(0, translations_raw@.len() as int) =~= translations_raw@);
    out
}

/// The cultures that the first documents define, as id and name, in order.
pub open spec fn cultures_of(docs: Seq<DocumentElement>) -> Seq<(u8, Seq<char>)>
    decreases docs.len(),
{
    if docs.len() == 0 {
        Seq::empty()
    } else {
        cultures_of(docs.drop_last()) + docs.last().cultures.culture@.map_values(
            |c: Culture| (c.id, c.name@),
        )
    }
}

/// The name of a culture: the last one defined with its id.
pub open spec fn culture_name(cultures: Seq<(u8, Seq<char>)>, id: u8) -> Option<Seq<char>>
    decreases cultures.len(),
{
    if cultures.len() == 0 {
        None
    } else if cultures.last().0 == id {
        Some(cultures.last().1)
    } else {
        culture_name(cultures.drop_last(), id)
    }
}

/// The entry that a text resource gives: its label, the name of its culture
/// and its cleaned text.
pub open spec fn translation_entry(cultures: Seq<(u8, Seq<char>)>, r: TextResource) -> (
    Seq<char>,
    Seq<char>,
    Seq<char>,
) {
    (
        r.label@,
        culture_name(cultures, r.culture_id)->0,
        cleaned_enum_text(Some(r.label@), None, translation_text(r.value@)),
    )
}

/// The entries of the text resources of documents, in order; each document
/// sees the cultures of itself and of the documents before it.
pub open spec fn translation_entries(docs: Seq<DocumentElement>) -> Seq<
    (Seq<char>, Seq<char>, Seq<char>),
>
    decreases docs.len(),
{
    if docs.len() == 0 {
        Seq::empty()
    } else {
        translation_entries(docs.drop_last()) + docs.last().text_resources.text_resource@.map_values(
            |r: TextResource| translation_entry(cultures_of(docs), r),
        )
    }
}

/// Whether the culture of each text resource is defined by its document or
/// one before it.
pub open spec fn cultures_known(docs: Seq<DocumentElement>) -> bool
    decreases docs.len(),
{
    docs.len() > 0 ==> {
        &&& cultures_known(docs.drop_last())
        &&& forall|j: int|
            0 <= j < docs.last().text_resources.text_resource@.len() ==> culture_name(
                cultures_of(docs),
                (#[trigger] docs.last().text_resources.text_resource@[j]).culture_id,
            ) is Some
    }
}

/// Whether the label of each text resource is at most `max_index_len`
/// long, as the cleaning of enum texts needs.
pub open spec fn labels_fit(docs: Seq<DocumentElement>) -> bool {
    forall|d: int, j: int|
        0 <= d < docs.len() && 0 <= j < docs[d].text_resources.text_resource@.len() ==> (
        #[trigger] docs[d].text_resources.text_resource@[j]).label@.len() <= max_index_len()
}

/// The view of a list of cultures.
pub open spec fn cultures_view(cultures: Seq<(u8, String)>) -> Seq<(u8, Seq<char>)> {
    cultures.map_values(|c: (u8, String)| (c.0, c.1@))
}

/// The view of a list of translation entries.
pub open spec fn entries_view(entries: Seq<(String, String, String)>) -> Seq<
    (Seq<char>, Seq<char>, Seq<char>),
> {
    entries.map_values(|e: (String, String, String)| (e.0@, e.1@, e.2@))
}

/// Finds the name of a culture, the last one defined with the id.
fn find_culture(cultures: &Vec<(u8, String)>, id: u8) -> (res: Option<String>)
    ensures
        res matches Some(name) ==> culture_name(cultures_view(cultures@), id) == Some(name@),
        res is None ==> culture_name(cultures_view(cultures@), id) is None,
{
    let mut i: usize = cultures.len();
    assert(cultures_view(cultures@).subrange(0, i as int) =~= cultures_view(cultures@));
    while i > 0
        invariant
            i <= cultures@.len(),
            culture_name(cultures_view(cultures@), id) == culture_name(
                cultures_view(cultures@).subrange(0, i as int),
                id,
            ),
        decreases i,
    {
        let ghost prefix = cultures_view(cultures@).subrange(0, i as int);
        assert(prefix.drop_last() =~= cultures_view(cultures@).subrange(0, i - 1));
        if cultures[i - 1].0 == id {
            return Some(cultures[i - 1].1.clone());
        }
        i = i - 1;
    }
    None
}

proof fn lemma_cultures_known_prefix(docs: Seq<DocumentElement>, n: int)
    requires
        0 <= n <= docs.len(),
        cultures_known(docs),
    ensures
        cultures_known(docs.subrange(0, n)),
    decreases docs.len() - n,
{
    if n < docs.len() {
        assert(docs.drop_last().subrange(0, n) =~= docs.subrange(0, n));
        lemma_cultures_known_prefix(docs.drop_last(), n);
    } else {
        assert(docs.subrange(0, n) =~= docs);
    }
}

/// The translations of text resource files: for each text resource its
/// label, the name of its culture and its text with markers resolved and
/// enum index removed, in the order of the files and resources.
pub fn translations_raw(documents: &[DocumentElement]) -> (res: Vec<(String, String, String)>)
    requires
        cultures_known(documents@),
        labels_fit(documents@),
    ensures
        entries_view(res@) == translation_entries(documents@),
{
    let mut cultures: Vec<(u8, String)> = Vec::new();
    let mut entries: Vec<(String, String, String)> = Vec::new();
    let mut d: usize = 0;
    assert(documents@.subrange(0, 0) =~= Seq::<DocumentElement>::empty());
    assert(cultures_view(cultures@) =~= Seq::empty());
    assert(entries_view(entries@) =~= Seq::empty());
    while d < documents.len()
        invariant
            d <= documents@.len(),
            cultures_known(documents@),
            labels_fit(documents@),
            cultures_view(cultures@) == cultures_of(documents@.subrange(0, d as int)),
            entries_view(entries@) == translation_entries(documents@.subrange(0, d as int)),
        decreases documents@.len() - d,
    {
        let doc = &documents[d];
        let ghost docs = documents@.subrange(0, d + 1);
        assert(docs.drop_last() =~= documents@.subrange(0, d as int));
        assert(docs.last() == *doc);
        proof {
            lemma_cultures_known_prefix(documents@, d + 1);
        }
        let ghost cultures_before = cultures_view(cultures@);
        let mut c: usize = 0;
        while c < doc.cultures.culture.len()
            invariant
                c <= doc.cultures.culture@.len(),
                cultures_view(cultures@) == cultures_before + doc.cultures.culture@.subrange(
                    0,
                    c as int,
                ).map_values(|x: Culture| (x.id, x.name@)),
            decreases doc.cultures.culture@.len() - c,
        {
            let culture = &doc.cultures.culture[c];
            let ghost before = cultures_view(cultures@);
            cultures.push((culture.id, culture.name.clone()));
            assert(cultures_view(cultures@) =~= before.push((culture.id, culture.name@)));
            assert(doc.cultures.culture@.subrange(0, c + 1).map_values(
                |x: Culture| (x.id, x.name@),
            ) =~= doc.cultures.culture@.subrange(0, c as int).map_values(
                |x: Culture| (x.id, x.name@),
            ).push((culture.id, culture.name@)));
            c = c + 1;
        }
        assert(doc.cultures.culture@.subrange(0, c as int) =~= doc.cultures.culture@);
        assert(cultures_view(cultures@) == cultures_of(docs));
        let ghost entries_before = entries_view(entries@);
        let resources = &doc.text_resources.text_resource;
        assert(forall|j: int|
            0 <= j < resources@.len() ==> (#[trigger] resources@[j]).label@.len() <= max_index_len()) by {
            assert(documents@[d as int] == *doc);
        }
        let mut r: usize = 0;
        while r < resources.len()
            invariant
                r <= resources@.len(),
                forall|j: int|
                    0 <= j < resources@.len() ==> (#[trigger] resources@[j]).label@.len()
                        <= max_index_len(),
                *resources == doc.text_resources.text_resource,
                cultures_view(cultures@) == cultures_of(docs),
                docs.last() == *doc,
                docs.len() > 0,
                cultures_known(docs),
                entries_view(entries@) == entries_before + resources@.subrange(0, r as int).map_values(
                    |x: TextResource| translation_entry(cultures_of(docs), x),
                ),
            decreases resources@.len() - r,
        {
            let resource = &resources[r];
            assert(*resource == docs.last().text_resources.text_resource@[r as int]);
            assert(culture_name(cultures_of(docs), resource.culture_id) is Some);
            let name = match find_culture(&cultures, resource.culture_id) {
                Some(name) => name,
                None => {
                    return entries;
                },
            };
            let value = parse_translation_text(resource.value.clone());
            let value = clean_enum_text(Some(resource.label.as_str()), None, value);
            let ghost before = entries_view(entries@);
            entries.push((resource.label.clone(), name, value));
            assert(entries_view(entries@) =~= before.push(
                translation_entry(cultures_of(docs), *resource),
            ));
            assert(resources@.subrange(0, r + 1).map_values(
                |x: TextResource| translation_entry(cultures_of(docs), x),
            ) =~= resources@.subrange(0, r as int).map_values(
                |x: TextResource| translation_entry(cultures_of(docs), x),
            ).push(translation_entry(cultures_of(docs), *resource)));
            r = r + 1;
        }
        assert(resources@.subrange(0, r as int) =~= resources@);
        d = d + 1;
    }
    assert(documents@.subrange(0, d as int) =~= documents@);
    entries
}

/// What the importer makes of an enum value that stands for a translation:
/// the text it then stands for, and the translation that it adds, if any.
/// A value that names an existing translation stays. A status event type
/// takes its description as its translation. Otherwise a description that
/// refers to a translation becomes the value; failing that, the value
/// becomes the translation of its own id.
pub open spec fn enum_replacement(
    enum_replace_value: Seq<char>,
    description: Seq<char>,
    translations: Seq<(String, String)>,
    reverse_translations: Seq<(String, String)>,
) -> (Seq<char>, Option<(Seq<char>, Seq<char>)>) {
    let id = without_prefix(enum_replace_value, "@@"@);
    let status = "ecnStatusEventType~"@;
    let referred = description_reference(
        cleaned_enum_text(Some(enum_replace_value), None, description),
        translations,
        reverse_translations,
    );
    if enum_replace_value.len() == 0 || lookup(translations, id) is Some {
        (enum_replace_value, None)
    } else if description.len() > 0 && status.len() <= enum_replace_value.len()
        && enum_replace_value.subrange(0, status.len() as int) == status {
        (enum_replace_value, Some((id, without_prefix(description, status))))
    } else if description.len() > 0 && referred is Some {
        (referred->0, None)
    } else {
        (enum_replace_value, Some((id, enum_replace_value)))
    }
}

/// Gives an enum value of the vendor data a translation where it has none:
/// its description, or a translation that its description refers to, or
/// the value itself. The value is at most `max_index_len` long, as the
/// cleaning of its description needs.
pub fn add_missing_enum_replace_value_translations(
    enum_replace_value: &mut String,
    description: &str,
    translations: &mut Vec<(String, String)>,
    reverse_translations: &[(String, String)],
)
    requires
        old(enum_replace_value)@.len() <= max_index_len(),
    ensures
        final(enum_replace_value)@ == enum_replacement(
            old(enum_replace_value)@,
            description@,
            old(translations)@,
            reverse_translations@,
        ).0,
        enum_replacement(
            old(enum_replace_value)@,
            description@,
            old(translations)@,
            reverse_translations@,
        ).1 is None ==> final(translations)@ == old(translations)@,
        enum_replacement(
            old(enum_replace_value)@,
            description@,
            old(translations)@,
            reverse_translations@,
        ).1 matches Some(added) ==> forall|k: Seq<char>| #[trigger]
            lookup(final(translations)@, k) == if k == added.0 {
                Some(added.1)
            } else {
                lookup(old(translations)@, k)
            },
        distinct_ids(old(translations)@) ==> distinct_ids(final(translations)@),
        sorted_ids(old(translations)@) ==> sorted_ids(final(translations)@),
{
    if enum_replace_value.as_str().unicode_len() == 0 {
        return;
    }
    let value = enum_replace_value.clone();
    let translation_id: &str = match strip_prefix(value.as_str(), "@@") {
        Some(rest) => rest,
        None => value.as_str(),
    };
    if translation_of(translations.as_slice(), translation_id).is_some() {
        return;
    }
    if description.unicode_len() > 0 {
        if starts_with(value.as_str(), "ecnStatusEventType~") {
            let text: &str = match strip_prefix(description, "ecnStatusEventType~") {
                Some(rest) => rest,
                None => description,
            };
            table_insert(translations, String::from_str(translation_id), String::from_str(text));
            return;
        }
        let enum_text = clean_enum_text(Some(value.as_str()), None, String::from_str(description));
        if let Some(reference) = parse_description(
            enum_text.as_str(),
            translations.as_slice(),
            reverse_translations,
        ) {
            *enum_replace_value = reference;
            return;
        }
    }
    table_insert(translations, String::from_str(translation_id), value);
}

} // verus!
