//! Mapping of translation ids onto numbers, one number for each distinct text.
use vstd::prelude::*;
use vstd::string::StrSliceExecFns;

verus! {

/// The order of `String`: lexicographic by bytes, which for UTF-8 is
/// lexicographic by code points.
pub open spec fn text_less(a: Seq<char>, b: Seq<char>) -> bool
    decreases a.len(),
{
    if a.len() == 0 {
        b.len() > 0
    } else if b.len() == 0 {
        false
    } else if a[0] != b[0] {
        a[0] < b[0]
    } else {
        text_less(a.drop_first(), b.drop_first())
    }
}

pub(crate) proof fn lemma_text_less_irreflexive(a: Seq<char>)
    ensures
        !text_less(a, a),
    decreases a.len(),
{
    if a.len() > 0 {
        lemma_text_less_irreflexive(a.drop_first());
    }
}

pub(crate) proof fn lemma_text_less_total(a: Seq<char>, b: Seq<char>)
    ensures
        a != b ==> text_less(a, b) || text_less(b, a),
        !(text_less(a, b) && text_less(b, a)),
    decreases a.len(),
{
    if a.len() > 0 && b.len() > 0 {
        lemma_text_less_total(a.drop_first(), b.drop_first());
        if a[0] == b[0] && a.drop_first() == b.drop_first() {
            assert(a =~= seq![a[0]] + a.drop_first());
            assert(b =~= seq![b[0]] + b.drop_first());
        }
    } else if a.len() == 0 && b.len() == 0 {
        assert(a =~= b);
    }
}

pub(crate) proof fn lemma_text_less_transitive(a: Seq<char>, b: Seq<char>, c: Seq<char>)
    requires
        text_less(a, b),
        text_less(b, c),
    ensures
        text_less(a, c),
    decreases a.len(),
{
    if a.len() > 0 && b.len() > 0 && c.len() > 0 && a[0] == b[0] && b[0] == c[0] {
        lemma_text_less_transitive(a.drop_first(), b.drop_first(), c.drop_first());
    }
}

/// Compares two texts in the order of `String`.
pub(crate) fn less(a: &str, b: &str) -> (res: bool)
    ensures
        res == text_less(a@, b@),
{
    let n = a.unicode_len();
    let m = b.unicode_len();
    let mut i: usize = 0;
    assert(a@.subrange(0, n as int) =~= a@);
    assert(b@.subrange(0, m as int) =~= b@);
    while i < n && i < m
        invariant
            n == a@.len(),
            m == b@.len(),
            i <= n,
            i <= m,
            text_less(a@, b@) == text_less(
                a@.subrange(i as int, n as int),
                b@.subrange(i as int, m as int),
            ),
        decreases n - i,
    {
        let x = a.get_char(i);
        let y = b.get_char(i);
        let ghost ra = a@.subrange(i as int, n as int);
        let ghost rb = b@.subrange(i as int, m as int);
        assert(ra[0] == x && rb[0] == y);
        if x != y {
            return x < y;
        }
        assert(ra.drop_first() =~= a@.subrange(i + 1, n as int));
        assert(rb.drop_first() =~= b@.subrange(i + 1, m as int));
        i = i + 1;
    }
    i == n && i < m
}

/// Whether texts are in strictly ascending order.
pub open spec fn ascending(texts: Seq<String>) -> bool {
    forall|i: int, j: int| 0 <= i < j < texts.len() ==> text_less(texts[i]@, texts[j]@)
}

/// Whether a text occurs among texts.
pub open spec fn has_text(texts: Seq<String>, text: Seq<char>) -> bool {
    exists|i: int| 0 <= i < texts.len() && texts[i]@ == text
}

/// The ids of a map and, for each distinct value of it, a number: the
/// numbers count the distinct values in ascending order from 0, and each id
/// maps to the number of its value.
#[derive(Debug)]
pub struct UniqueMapping<V> {
    /// Each id of the map with the number of its value, in the order of the map.
    pub mapping: Vec<(String, usize)>,
    /// The distinct values; the number of a value is its position.
    pub translations: Vec<V>,
}

/// Puts a text into ascending distinct texts, where it is not there yet.
fn insert_sorted(texts: &mut Vec<String>, text: &String)
    requires
        ascending(old(texts)@),
    ensures
        ascending(final(texts)@),
        forall|t: Seq<char>| has_text(final(texts)@, t) <==> (has_text(old(texts)@, t) || t == text@),
{
    let ghost original = texts@;
    let mut j: usize = 0;
    while j < texts.len() && less(texts[j].as_str(), text.as_str())
        invariant
            texts@ == original,
            ascending(original),
            j <= texts@.len(),
            forall|k: int| 0 <= k < j ==> text_less(#[trigger] texts@[k]@, text@),
        decreases texts@.len() - j,
    {
        j = j + 1;
    }
    if j < texts.len() && !less(text.as_str(), texts[j].as_str()) {
        proof {
            lemma_text_less_total(texts@[j as int]@, text@);
        }
        assert(has_text(original, text@));
        return;
    }
    proof {
        if j < texts@.len() {
            assert(text_less(text@, texts@[j as int]@)) by {
                lemma_text_less_total(texts@[j as int]@, text@);
                lemma_text_less_irreflexive(text@);
            }
        }
    }
    proof {
        assert forall|k: int| j <= k < original.len() implies text_less(text@, #[trigger] original[k]@) by {
            if k > j {
                lemma_text_less_transitive(text@, original[j as int]@, original[k]@);
            }
        }
    }
    texts.insert(j, text.clone());
    proof {
        let s = texts@;
        assert(s == original.insert(j as int, s[j as int]));
        assert forall|a: int, b: int| 0 <= a < b < s.len() implies text_less(s[a]@, s[b]@) by {
            if b < j {
            } else if a < j && b == j {
            } else if a < j && b > j {
                lemma_text_less_transitive(original[a]@, text@, original[b - 1]@);
            } else if a == j {
            } else {
            }
        }
        assert forall|t: Seq<char>| has_text(s, t) <==> (has_text(original, t) || t == text@) by {
            if has_text(s, t) {
                let i = choose|i: int| 0 <= i < s.len() && s[i]@ == t;
                if i < j {
                    assert(original[i] == s[i]);
                } else if i > j {
                    assert(original[i - 1] == s[i]);
                }
            }
            if has_text(original, t) {
                let i = choose|i: int| 0 <= i < original.len() && original[i]@ == t;
                if i < j {
                    assert(s[i] == original[i]);
                } else {
                    assert(s[i + 1] == original[i]);
                }
            }
            if t == text@ {
                assert(s[j as int]@ == t);
            }
        }
    }
}

/// The position of a text among ascending distinct texts.
fn position_of(texts: &Vec<String>, text: &String) -> (res: usize)
    requires
        has_text(texts@, text@),
    ensures
        res < texts@.len(),
        texts@[res as int]@ == text@,
{
    let mut i: usize = 0;
    while i < texts.len()
        invariant
            has_text(texts@, text@),
            i <= texts@.len(),
            forall|k: int| 0 <= k < i ==> (#[trigger] texts@[k])@ != text@,
        decreases texts@.len() - i,
    {
        if crate::text::str_eq(texts[i].as_str(), text.as_str()) {
            return i;
        }
        i = i + 1;
    }
    assert(false);
    0
}

impl UniqueMapping<String> {
    /// Numbers the distinct texts of a map, given by its entries, and maps
    /// each id onto the number of its text.
    pub fn create(map: &[(String, String)]) -> (res: Self)
        ensures
            ascending(res.translations@),
            forall|t: Seq<char>|
                has_text(res.translations@, t) <==> exists|i: int|
                    0 <= i < map@.len() && (#[trigger] map@[i]).1@ == t,
            res.mapping@.len() == map@.len(),
            forall|i: int|
                0 <= i < map@.len() ==> {
                    &&& (#[trigger] res.mapping@[i]).0@ == map@[i].0@
                    &&& res.mapping@[i].1 < res.translations@.len()
                    &&& res.translations@[res.mapping@[i].1 as int]@ == map@[i].1@
                },
    {
        let mut texts: Vec<String> = Vec::new();
        let mut i: usize = 0;
        while i < map.len()
            invariant
                i <= map@.len(),
                ascending(texts@),
                forall|t: Seq<char>|
                    has_text(texts@, t) <==> exists|k: int|
                        0 <= k < i && (#[trigger] map@[k]).1@ == t,
            decreases map@.len() - i,
        {
            let ghost before = texts@;
            insert_sorted(&mut texts, &map[i].1);
            proof {
                assert forall|t: Seq<char>|
                    has_text(texts@, t) <==> exists|k: int|
                        0 <= k < i + 1 && (#[trigger] map@[k]).1@ == t by {
                    if has_text(before, t) {
                        let k = choose|k: int| 0 <= k < i && (#[trigger] map@[k]).1@ == t;
                        assert(0 <= k < i + 1 && map@[k].1@ == t);
                    }
                    if t == map@[i as int].1@ {
                        assert(0 <= i < i + 1 && map@[i as int].1@ == t);
                    }
                }
            }
            i = i + 1;
        }
        let mut mapping: Vec<(String, usize)> = Vec::new();
        let mut k: usize = 0;
        while k < map.len()
            invariant
                k <= map@.len(),
                ascending(texts@),
                forall|t: Seq<char>|
                    has_text(texts@, t) <==> exists|j: int|
                        0 <= j < map@.len() && (#[trigger] map@[j]).1@ == t,
                mapping@.len() == k,
                forall|j: int|
                    0 <= j < k ==> {
                        &&& (#[trigger] mapping@[j]).0@ == map@[j].0@
                        &&& mapping@[j].1 < texts@.len()
                        &&& texts@[mapping@[j].1 as int]@ == map@[j].1@
                    },
            decreases map@.len() - k,
        {
            assert(has_text(texts@, map@[k as int].1@));
            let id = position_of(&texts, &map[k].1);
            mapping.push((map[k].0.clone(), id));
            k = k + 1;
        }
        UniqueMapping { mapping, translations: texts }
    }
}

} // verus!
