//! Character-level text operations of the data-point importer, each stated
//! over the characters of its input.
use vstd::prelude::*;
use vstd::string::StrSliceExecFns;
use vstd::string::StringExecFns;

verus! {

/// Unicode White_Space: the characters for which `char::is_whitespace`
/// holds, and which regex's `\s` matches.
pub open spec fn is_white_space(c: char) -> bool {
    let n = c as u32;
    ||| 0x09 <= n <= 0x0D
    ||| n == 0x20
    ||| n == 0x85
    ||| n == 0xA0
    ||| n == 0x1680
    ||| 0x2000 <= n <= 0x200A
    ||| n == 0x2028
    ||| n == 0x2029
    ||| n == 0x202F
    ||| n == 0x205F
    ||| n == 0x3000
}

/// Whether a character is white space.
pub fn is_whitespace(c: char) -> (res: bool)
    ensures
        res == is_white_space(c),
{
    let n = c as u32;
    (0x09 <= n && n <= 0x0D) || n == 0x20 || n == 0x85 || n == 0xA0 || n == 0x1680 || (0x2000 <= n
        && n <= 0x200A) || n == 0x2028 || n == 0x2029 || n == 0x202F || n == 0x205F || n == 0x3000
}

/// The text without its leading white space.
pub open spec fn trim_start(s: Seq<char>) -> Seq<char>
    decreases s.len(),
{
    if s.len() > 0 && is_white_space(s[0]) {
        trim_start(s.drop_first())
    } else {
        s
    }
}

/// The text without its trailing white space.
pub open spec fn trim_end(s: Seq<char>) -> Seq<char>
    decreases s.len(),
{
    if s.len() > 0 && is_white_space(s.last()) {
        trim_end(s.drop_last())
    } else {
        s
    }
}

/// The text without white space at either end, as `str::trim` gives it.
pub open spec fn trimmed(s: Seq<char>) -> Seq<char> {
    trim_end(trim_start(s))
}

/// The rest of a text after a prefix, if it starts with that prefix.
pub open spec fn after_prefix(s: Seq<char>, prefix: Seq<char>) -> Option<Seq<char>> {
    if prefix.len() <= s.len() && s.subrange(0, prefix.len() as int) == prefix {
        Some(s.subrange(prefix.len() as int, s.len() as int))
    } else {
        None
    }
}

/// The text before a suffix, if it ends with that suffix.
pub open spec fn before_suffix(s: Seq<char>, suffix: Seq<char>) -> Option<Seq<char>> {
    if suffix.len() <= s.len() && s.subrange(s.len() - suffix.len(), s.len() as int) == suffix {
        Some(s.subrange(0, s.len() - suffix.len()))
    } else {
        None
    }
}

/// A text with its leading prefix removed, as `str::strip_prefix` does.
pub fn strip_prefix<'a>(s: &'a str, prefix: &str) -> (res: Option<&'a str>)
    ensures
        res matches Some(r) ==> after_prefix(s@, prefix@) == Some(r@),
        res is None ==> after_prefix(s@, prefix@) is None,
{
    let n = prefix.unicode_len();
    let m = s.unicode_len();
    if n > m {
        return None;
    }
    let mut i: usize = 0;
    while i < n
        invariant
            n == prefix@.len(),
            m == s@.len(),
            n <= m,
            i <= n,
            forall|j: int| 0 <= j < i ==> s@[j] == prefix@[j],
        decreases n - i,
    {
        if s.get_char(i) != prefix.get_char(i) {
            assert(s@.subrange(0, n as int)[i as int] != prefix@[i as int]);
            return None;
        }
        i = i + 1;
    }
    assert(s@.subrange(0, n as int) =~= prefix@);
    Some(s.substring_char(n, m))
}

/// A text with its trailing suffix removed, as `str::strip_suffix` does.
pub fn strip_suffix<'a>(s: &'a str, suffix: &str) -> (res: Option<&'a str>)
    ensures
        res matches Some(r) ==> before_suffix(s@, suffix@) == Some(r@),
        res is None ==> before_suffix(s@, suffix@) is None,
{
    let n = suffix.unicode_len();
    let m = s.unicode_len();
    if n > m {
        return None;
    }
    let start = m - n;
    let mut i: usize = 0;
    while i < n
        invariant
            n == suffix@.len(),
            m == s@.len(),
            start == m - n,
            i <= n,
            forall|j: int| 0 <= j < i ==> s@[start + j] == suffix@[j],
        decreases n - i,
    {
        if s.get_char(start + i) != suffix.get_char(i) {
            assert(s@.subrange(start as int, m as int)[i as int] != suffix@[i as int]);
            return None;
        }
        i = i + 1;
    }
    assert(s@.subrange(start as int, m as int) =~= suffix@);
    Some(s.substring_char(0, start))
}

proof fn lemma_trim_start_skip(s: Seq<char>, i: int)
    requires
        0 <= i < s.len(),
        is_white_space(s[i]),
    ensures
        trim_start(s.subrange(i, s.len() as int)) == trim_start(s.subrange(i + 1, s.len() as int)),
{
    let t = s.subrange(i, s.len() as int);
    assert(t.drop_first() =~= s.subrange(i + 1, s.len() as int));
}

proof fn lemma_trim_end_skip(s: Seq<char>, i: int, j: int)
    requires
        0 <= i < j <= s.len(),
        is_white_space(s[j - 1]),
    ensures
        trim_end(s.subrange(i, j)) == trim_end(s.subrange(i, j - 1)),
{
    let t = s.subrange(i, j);
    assert(t.drop_last() =~= s.subrange(i, j - 1));
}

/// A text without white space at either end.
pub fn trim(s: &str) -> (res: &str)
    ensures
        res@ == trimmed(s@),
{
    let m = s.unicode_len();
    let mut i: usize = 0;
    assert(s@.subrange(0, m as int) =~= s@);
    while i < m && is_whitespace(s.get_char(i))
        invariant
            m == s@.len(),
            i <= m,
            trim_start(s@) == trim_start(s@.subrange(i as int, m as int)),
        decreases m - i,
    {
        proof {
            lemma_trim_start_skip(s@, i as int);
        }
        i = i + 1;
    }
    assert(trim_start(s@) == s@.subrange(i as int, m as int));
    let mut j: usize = m;
    while j > i && is_whitespace(s.get_char(j - 1))
        invariant
            m == s@.len(),
            i <= j <= m,
            trim_end(s@.subrange(i as int, m as int)) == trim_end(s@.subrange(i as int, j as int)),
        decreases j - i,
    {
        proof {
            lemma_trim_end_skip(s@, i as int, j as int);
        }
        j = j - 1;
    }
    s.substring_char(i, j)
}

/// The text with each maximal run of white space replaced by one space.
pub open spec fn collapsed_white_space(s: Seq<char>) -> Seq<char>
    decreases s.len(),
{
    if s.len() == 0 {
        s
    } else if is_white_space(s[0]) && s.len() > 1 && is_white_space(s[1]) {
        collapsed_white_space(s.drop_first())
    } else if is_white_space(s[0]) {
        seq![' '] + collapsed_white_space(s.drop_first())
    } else {
        seq![s[0]] + collapsed_white_space(s.drop_first())
    }
}

/// `Regex::replace_all` with the pattern `\s+` and the replacement `" "`.
/// In regex's default Unicode mode `\s` matches the White_Space characters,
/// and `replace_all` replaces each leftmost, greedy match, that is each
/// maximal run of white space, with one space.
#[verifier::external_body]
pub(crate) fn collapse_whitespace(text: &str) -> (res: String)
    ensures
        res@ == collapsed_white_space(text@),
{
    regex::Regex::new(r"\s+").unwrap().replace_all(text, " ").into_owned()
}

/// The text with its runs of white space collapsed and its ends trimmed.
pub open spec fn simplified(s: Seq<char>) -> Seq<char> {
    trimmed(collapsed_white_space(s))
}

/// The text with each occurrence of a pattern, from left to right and not
/// overlapping, replaced, as `str::replace` does for a non-empty pattern.
pub open spec fn replaced(s: Seq<char>, pattern: Seq<char>, with: Seq<char>) -> Seq<char>
    decreases s.len(),
{
    if s.len() == 0 {
        s
    } else if 0 < pattern.len() <= s.len() && s.subrange(0, pattern.len() as int) == pattern {
        with + replaced(s.subrange(pattern.len() as int, s.len() as int), pattern, with)
    } else {
        seq![s[0]] + replaced(s.drop_first(), pattern, with)
    }
}

/// Whether a pattern occurs in a text at a position.
fn occurs_at(s: &str, n: usize, pattern: &str, m: usize, i: usize) -> (res: bool)
    requires
        n == s@.len(),
        m == pattern@.len(),
        i <= n,
    ensures
        res == (i + m <= n && s@.subrange(i as int, i + m) == pattern@),
{
    if m > n - i {
        return false;
    }
    let mut k: usize = 0;
    while k < m
        invariant
            n == s@.len(),
            m == pattern@.len(),
            i + m <= n,
            k <= m,
            forall|j: int| 0 <= j < k ==> s@[i + j] == pattern@[j],
        decreases m - k,
    {
        if s.get_char(i + k) != pattern.get_char(k) {
            assert(s@.subrange(i as int, i + m)[k as int] != pattern@[k as int]);
            return false;
        }
        k = k + 1;
    }
    assert(s@.subrange(i as int, i + m) =~= pattern@);
    true
}

/// Replaces each occurrence of a non-empty pattern.
pub fn replace(s: &str, pattern: &str, with: &str) -> (res: String)
    requires
        pattern@.len() > 0,
    ensures
        res@ == replaced(s@, pattern@, with@),
{
    let n = s.unicode_len();
    let m = pattern.unicode_len();
    let mut out = String::new();
    let mut i: usize = 0;
    assert(s@.subrange(0, n as int) =~= s@);
    while i < n
        invariant
            n == s@.len(),
            m == pattern@.len(),
            m > 0,
            i <= n,
            out@ + replaced(s@.subrange(i as int, n as int), pattern@, with@) == replaced(
                s@,
                pattern@,
                with@,
            ),
        decreases n - i,
    {
        let rest = Ghost(s@.subrange(i as int, n as int));
        if occurs_at(s, n, pattern, m, i) {
            assert(rest@.subrange(0, m as int) =~= s@.subrange(i as int, i + m));
            assert(rest@.subrange(m as int, rest@.len() as int) =~= s@.subrange(i + m, n as int));
            assert(replaced(rest@, pattern@, with@) == with@ + replaced(
                s@.subrange(i + m, n as int),
                pattern@,
                with@,
            ));
            let ghost before = out@;
            out.append(with);
            assert(before + (with@ + replaced(s@.subrange(i + m, n as int), pattern@, with@)) =~= out@
                + replaced(s@.subrange(i + m, n as int), pattern@, with@));
            i = i + m;
        } else {
            assert(rest@.drop_first() =~= s@.subrange(i + 1, n as int));
            let c = s.get_char(i);
            assert(!(0 < m <= rest@.len() && rest@.subrange(0, m as int) == pattern@)) by {
                if 0 < m <= rest@.len() {
                    assert(rest@.subrange(0, m as int) =~= s@.subrange(i as int, i + m));
                }
            }
            assert(replaced(rest@, pattern@, with@) == seq![c] + replaced(
                s@.subrange(i + 1, n as int),
                pattern@,
                with@,
            ));
            let ghost before = out@;
            push_char(&mut out, c);
            assert(before + (seq![c] + replaced(s@.subrange(i + 1, n as int), pattern@, with@))
                =~= out@ + replaced(s@.subrange(i + 1, n as int), pattern@, with@));
            i = i + 1;
        }
    }
    assert(out@ + replaced(s@.subrange(n as int, n as int), pattern@, with@) =~= out@);
    out
}

/// The pieces of a text between the occurrences of a separator, as
/// `str::split` yields them; there is one more piece than there are
/// separators.
pub open spec fn pieces(s: Seq<char>, sep: char) -> Seq<Seq<char>>
    decreases s.len(),
{
    if s.len() == 0 {
        seq![Seq::empty()]
    } else if s.last() == sep {
        pieces(s.drop_last(), sep).push(Seq::empty())
    } else {
        let r = pieces(s.drop_last(), sep);
        r.update(r.len() - 1, r.last().push(s.last()))
    }
}

/// The pieces of a text between newlines, without a last empty one: the
/// lines of `str::lines`, but for the carriage return that it removes before
/// a newline and that trimming removes too.
pub open spec fn lines_of(s: Seq<char>) -> Seq<Seq<char>> {
    let p = pieces(s, '\n');
    if p.last().len() == 0 {
        p.drop_last()
    } else {
        p
    }
}

/// Lines, each trimmed, joined with newlines.
pub open spec fn joined_trimmed(lines: Seq<Seq<char>>) -> Seq<char>
    decreases lines.len(),
{
    if lines.len() == 0 {
        Seq::empty()
    } else if lines.len() == 1 {
        trimmed(lines[0])
    } else {
        joined_trimmed(lines.drop_last()) + seq!['\n'] + trimmed(lines.last())
    }
}

/// Trims each line of a text and joins the lines with newlines, as
/// `text.lines().map(str::trim).collect::<Vec<_>>().join("\n")` does.
pub fn trim_lines(s: &str) -> (res: String)
    ensures
        res@ == joined_trimmed(lines_of(s@)),
{
    let n = s.unicode_len();
    let mut out = String::new();
    let mut line_start: usize = 0;
    let mut complete: usize = 0;
    let mut i: usize = 0;
    proof {
        assert(s@.subrange(0, 0) =~= Seq::<char>::empty());
    }
    while i < n
        invariant
            n == s@.len(),
            line_start <= i <= n,
            complete <= i,
            pieces(s@.subrange(0, i as int), '\n').len() == complete + 1,
            pieces(s@.subrange(0, i as int), '\n').last() == s@.subrange(line_start as int, i as int),
            out@ == joined_trimmed(pieces(s@.subrange(0, i as int), '\n').drop_last()),
        decreases n - i,
    {
        let c = s.get_char(i);
        let ghost p = pieces(s@.subrange(0, i as int), '\n');
        assert(s@.subrange(0, i + 1).drop_last() =~= s@.subrange(0, i as int));
        if c == '\n' {
            let line = trim(s.substring_char(line_start, i));
            if complete > 0 {
                push_char(&mut out, '\n');
            }
            out.append(line);
            proof {
                assert(pieces(s@.subrange(0, i + 1), '\n') == p.push(Seq::empty()));
                assert(p.push(Seq::<char>::empty()).drop_last() =~= p);
                if p.len() > 1 {
                    assert(p.drop_last().push(p.last()) =~= p);
                }
            }
            line_start = i + 1;
            complete = complete + 1;
            assert(s@.subrange(line_start as int, i + 1) =~= Seq::<char>::empty());
        } else {
            proof {
                let q = p.update(p.len() - 1, p.last().push(c));
                assert(pieces(s@.subrange(0, i + 1), '\n') == q);
                assert(q.drop_last() =~= p.drop_last());
                assert(q.last() =~= s@.subrange(line_start as int, i + 1));
            }
        }
        i = i + 1;
    }
    assert(s@.subrange(0, n as int) =~= s@);
    if line_start < n {
        let line = trim(s.substring_char(line_start, n));
        if complete > 0 {
            push_char(&mut out, '\n');
        }
        out.append(line);
        proof {
            let p = pieces(s@, '\n');
            if p.len() > 1 {
                assert(p.drop_last().push(p.last()) =~= p);
            }
        }
    }
    out
}

/// Splits a text at each occurrence of a separator.
pub fn split(s: &str, sep: char) -> (res: Vec<String>)
    ensures
        res@.len() == pieces(s@, sep).len(),
        forall|k: int| 0 <= k < res@.len() ==> #[trigger] res@[k]@ == pieces(s@, sep)[k],
{
    let n = s.unicode_len();
    let mut out: Vec<String> = Vec::new();
    let mut start: usize = 0;
    let mut i: usize = 0;
    assert(s@.subrange(0, 0) =~= Seq::<char>::empty());
    while i < n
        invariant
            n == s@.len(),
            start <= i <= n,
            pieces(s@.subrange(0, i as int), sep).len() == out@.len() + 1,
            pieces(s@.subrange(0, i as int), sep).last() == s@.subrange(start as int, i as int),
            forall|k: int|
                0 <= k < out@.len() ==> #[trigger] out@[k]@ == pieces(
                    s@.subrange(0, i as int),
                    sep,
                )[k],
        decreases n - i,
    {
        let c = s.get_char(i);
        let ghost p = pieces(s@.subrange(0, i as int), sep);
        assert(s@.subrange(0, i + 1).drop_last() =~= s@.subrange(0, i as int));
        if c == sep {
            out.push(String::from_str(s.substring_char(start, i)));
            assert(pieces(s@.subrange(0, i + 1), sep) == p.push(Seq::empty()));
            start = i + 1;
            assert(s@.subrange(start as int, i + 1) =~= Seq::<char>::empty());
        } else {
            proof {
                let q = p.update(p.len() - 1, p.last().push(c));
                assert(pieces(s@.subrange(0, i + 1), sep) == q);
                assert(q.last() =~= s@.subrange(start as int, i + 1));
            }
        }
        i = i + 1;
    }
    assert(s@.subrange(0, n as int) =~= s@);
    out.push(String::from_str(s.substring_char(start, n)));
    out
}

/// The position of the first occurrence of a character in a text.
pub open spec fn first_index_of(s: Seq<char>, c: char) -> Option<int> {
    if exists|k: int| 0 <= k < s.len() && s[k] == c {
        Some(choose|k: int| 0 <= k < s.len() && s[k] == c && forall|j: int| 0 <= j < k ==> s[j] != c)
    } else {
        None
    }
}

/// The text before and after the first occurrence of a character, as
/// `str::split_once` gives it.
pub open spec fn split_once_at(s: Seq<char>, c: char) -> Option<(Seq<char>, Seq<char>)> {
    match first_index_of(s, c) {
        Some(k) => Some((s.subrange(0, k), s.subrange(k + 1, s.len() as int))),
        None => None,
    }
}

/// Splits a text at the first occurrence of a character.
pub fn split_once<'a>(s: &'a str, c: char) -> (res: Option<(&'a str, &'a str)>)
    ensures
        res matches Some(r) ==> split_once_at(s@, c) == Some((r.0@, r.1@)),
        res is None ==> split_once_at(s@, c) is None,
{
    let n = s.unicode_len();
    let mut i: usize = 0;
    while i < n
        invariant
            n == s@.len(),
            i <= n,
            forall|j: int| 0 <= j < i ==> s@[j] != c,
        decreases n - i,
    {
        if s.get_char(i) == c {
            let ghost k = choose|k: int|
                0 <= k < s@.len() && s@[k] == c && forall|j: int| 0 <= j < k ==> s@[j] != c;
            assert(k == i) by {
                if k < i {
                } else if k > i {
                    assert(s@[i as int] == c);
                }
            }
            return Some((s.substring_char(0, i), s.substring_char(i + 1, n)));
        }
        i = i + 1;
    }
    None
}

/// The value of a decimal digit character.
pub open spec fn digit_value(c: char) -> int {
    c as int - '0' as int
}

/// Whether a character is an ASCII decimal digit.
pub open spec fn is_digit(c: char) -> bool {
    '0' <= c <= '9'
}

/// The number that ASCII digits spell.
pub open spec fn digits_value(s: Seq<char>) -> int
    decreases s.len(),
{
    if s.len() == 0 {
        0
    } else {
        digits_value(s.drop_last()) * 10 + digit_value(s.last())
    }
}

/// A text without the `+` sign that it may start with.
pub open spec fn unsigned_digits(s: Seq<char>) -> Seq<char> {
    if s.len() > 0 && s[0] == '+' {
        s.drop_first()
    } else {
        s
    }
}

/// Whether all characters of a text are ASCII digits.
pub open spec fn all_digits(s: Seq<char>) -> bool {
    forall|k: int| 0 <= k < s.len() ==> is_digit(#[trigger] s[k])
}

/// The number that `str::parse` reads from a text for an unsigned type of
/// largest value `max`: an optional `+` and at least one ASCII digit, of a
/// value that fits.
pub open spec fn parsed_unsigned(s: Seq<char>, max: int) -> Option<int> {
    let digits = unsigned_digits(s);
    if digits.len() > 0 && all_digits(digits) && digits_value(digits) <= max {
        Some(digits_value(digits))
    } else {
        None
    }
}

/// The `u8` that `str::parse` reads from a text.
pub open spec fn parsed_u8(s: Seq<char>) -> Option<u8> {
    match parsed_unsigned(s, 255) {
        Some(v) => Some(v as u8),
        None => None,
    }
}

/// The `u16` that `str::parse` reads from a text.
pub open spec fn parsed_u16(s: Seq<char>) -> Option<u16> {
    match parsed_unsigned(s, 0xffff) {
        Some(v) => Some(v as u16),
        None => None,
    }
}

proof fn lemma_digits_value_nonneg(s: Seq<char>)
    requires
        forall|k: int| 0 <= k < s.len() ==> is_digit(#[trigger] s[k]),
    ensures
        digits_value(s) >= 0,
    decreases s.len(),
{
    if s.len() > 0 {
        lemma_digits_value_nonneg(s.drop_last());
    }
}

proof fn lemma_digits_value_prefix(s: Seq<char>, i: int)
    requires
        0 <= i <= s.len(),
        forall|k: int| 0 <= k < s.len() ==> is_digit(#[trigger] s[k]),
    ensures
        digits_value(s.subrange(0, i)) <= digits_value(s),
    decreases s.len() - i,
{
    if i < s.len() {
        lemma_digits_value_prefix(s.drop_last(), i);
        assert(s.drop_last().subrange(0, i) =~= s.subrange(0, i));
        lemma_digits_value_nonneg(s.drop_last());
    } else {
        assert(s.subrange(0, i) =~= s);
    }
}

/// Parses an unsigned number of largest value `max` as `str::parse` does.
fn parse_unsigned(s: &str, max: u32) -> (res: Option<u32>)
    ensures
        res matches Some(v) ==> parsed_unsigned(s@, max as int) == Some(v as int),
        res is None ==> parsed_unsigned(s@, max as int) is None,
{
    let n = s.unicode_len();
    let start: usize = if n > 0 && s.get_char(0) == '+' {
        1
    } else {
        0
    };
    let ghost digits = unsigned_digits(s@);
    assert(digits =~= s@.subrange(start as int, n as int));
    if start == n {
        return None;
    }
    let mut value: u32 = 0;
    let mut i: usize = start;
    while i < n
        invariant
            n == s@.len(),
            start <= i <= n,
            start < n,
            digits == s@.subrange(start as int, n as int),
            digits == unsigned_digits(s@),
            forall|k: int| start <= k < i ==> is_digit(#[trigger] s@[k]),
            value == digits_value(s@.subrange(start as int, i as int)),
            value <= max,
        decreases n - i,
    {
        let c = s.get_char(i);
        if c < '0' || c > '9' {
            assert(!all_digits(digits)) by {
                assert(!is_digit(digits[i - start]));
            }
            return None;
        }
        let d = (c as u32) - ('0' as u32);
        assert(s@.subrange(start as int, i + 1).drop_last() =~= s@.subrange(start as int, i as int));
        assert(d < 10);
        let next: u64 = value as u64 * 10 + d as u64;
        if next > max as u64 {
            proof {
                assert forall|k: int| 0 <= k < (i + 1 - start) implies is_digit(
                    #[trigger] s@.subrange(start as int, i + 1)[k],
                ) by {}
                if all_digits(digits) {
                    lemma_digits_value_prefix(digits, i + 1 - start);
                    assert(digits.subrange(0, i + 1 - start) =~= s@.subrange(start as int, i + 1));
                }
            }
            return None;
        }
        value = next as u32;
        i = i + 1;
    }
    assert(s@.subrange(start as int, n as int) =~= digits);
    Some(value)
}

/// Parses a `u8` as `str::parse` does.
pub fn parse_u8(s: &str) -> (res: Option<u8>)
    ensures
        res == parsed_u8(s@),
{
    match parse_unsigned(s, 255) {
        Some(v) => Some(v as u8),
        None => None,
    }
}

/// Parses a `u16` as `str::parse` does.
pub fn parse_u16(s: &str) -> (res: Option<u16>)
    ensures
        res == parsed_u16(s@),
{
    match parse_unsigned(s, 0xffff) {
        Some(v) => Some(v as u16),
        None => None,
    }
}

/// The snake case of a text, as `stringcase::snake_case` writes it.
pub uninterp spec fn snake_cased(text: Seq<char>) -> Seq<char>;

/// `stringcase::snake_case`: its result is named, not stated.
#[verifier::external_body]
pub(crate) fn snake_case(text: &str) -> (res: String)
    ensures
        res@ == snake_cased(text@),
{
    stringcase::snake_case(text)
}

/// Appends a character, with `String::push`.
#[verifier::external_body]
pub(crate) fn push_char(s: &mut String, c: char)
    ensures
        final(s)@ == old(s)@.push(c),
{
    s.push(c);
}

} // verus!
