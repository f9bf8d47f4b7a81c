//! Character-level text handling: the whitespace and alphanumeric classes
//! of Unicode, trimming, splitting on a separator, line splitting and the
//! conversions between `String` and a vector of characters.
//!
//! Every function here works on the character view of a string (`Seq<char>`)
//! and states its result with a spec function of the same name.
use vstd::prelude::*;

verus! {

// ── Unicode character classes ──────────────────────────────────────

/// Whether a character outside ASCII carries the Unicode `White_Space`
/// property.
pub uninterp spec fn non_ascii_whitespace(c: char) -> bool;

/// Whether a character outside ASCII is alphabetic or numeric in the
/// Unicode sense.
pub uninterp spec fn non_ascii_alphanumeric(c: char) -> bool;

/// Whether `c` carries the Unicode `White_Space` property.
pub open spec fn unicode_whitespace(c: char) -> bool {
    if is_ascii_char(c) {
        ascii_whitespace(c)
    } else {
        non_ascii_whitespace(c)
    }
}

/// Whether `c` is alphabetic or numeric in the Unicode sense.
pub open spec fn unicode_alphanumeric(c: char) -> bool {
    if is_ascii_char(c) {
        ascii_alphanumeric(c)
    } else {
        non_ascii_alphanumeric(c)
    }
}

/// The ASCII characters with the `White_Space` property: tab, line feed,
/// vertical tab, form feed, carriage return and space.
pub open spec fn ascii_whitespace(c: char) -> bool {
    c == ' ' || c == '\t' || c == '\n' || c == '\x0B' || c == '\x0C' || c == '\r'
}

/// The ASCII letters and digits.
pub open spec fn ascii_alphanumeric(c: char) -> bool {
    ('a' <= c && c <= 'z') || ('A' <= c && c <= 'Z') || ('0' <= c && c <= '9')
}

/// An ASCII character.
pub open spec fn is_ascii_char(c: char) -> bool {
    c <= '\x7F'
}

/// `char::is_whitespace`: whether `c` has the Unicode `White_Space`
/// property. Its documentation defines the class by that property; on ASCII
/// it is exactly tab, line feed, vertical tab, form feed, carriage return and
/// space, which the contract states. Outside ASCII the class is only named.
#[verifier::external_body]
pub(crate) fn is_whitespace(c: char) -> (r: bool)
    ensures
        r == (if is_ascii_char(c) {
            ascii_whitespace(c)
        } else {
            non_ascii_whitespace(c)
        }),
{
    c.is_whitespace()
}

/// `char::is_alphanumeric`: whether `c` is alphabetic or numeric. On ASCII
/// this is exactly the letters and digits, which the contract states;
/// outside ASCII the class is only named.
#[verifier::external_body]
pub(crate) fn is_alphanumeric(c: char) -> (r: bool)
    ensures
        r == (if is_ascii_char(c) {
            ascii_alphanumeric(c)
        } else {
            non_ascii_alphanumeric(c)
        }),
{
    c.is_alphanumeric()
}

/// `String::push`: appends one character.
#[verifier::external_body]
pub(crate) fn push_char(s: &mut String, c: char)
    ensures
        final(s)@ == old(s)@.push(c),
{
    s.push(c)
}

/// The text `format!("{:?}", s)` gives for a string slice: the string in
/// double quotes with escapes.
pub uninterp spec fn str_debug(s: Seq<char>) -> Seq<char>;

/// `<str as Debug>::fmt` through `format!("{:?}", s)`: the quoted, escaped
/// form of `s`. Its escaping rules (which characters std's Unicode tables
/// count as printable) are not stated; the result is named.
#[verifier::external_body]
pub(crate) fn debug_text(s: &str) -> (res: String)
    ensures
        res@ == str_debug(s@),
{
    format!("{:?}", s)
}

// ── Conversions ────────────────────────────────────────────────────

/// The characters of `s`, in order.
pub fn chars_of(s: &str) -> (res: Vec<char>)
    ensures
        res@ == s@,
{
    let mut res: Vec<char> = Vec::new();
    for c in it: s.chars()
        invariant
            res@ == it.seq().take(it.index() as int),
    {
        res.push(c);
    }
    res
}

/// The string made of the characters `cs`.
pub fn string_of(cs: &[char]) -> (res: String)
    ensures
        res@ == cs@,
{
    let mut res = String::new();
    let n = cs.len();
    let mut i: usize = 0;
    while i < n
        invariant
            n == cs@.len(),
            i <= n,
            res@ == cs@.take(i as int),
        decreases n - i,
    {
        push_char(&mut res, cs[i]);
        assert(cs@.take(i + 1) =~= cs@.take(i as int).push(cs@[i as int]));
        i += 1;
    }
    assert(cs@.take(n as int) =~= cs@);
    res
}

/// A string holding a copy of `s`.
pub fn string_from(s: &str) -> (res: String)
    ensures
        res@ == s@,
{
    let cs = chars_of(s);
    string_of(cs.as_slice())
}

/// Appends `tail` to `s`.
pub fn push_all(s: &mut String, tail: &str)
    ensures
        final(s)@ == old(s)@ + tail@,
{
    let cs = chars_of(tail);
    let n = cs.len();
    let mut i: usize = 0;
    while i < n
        invariant
            n == cs@.len(),
            cs@ == tail@,
            i <= n,
            s@ == old(s)@ + tail@.take(i as int),
        decreases n - i,
    {
        push_char(s, cs[i]);
        assert(tail@.take(i + 1) =~= tail@.take(i as int).push(tail@[i as int]));
        i += 1;
    }
    assert(tail@.take(n as int) =~= tail@);
}

// ── Trimming ───────────────────────────────────────────────────────

/// `s` without its leading whitespace.
pub open spec fn trim_start(s: Seq<char>) -> Seq<char>
    decreases s.len(),
{
    if s.len() > 0 && unicode_whitespace(s[0]) {
        trim_start(s.drop_first())
    } else {
        s
    }
}

/// `s` without its trailing whitespace.
pub open spec fn trim_end(s: Seq<char>) -> Seq<char>
    decreases s.len(),
{
    if s.len() > 0 && unicode_whitespace(s.last()) {
        trim_end(s.drop_last())
    } else {
        s
    }
}

/// `s` without leading and trailing whitespace, as `str::trim` gives it.
pub open spec fn trim(s: Seq<char>) -> Seq<char> {
    trim_end(trim_start(s))
}

/// A trimmed text is empty or starts and ends with a non-whitespace
/// character.
pub open spec fn is_trimmed(s: Seq<char>) -> bool {
    s.len() > 0 ==> (!unicode_whitespace(s[0]) && !unicode_whitespace(s.last()))
}

/// Whether the text is empty once trimmed, that is, whether every
/// character is whitespace.
pub open spec fn is_blank(s: Seq<char>) -> bool {
    trim(s).len() == 0
}

proof fn lemma_trim_start_skip(s: Seq<char>, i: int)
    requires
        0 <= i <= s.len(),
        forall|k: int| 0 <= k < i ==> unicode_whitespace(#[trigger] s[k]),
    ensures
        trim_start(s) == trim_start(s.subrange(i, s.len() as int)),
    decreases i,
{
    if i > 0 {
        lemma_trim_start_skip(s, i - 1);
        let t = s.subrange(i - 1, s.len() as int);
        assert(t[0] == s[i - 1]);
        assert(t.drop_first() =~= s.subrange(i, s.len() as int));
    } else {
        assert(s.subrange(0, s.len() as int) =~= s);
    }
}

proof fn lemma_trim_end_cut(s: Seq<char>, j: int)
    requires
        0 <= j <= s.len(),
        forall|k: int| j <= k < s.len() ==> unicode_whitespace(#[trigger] s[k]),
    ensures
        trim_end(s) == trim_end(s.subrange(0, j)),
    decreases s.len() - j,
{
    if j < s.len() {
        lemma_trim_end_cut(s, j + 1);
        let t = s.subrange(0, j + 1);
        assert(t.last() == s[j]);
        assert(t.drop_last() =~= s.subrange(0, j));
    } else {
        assert(s.subrange(0, j) =~= s);
    }
}

/// The trimmed text, with the bounds of the kept part.
proof fn lemma_trim_is_subrange(s: Seq<char>, i: int, j: int)
    requires
        0 <= i <= j <= s.len(),
        forall|k: int| 0 <= k < i ==> unicode_whitespace(#[trigger] s[k]),
        i < s.len() ==> !unicode_whitespace(s[i]),
        forall|k: int| j <= k < s.len() ==> unicode_whitespace(#[trigger] s[k]),
        j > i ==> !unicode_whitespace(s[j - 1]),
        i == s.len() ==> j == i,
    ensures
        trim(s) == s.subrange(i, j),
{
    lemma_trim_start_skip(s, i);
    let t = s.subrange(i, s.len() as int);
    assert(trim_start(t) == t);
    lemma_trim_end_cut(t, j - i);
    assert(t.subrange(0, j - i) =~= s.subrange(i, j));
    let u = s.subrange(i, j);
    if u.len() > 0 {
        assert(u.last() == s[j - 1]);
    }
}

proof fn lemma_trim_start_contains(s: Seq<char>)
    ensures
        forall|x: char| #[trigger] trim_start(s).contains(x) ==> s.contains(x),
    decreases s.len(),
{
    if s.len() > 0 && unicode_whitespace(s[0]) {
        lemma_trim_start_contains(s.drop_first());
        assert forall|x: char| #[trigger] trim_start(s).contains(x) implies s.contains(x) by {
            assert(trim_start(s.drop_first()).contains(x));
            assert(s.drop_first().contains(x));
            let k = choose|k: int| 0 <= k < s.drop_first().len() && s.drop_first()[k] == x;
            assert(s[k + 1] == x);
        }
    }
}

proof fn lemma_trim_end_contains(s: Seq<char>)
    ensures
        forall|x: char| #[trigger] trim_end(s).contains(x) ==> s.contains(x),
    decreases s.len(),
{
    if s.len() > 0 && unicode_whitespace(s.last()) {
        lemma_trim_end_contains(s.drop_last());
        assert forall|x: char| #[trigger] trim_end(s).contains(x) implies s.contains(x) by {
            assert(trim_end(s.drop_last()).contains(x));
            assert(s.drop_last().contains(x));
            let k = choose|k: int| 0 <= k < s.drop_last().len() && s.drop_last()[k] == x;
            assert(s[k] == x);
        }
    }
}

/// Every character of the trimmed text comes from the text.
pub proof fn lemma_trim_contains(s: Seq<char>)
    ensures
        forall|x: char| #[trigger] trim(s).contains(x) ==> s.contains(x),
{
    lemma_trim_start_contains(s);
    lemma_trim_end_contains(trim_start(s));
}

/// `str::trim` on a character vector: the characters without leading and
/// trailing whitespace.
pub fn trim_chars(s: &[char]) -> (res: Vec<char>)
    ensures
        res@ == trim(s@),
        is_trimmed(res@),
{
    let n = s.len();
    let mut i: usize = 0;
    while i < n && is_whitespace(s[i])
        invariant
            n == s@.len(),
            i <= n,
            forall|k: int| 0 <= k < i ==> unicode_whitespace(#[trigger] s@[k]),
        decreases n - i,
    {
        i += 1;
    }
    let mut j: usize = n;
    while j > i && is_whitespace(s[j - 1])
        invariant
            n == s@.len(),
            i <= j <= n,
            forall|k: int| j <= k < n ==> unicode_whitespace(#[trigger] s@[k]),
        decreases j - i,
    {
        j -= 1;
    }
    proof {
        if i == n {
            assert(j == i);
        }
        lemma_trim_is_subrange(s@, i as int, j as int);
    }
    let mut res: Vec<char> = Vec::new();
    let mut k: usize = i;
    while k < j
        invariant
            n == s@.len(),
            i <= k <= j <= n,
            res@ == s@.subrange(i as int, k as int),
        decreases j - k,
    {
        res.push(s[k]);
        assert(s@.subrange(i as int, k + 1) =~= s@.subrange(i as int, k as int).push(s@[k as int]));
        k += 1;
    }
    res
}

/// `str::trim`: `s` without leading and trailing whitespace.
pub fn trim_str(s: &str) -> (res: String)
    ensures
        res@ == trim(s@),
        is_trimmed(res@),
{
    let cs = chars_of(s);
    let t = trim_chars(cs.as_slice());
    string_of(t.as_slice())
}

/// Whether `s` is empty or all whitespace (`s.trim().is_empty()`).
pub fn is_blank_str(s: &str) -> (res: bool)
    ensures
        res == is_blank(s@),
{
    let cs = chars_of(s);
    let t = trim_chars(cs.as_slice());
    t.len() == 0
}

// ── Splitting on a separator character ─────────────────────────────

/// The pieces of `s` finished so far and the piece being built, when `s`
/// is cut at every `sep`.
pub open spec fn split_state(s: Seq<char>, sep: char) -> (Seq<Seq<char>>, Seq<char>)
    decreases s.len(),
{
    if s.len() == 0 {
        (Seq::empty(), Seq::empty())
    } else {
        let (done, cur) = split_state(s.drop_last(), sep);
        if s.last() == sep {
            (done.push(cur), Seq::empty())
        } else {
            (done, cur.push(s.last()))
        }
    }
}

/// `str::split` with a character separator: the pieces between the
/// separators, empty ones included; an empty text gives one empty piece.
pub open spec fn split_on(s: Seq<char>, sep: char) -> Seq<Seq<char>> {
    split_state(s, sep).0.push(split_state(s, sep).1)
}

/// The view of a vector of character vectors.
pub open spec fn views(v: Seq<Vec<char>>) -> Seq<Seq<char>> {
    v.map_values(|x: Vec<char>| x@)
}

/// No piece of a split holds the separator.
pub proof fn lemma_split_pieces_lack_sep(s: Seq<char>, sep: char)
    ensures
        forall|k: int|
            0 <= k < split_on(s, sep).len() ==> !has_char(#[trigger] split_on(s, sep)[k], sep),
    decreases s.len(),
{
    lemma_split_state_lacks_sep(s, sep);
    let (done, cur) = split_state(s, sep);
    assert forall|k: int| 0 <= k < split_on(s, sep).len() implies !has_char(
        #[trigger] split_on(s, sep)[k],
        sep,
    ) by {
        if k < done.len() {
            assert(split_on(s, sep)[k] == done[k]);
        } else {
            assert(split_on(s, sep)[k] == cur);
        }
    }
}

proof fn lemma_split_state_lacks_sep(s: Seq<char>, sep: char)
    ensures
        forall|k: int|
            0 <= k < split_state(s, sep).0.len() ==> !has_char(
                #[trigger] split_state(s, sep).0[k],
                sep,
            ),
        !has_char(split_state(s, sep).1, sep),
    decreases s.len(),
{
    if s.len() > 0 {
        lemma_split_state_lacks_sep(s.drop_last(), sep);
        let (done, cur) = split_state(s.drop_last(), sep);
        if s.last() == sep {
            assert forall|k: int| 0 <= k < done.push(cur).len() implies !has_char(
                #[trigger] done.push(cur)[k],
                sep,
            ) by {
                if k < done.len() {
                    assert(done.push(cur)[k] == done[k]);
                }
            }
        } else {
            let c2 = cur.push(s.last());
            assert(!has_char(c2, sep)) by {
                if has_char(c2, sep) {
                    let k = choose|k: int| 0 <= k < c2.len() && c2[k] == sep;
                    if k < cur.len() {
                        assert(c2[k] == cur[k]);
                    }
                }
            }
        }
    }
}

/// `str::split(sep)` on a character vector.
pub fn split_chars(s: &[char], sep: char) -> (res: Vec<Vec<char>>)
    ensures
        views(res@) == split_on(s@, sep),
{
    let n = s.len();
    let mut done: Vec<Vec<char>> = Vec::new();
    let mut cur: Vec<char> = Vec::new();
    let mut i: usize = 0;
    while i < n
        invariant
            n == s@.len(),
            i <= n,
            (views(done@), cur@) == split_state(s@.take(i as int), sep),
        decreases n - i,
    {
        let c = s[i];
        assert(s@.take(i + 1).drop_last() =~= s@.take(i as int));
        if c == sep {
            let finished = cur;
            done.push(finished);
            cur = Vec::new();
            assert(views(done@) =~= split_state(s@.take(i as int), sep).0.push(finished@));
        } else {
            cur.push(c);
        }
        i += 1;
    }
    assert(s@.take(n as int) =~= s@);
    let last = cur;
    done.push(last);
    assert(views(done@) =~= split_on(s@, sep));
    done
}

// ── Lines ──────────────────────────────────────────────────────────

/// A line without its trailing carriage return, if it has one.
pub open spec fn strip_cr(l: Seq<char>) -> Seq<char> {
    if l.len() > 0 && l.last() == '\r' {
        l.drop_last()
    } else {
        l
    }
}

/// The lines finished so far and the line being built.
pub open spec fn lines_state(s: Seq<char>) -> (Seq<Seq<char>>, Seq<char>)
    decreases s.len(),
{
    if s.len() == 0 {
        (Seq::empty(), Seq::empty())
    } else {
        let (done, cur) = lines_state(s.drop_last());
        if s.last() == '\n' {
            (done.push(strip_cr(cur)), Seq::empty())
        } else {
            (done, cur.push(s.last()))
        }
    }
}

/// `str::lines`: the text cut at each line feed, a carriage return before
/// the line feed dropped, and no empty final line after a trailing line
/// feed; an empty text has no lines.
pub open spec fn lines(s: Seq<char>) -> Seq<Seq<char>> {
    if lines_state(s).1.len() == 0 {
        lines_state(s).0
    } else {
        lines_state(s).0.push(lines_state(s).1)
    }
}

/// `str::lines` on a character vector.
pub fn lines_of(s: &[char]) -> (res: Vec<Vec<char>>)
    ensures
        views(res@) == lines(s@),
{
    let n = s.len();
    let mut done: Vec<Vec<char>> = Vec::new();
    let mut cur: Vec<char> = Vec::new();
    let mut i: usize = 0;
    while i < n
        invariant
            n == s@.len(),
            i <= n,
            (views(done@), cur@) == lines_state(s@.take(i as int)),
        decreases n - i,
    {
        let c = s[i];
        assert(s@.take(i + 1).drop_last() =~= s@.take(i as int));
        if c == '\n' {
            let mut finished = cur;
            let m = finished.len();
            if m > 0 && finished[m - 1] == '\r' {
                finished.pop();
            }
            assert(finished@ == strip_cr(lines_state(s@.take(i as int)).1));
            done.push(finished);
            cur = Vec::new();
            assert(views(done@) =~= lines_state(s@.take(i as int)).0.push(finished@));
        } else {
            cur.push(c);
        }
        i += 1;
    }
    assert(s@.take(n as int) =~= s@);
    if cur.len() > 0 {
        let last = cur;
        done.push(last);
        assert(views(done@) =~= lines(s@));
    }
    done
}

// ── Searching ──────────────────────────────────────────────────────

/// Whether `c` occurs in `s`.
pub open spec fn has_char(s: Seq<char>, c: char) -> bool {
    exists|k: int| 0 <= k < s.len() && s[k] == c
}

/// The position of the first `c` in `s`, if there is one.
pub open spec fn first_index(s: Seq<char>, c: char) -> Option<int>
    decreases s.len(),
{
    if s.len() == 0 {
        None
    } else if s[0] == c {
        Some(0)
    } else {
        match first_index(s.drop_first(), c) {
            Some(k) => Some(k + 1),
            None => None,
        }
    }
}

pub proof fn lemma_first_index(s: Seq<char>, c: char, i: int)
    requires
        0 <= i <= s.len(),
        forall|k: int| 0 <= k < i ==> #[trigger] s[k] != c,
        i < s.len() ==> s[i] == c,
    ensures
        first_index(s, c) == (if i < s.len() { Some(i) } else { None::<int> }),
    decreases i,
{
    if i > 0 {
        let t = s.drop_first();
        assert forall|k: int| 0 <= k < i - 1 implies #[trigger] t[k] != c by {
            assert(t[k] == s[k + 1]);
        }
        if i < s.len() {
            assert(t[i - 1] == s[i]);
        }
        lemma_first_index(t, c, i - 1);
    }
}

/// The position of the first `c` in `s`.
pub fn find_char(s: &[char], c: char) -> (res: Option<usize>)
    ensures
        match res {
            Some(k) => first_index(s@, c) == Some(k as int),
            None => first_index(s@, c) == None::<int>,
        },
        res is None <==> !has_char(s@, c),
        res matches Some(k) ==> k < s@.len() && s@[k as int] == c,
{
    let n = s.len();
    let mut i: usize = 0;
    while i < n && s[i] != c
        invariant
            n == s@.len(),
            i <= n,
            forall|k: int| 0 <= k < i ==> #[trigger] s@[k] != c,
        decreases n - i,
    {
        i += 1;
    }
    proof {
        lemma_first_index(s@, c, i as int);
    }
    if i < n {
        Some(i)
    } else {
        None
    }
}

/// The characters of `s` from `lo` up to `hi`.
pub fn slice_chars(s: &[char], lo: usize, hi: usize) -> (res: Vec<char>)
    requires
        lo <= hi <= s@.len(),
    ensures
        res@ == s@.subrange(lo as int, hi as int),
{
    let mut res: Vec<char> = Vec::new();
    let mut k: usize = lo;
    while k < hi
        invariant
            lo <= k <= hi <= s@.len(),
            res@ == s@.subrange(lo as int, k as int),
        decreases hi - k,
    {
        res.push(s[k]);
        assert(s@.subrange(lo as int, k + 1) =~= s@.subrange(lo as int, k as int).push(s@[k as int]));
        k += 1;
    }
    res
}

} // verus!

verus! {

// ── Facts about splitting and trimming ─────────────────────────────

/// A text without the separator is a single piece.
pub proof fn lemma_split_without_sep(t: Seq<char>, sep: char)
    requires
        !has_char(t, sep),
    ensures
        split_state(t, sep) == (Seq::<Seq<char>>::empty(), t),
        split_on(t, sep) == seq![t],
    decreases t.len(),
{
    if t.len() > 0 {
        assert(!has_char(t.drop_last(), sep)) by {
            if has_char(t.drop_last(), sep) {
                let k = choose|k: int| 0 <= k < t.drop_last().len() && t.drop_last()[k] == sep;
                assert(t[k] == sep);
            }
        }
        lemma_split_without_sep(t.drop_last(), sep);
        assert(t.last() != sep) by {
            assert(t[t.len() - 1] == t.last());
        }
        assert(t.drop_last().push(t.last()) =~= t);
    } else {
        assert(t =~= Seq::<char>::empty());
    }
    assert(split_on(t, sep) =~= seq![t]);
}

/// Splitting `a`, a separator and `b` splits `a` and `b` apart.
pub proof fn lemma_split_concat(a: Seq<char>, b: Seq<char>, sep: char)
    ensures
        split_state(a + seq![sep] + b, sep) == (
            split_on(a, sep) + split_state(b, sep).0,
            split_state(b, sep).1,
        ),
        split_on(a + seq![sep] + b, sep) == split_on(a, sep) + split_on(b, sep),
    decreases b.len(),
{
    let s = a + seq![sep] + b;
    if b.len() == 0 {
        assert(s =~= a.push(sep));
        assert(s.drop_last() =~= a);
        assert(split_on(a, sep) + Seq::<Seq<char>>::empty() =~= split_on(a, sep));
    } else {
        lemma_split_concat(a, b.drop_last(), sep);
        assert(s.drop_last() =~= a + seq![sep] + b.drop_last());
        assert(s.last() == b.last());
        let (d, c) = split_state(b.drop_last(), sep);
        if b.last() == sep {
            assert(split_on(a, sep) + d.push(c) =~= (split_on(a, sep) + d).push(c));
        }
    }
    assert(split_on(s, sep) =~= split_on(a, sep) + split_on(b, sep));
}

/// A trimmed text is its own trim.
pub proof fn lemma_trim_trimmed(s: Seq<char>)
    requires
        is_trimmed(s),
    ensures
        trim(s) == s,
{
    if s.len() > 0 {
        assert(trim_start(s) == s);
        assert(trim_end(s) == s);
    }
}

/// Leading whitespace does not survive a trim.
pub proof fn lemma_trim_leading_space(t: Seq<char>)
    requires
        is_trimmed(t),
        t.len() > 0,
    ensures
        trim(seq![' '] + t) == t,
{
    let s = seq![' '] + t;
    assert(unicode_whitespace(' '));
    assert(s.drop_first() =~= t);
    assert(trim_start(t) == t);
    assert(trim_start(s) == t);
    lemma_trim_trimmed(t);
}

} // verus!

verus! {

// ── Facts about lines ──────────────────────────────────────────────

/// A text without line feeds is one unfinished line.
pub proof fn lemma_lines_state_no_newline(l: Seq<char>)
    requires
        !has_char(l, '\n'),
    ensures
        lines_state(l) == (Seq::<Seq<char>>::empty(), l),
    decreases l.len(),
{
    if l.len() > 0 {
        assert(!has_char(l.drop_last(), '\n')) by {
            if has_char(l.drop_last(), '\n') {
                let k = choose|k: int| 0 <= k < l.drop_last().len() && l.drop_last()[k] == '\n';
                assert(l[k] == '\n');
            }
        }
        lemma_lines_state_no_newline(l.drop_last());
        assert(l.last() == l[l.len() - 1]);
        assert(l.drop_last().push(l.last()) =~= l);
    } else {
        assert(l =~= Seq::<char>::empty());
    }
}

/// Lines of a text that ends a line are not disturbed by what follows.
pub proof fn lemma_lines_state_concat(a: Seq<char>, b: Seq<char>)
    requires
        lines_state(a).1.len() == 0,
    ensures
        lines_state(a + b) == (lines_state(a).0 + lines_state(b).0, lines_state(b).1),
    decreases b.len(),
{
    if b.len() == 0 {
        assert(a + b =~= a);
        assert(lines_state(a).0 + Seq::<Seq<char>>::empty() =~= lines_state(a).0);
        assert(lines_state(a).1 =~= Seq::<char>::empty());
    } else {
        lemma_lines_state_concat(a, b.drop_last());
        assert((a + b).drop_last() =~= a + b.drop_last());
        assert((a + b).last() == b.last());
        let (d, c) = lines_state(b.drop_last());
        if b.last() == '\n' {
            assert(lines_state(a).0 + d.push(strip_cr(c)) =~= (lines_state(a).0 + d).push(
                strip_cr(c),
            ));
        }
    }
}

/// One line ended by a line feed, without carriage return at its end.
pub proof fn lemma_lines_state_one_line(l: Seq<char>)
    requires
        !has_char(l, '\n'),
        l.len() > 0 ==> l.last() != '\r',
    ensures
        lines_state(l.push('\n')) == (seq![l], Seq::<char>::empty()),
{
    lemma_lines_state_no_newline(l);
    assert(l.push('\n').drop_last() =~= l);
    assert(strip_cr(l) == l);
    assert(Seq::<Seq<char>>::empty().push(l) =~= seq![l]);
}

} // verus!

verus! {

// ── Words ──────────────────────────────────────────────────────────

/// The words found so far and the word being read, when `s` is cut at
/// runs of whitespace.
pub open spec fn words_state(s: Seq<char>) -> (Seq<Seq<char>>, Seq<char>)
    decreases s.len(),
{
    if s.len() == 0 {
        (Seq::empty(), Seq::empty())
    } else {
        let (done, cur) = words_state(s.drop_last());
        if unicode_whitespace(s.last()) {
            if cur.len() > 0 {
                (done.push(cur), Seq::empty())
            } else {
                (done, cur)
            }
        } else {
            (done, cur.push(s.last()))
        }
    }
}

/// `str::split_whitespace`: the non-empty runs of non-whitespace
/// characters, in order.
pub open spec fn words(s: Seq<char>) -> Seq<Seq<char>> {
    if words_state(s).1.len() > 0 {
        words_state(s).0.push(words_state(s).1)
    } else {
        words_state(s).0
    }
}

/// `str::split_whitespace` on a character vector.
pub fn words_of(s: &[char]) -> (res: Vec<Vec<char>>)
    ensures
        views(res@) == words(s@),
{
    let n = s.len();
    let mut done: Vec<Vec<char>> = Vec::new();
    let mut cur: Vec<char> = Vec::new();
    let mut i: usize = 0;
    while i < n
        invariant
            n == s@.len(),
            i <= n,
            (views(done@), cur@) == words_state(s@.take(i as int)),
        decreases n - i,
    {
        let c = s[i];
        assert(s@.take(i + 1).drop_last() =~= s@.take(i as int));
        if is_whitespace(c) {
            if cur.len() > 0 {
                let finished = cur;
                done.push(finished);
                cur = Vec::new();
                assert(views(done@) =~= words_state(s@.take(i as int)).0.push(finished@));
            }
        } else {
            cur.push(c);
        }
        i += 1;
    }
    assert(s@.take(n as int) =~= s@);
    if cur.len() > 0 {
        let last = cur;
        done.push(last);
        assert(views(done@) =~= words(s@));
    }
    done
}

/// Every character of a text that is not whitespace lies in one of its
/// words.
pub proof fn lemma_words_cover(s: Seq<char>, c: char)
    requires
        s.contains(c),
        !unicode_whitespace(c),
    ensures
        exists|k: int| 0 <= k < words(s).len() && (#[trigger] words(s)[k]).contains(c),
{
    lemma_words_state_cover(s, c);
    let (d, cur) = words_state(s);
    if cur.contains(c) {
        assert(words(s)[d.len() as int] == cur);
    } else {
        let k = choose|k: int| 0 <= k < d.len() && (#[trigger] d[k]).contains(c);
        assert(words(s)[k] == d[k]);
    }
}

proof fn lemma_words_state_cover(s: Seq<char>, c: char)
    requires
        s.contains(c),
        !unicode_whitespace(c),
    ensures
        words_state(s).1.contains(c) || exists|k: int|
            0 <= k < words_state(s).0.len() && (#[trigger] words_state(s).0[k]).contains(c),
    decreases s.len(),
{
    let init = s.drop_last();
    let (d, cur) = words_state(init);
    let l = s.last();
    if l == c {
        assert(words_state(s).1 == cur.push(l));
        assert(cur.push(l)[cur.len() as int] == c);
    } else {
        let i = choose|i: int| 0 <= i < s.len() && s[i] == c;
        assert(i < s.len() - 1);
        assert(init[i] == c);
        lemma_words_state_cover(init, c);
        if unicode_whitespace(l) {
            if cur.len() > 0 {
                let nd = d.push(cur);
                assert(words_state(s).0 == nd);
                if cur.contains(c) {
                    assert(nd[d.len() as int] == cur);
                } else {
                    let k = choose|k: int| 0 <= k < d.len() && (#[trigger] d[k]).contains(c);
                    assert(nd[k] == d[k]);
                }
            } else {
                assert(!cur.contains(c));
            }
        } else {
            if cur.contains(c) {
                let j = choose|j: int| 0 <= j < cur.len() && cur[j] == c;
                assert(cur.push(l)[j] == c);
            }
        }
    }
}

/// Every word is made of characters of the text.
pub proof fn lemma_words_chars(s: Seq<char>)
    ensures
        forall|k: int, j: int|
            0 <= k < words(s).len() && 0 <= j < words(s)[k].len() ==> s.contains(
                #[trigger] words(s)[k][j],
            ),
{
    lemma_words_state_chars(s);
    let (d, c) = words_state(s);
    assert forall|k: int, j: int|
        0 <= k < words(s).len() && 0 <= j < words(s)[k].len() implies s.contains(
        #[trigger] words(s)[k][j],
    ) by {
        if k < d.len() {
            assert(words(s)[k] == d[k]);
        } else {
            assert(words(s)[k] == c);
        }
    }
}

proof fn lemma_words_state_chars(s: Seq<char>)
    ensures
        forall|k: int, j: int|
            0 <= k < words_state(s).0.len() && 0 <= j < words_state(s).0[k].len() ==> s.contains(
                #[trigger] words_state(s).0[k][j],
            ),
        forall|j: int| 0 <= j < words_state(s).1.len() ==> s.contains(#[trigger] words_state(s).1[j]),
    decreases s.len(),
{
    if s.len() > 0 {
        let p = s.drop_last();
        lemma_words_state_chars(p);
        let (d, c) = words_state(p);
        assert forall|x: char| p.contains(x) implies s.contains(x) by {
            let k = choose|k: int| 0 <= k < p.len() && p[k] == x;
            assert(s[k] == x);
        }
        assert(s.contains(s.last())) by {
            assert(s[s.len() - 1] == s.last());
        }
        if unicode_whitespace(s.last()) {
            if c.len() > 0 {
                assert forall|k: int, j: int|
                    0 <= k < d.push(c).len() && 0 <= j < d.push(c)[k].len() implies s.contains(
                    #[trigger] d.push(c)[k][j],
                ) by {
                    if k < d.len() {
                        assert(d.push(c)[k] == d[k]);
                        assert(p.contains(d[k][j]));
                    } else {
                        assert(p.contains(c[j]));
                    }
                }
            }
        } else {
            assert forall|j: int| 0 <= j < c.push(s.last()).len() implies s.contains(
                #[trigger] c.push(s.last())[j],
            ) by {
                if j < c.len() {
                    assert(c.push(s.last())[j] == c[j]);
                    assert(p.contains(c[j]));
                }
            }
            assert forall|k: int, j: int|
                0 <= k < d.len() && 0 <= j < d[k].len() implies s.contains(#[trigger] d[k][j]) by {
                assert(p.contains(d[k][j]));
            }
        }
    }
}

} // verus!
