//! Character-level string operations with exact specifications.
//!
//! Every executable function here works on the `Seq<char>` view of its
//! arguments and states its result as a spec function over that view.
use vstd::prelude::*;

verus! {

// ───────────────────────────── character classes ─────────────────────────────

/// Unicode `White_Space`: the characters for which `char::is_whitespace` holds.
pub open spec fn is_ws(c: char) -> bool {
    ||| c == '\t'
    ||| c == '\n'
    ||| c == '\u{0B}'
    ||| c == '\u{0C}'
    ||| c == '\r'
    ||| c == ' '
    ||| c == '\u{85}'
    ||| c == '\u{A0}'
    ||| c == '\u{1680}'
    ||| ('\u{2000}' <= c && c <= '\u{200A}')
    ||| c == '\u{2028}'
    ||| c == '\u{2029}'
    ||| c == '\u{202F}'
    ||| c == '\u{205F}'
    ||| c == '\u{3000}'
}

/// The decoration that tool output wraps around a value: quotes, brackets and
/// white space.
pub open spec fn is_decoration(c: char) -> bool {
    c == '\'' || c == '[' || c == ']' || c == '"' || is_ws(c)
}

/// Which characters a trim removes.
#[derive(Clone, Copy, PartialEq, Eq, Structural)]
pub enum CharClass {
    Whitespace,
    Decoration,
    /// The NUL character.
    Nul,
}

pub open spec fn in_class(cls: CharClass, c: char) -> bool {
    match cls {
        CharClass::Whitespace => is_ws(c),
        CharClass::Decoration => is_decoration(c),
        CharClass::Nul => c == '\0',
    }
}

/// Whether `c` is white space, as `char::is_whitespace` decides it.
pub fn char_is_ws(c: char) -> (b: bool)
    ensures
        b == is_ws(c),
{
    c == '\t' || c == '\n' || c == '\u{0B}' || c == '\u{0C}' || c == '\r' || c == ' ' || c
        == '\u{85}' || c == '\u{A0}' || c == '\u{1680}' || ('\u{2000}' <= c && c <= '\u{200A}')
        || c == '\u{2028}' || c == '\u{2029}' || c == '\u{202F}' || c == '\u{205F}' || c
        == '\u{3000}'
}

fn char_in_class(cls: CharClass, c: char) -> (b: bool)
    ensures
        b == in_class(cls, c),
{
    match cls {
        CharClass::Whitespace => char_is_ws(c),
        CharClass::Decoration => c == '\'' || c == '[' || c == ']' || c == '"' || char_is_ws(c),
        CharClass::Nul => c == '\0',
    }
}

// ───────────────────────────── trimming ─────────────────────────────

/// `s` without its leading characters of class `cls`.
pub open spec fn strip_lead(cls: CharClass, s: Seq<char>) -> Seq<char>
    decreases s.len(),
{
    if s.len() > 0 && in_class(cls, s[0]) {
        strip_lead(cls, s.drop_first())
    } else {
        s
    }
}

/// `s` without its trailing characters of class `cls`.
pub open spec fn strip_trail(cls: CharClass, s: Seq<char>) -> Seq<char>
    decreases s.len(),
{
    if s.len() > 0 && in_class(cls, s.last()) {
        strip_trail(cls, s.drop_last())
    } else {
        s
    }
}

/// `s` without the characters of class `cls` at either end.
pub open spec fn trim_class(cls: CharClass, s: Seq<char>) -> Seq<char> {
    strip_trail(cls, strip_lead(cls, s))
}

/// `str::trim`.
pub open spec fn trim(s: Seq<char>) -> Seq<char> {
    trim_class(CharClass::Whitespace, s)
}

/// What tool output reads as once its decoration is gone: no quote, bracket or
/// white space is left at either end.
pub open spec fn clean(s: Seq<char>) -> Seq<char> {
    trim_class(CharClass::Decoration, s)
}

/// `strip_lead` drops a prefix, and what remains does not start with the class.
pub proof fn lemma_strip_lead_shape(cls: CharClass, s: Seq<char>)
    ensures
        exists|k: int| 0 <= k <= s.len() && strip_lead(cls, s) == s.skip(k),
        strip_lead(cls, s).len() > 0 ==> !in_class(cls, strip_lead(cls, s)[0]),
    decreases s.len(),
{
    if s.len() > 0 && in_class(cls, s[0]) {
        lemma_strip_lead_shape(cls, s.drop_first());
        let k = choose|k: int| 0 <= k <= s.drop_first().len() && strip_lead(cls, s.drop_first()) == s.drop_first().skip(k);
        assert(s.drop_first().skip(k) =~= s.skip(k + 1));
    } else {
        assert(s.skip(0) =~= s);
    }
}

/// `strip_trail` drops a suffix, and what remains does not end with the class.
pub proof fn lemma_strip_trail_shape(cls: CharClass, s: Seq<char>)
    ensures
        exists|k: int| 0 <= k <= s.len() && strip_trail(cls, s) == s.take(k),
        strip_trail(cls, s).len() > 0 ==> !in_class(cls, strip_trail(cls, s).last()),
    decreases s.len(),
{
    if s.len() > 0 && in_class(cls, s.last()) {
        lemma_strip_trail_shape(cls, s.drop_last());
        let k = choose|k: int| 0 <= k <= s.drop_last().len() && strip_trail(cls, s.drop_last()) == s.drop_last().take(k);
        assert(s.drop_last().take(k) =~= s.take(k));
    } else {
        assert(s.take(s.len() as int) =~= s);
    }
}

/// A text that trimming leaves alone neither starts nor ends with the class.
pub proof fn lemma_trim_fixed(cls: CharClass, s: Seq<char>)
    requires
        trim_class(cls, s) == s,
    ensures
        strip_lead(cls, s) == s,
        strip_trail(cls, s) == s,
        s.len() > 0 ==> !in_class(cls, s[0]) && !in_class(cls, s.last()),
{
    lemma_strip_lead_shape(cls, s);
    let a = strip_lead(cls, s);
    lemma_strip_trail_shape(cls, a);
    let k = choose|k: int| 0 <= k <= s.len() && a == s.skip(k);
    let j = choose|j: int| 0 <= j <= a.len() && strip_trail(cls, a) == a.take(j);
    assert(a.len() == s.len());
    assert(a =~= s);
    lemma_strip_trail_shape(cls, s);
}

/// A clean text is left alone by both trims, and neither starts nor ends with
/// decoration or white space.
pub proof fn lemma_clean_fixed(s: Seq<char>)
    requires
        clean(s) == s,
    ensures
        trim_class(CharClass::Decoration, s) == s,
        trim(s) == s,
        s.len() > 0 ==> !is_decoration(s[0]) && !is_decoration(s.last()),
        s.len() > 0 ==> !is_ws(s[0]) && !is_ws(s.last()),
{
    lemma_trim_fixed(CharClass::Decoration, s);
    assert(strip_lead(CharClass::Whitespace, s) == s);
    assert(strip_trail(CharClass::Whitespace, s) == s);
}

/// Cleaning twice is cleaning once: a clean text has no decoration at either end.
pub proof fn law_clean_idempotent(s: Seq<char>)
    ensures
        clean(clean(s)) == clean(s),
{
    let a = strip_lead(CharClass::Decoration, s);
    lemma_strip_lead_shape(CharClass::Decoration, s);
    lemma_strip_trail_shape(CharClass::Decoration, a);
    let t = strip_trail(CharClass::Decoration, a);
    if t.len() > 0 {
        let k = choose|k: int| 0 <= k <= a.len() && t == a.take(k);
        assert(t[0] == a[0]);
        assert(strip_lead(CharClass::Decoration, t) == t);
        assert(strip_trail(CharClass::Decoration, t) == t);
    }
}

/// A clean text wrapped in quotes and ended by a newline, as a tool prints a string,
/// cleans back to itself.
pub proof fn lemma_clean_quoted(s: Seq<char>)
    requires
        clean(s) == s,
        s.len() > 0,
    ensures
        clean(seq!['\''] + s + seq!['\'', '\n']) == s,
{
    lemma_clean_fixed(s);
    let q = seq!['\''] + s + seq!['\'', '\n'];
    assert(q.drop_first() =~= s + seq!['\'', '\n']);
    let r = s + seq!['\'', '\n'];
    assert(r[0] == s[0]);
    assert(strip_lead(CharClass::Decoration, r) == r);
    assert(strip_lead(CharClass::Decoration, q) == r);
    assert(r.drop_last() =~= s + seq!['\'']);
    assert((s + seq!['\'']).drop_last() =~= s);
    assert(strip_trail(CharClass::Decoration, s + seq!['\'']) == strip_trail(CharClass::Decoration, s));
    assert(strip_trail(CharClass::Decoration, r) == s);
}

/// A clean text ended by a newline, as a tool prints a number or a flag, cleans back
/// to itself.
pub proof fn lemma_clean_line(s: Seq<char>)
    requires
        clean(s) == s,
        s.len() > 0,
    ensures
        clean(s + seq!['\n']) == s,
{
    lemma_clean_fixed(s);
    let r = s + seq!['\n'];
    assert(r[0] == s[0]);
    assert(strip_lead(CharClass::Decoration, r) == r);
    assert(r.drop_last() =~= s);
    assert(strip_trail(CharClass::Decoration, r) == s);
}

/// A text that neither starts nor ends with decoration or white space is clean.
pub proof fn lemma_clean_plain(s: Seq<char>)
    requires
        s.len() > 0,
        !is_decoration(s[0]),
        !is_decoration(s.last()),
        !is_ws(s[0]),
        !is_ws(s.last()),
    ensures
        clean(s) == s,
{
    assert(strip_lead(CharClass::Decoration, s) == s);
    assert(strip_trail(CharClass::Decoration, s) == s);
}

/// Two quotes and a newline, as a tool prints an empty string, clean to nothing.
pub proof fn lemma_clean_empty_quoted()
    ensures
        clean(seq!['\'', '\'', '\n']) == Seq::<char>::empty(),
{
    let q = seq!['\'', '\'', '\n'];
    assert(q.drop_first() =~= seq!['\'', '\n']);
    assert(seq!['\'', '\n'].drop_first() =~= seq!['\n']);
    assert(seq!['\n'].drop_first() =~= Seq::<char>::empty());
    reveal_with_fuel(strip_lead, 4);
    assert(strip_lead(CharClass::Decoration, q) == Seq::<char>::empty());
}

// ───────────────────────────── building strings ─────────────────────────────

/// Appends one character to a string (`String::push`).
#[verifier::external_body]
fn push_char(s: &mut String, c: char)
    ensures
        final(s)@ == old(s)@.push(c),
{
    s.push(c);
}

/// The string made of `v[from..to]`.
pub fn string_of_range(v: &Vec<char>, from: usize, to: usize) -> (s: String)
    requires
        from <= to <= v.len(),
    ensures
        s@ == v@.subrange(from as int, to as int),
{
    let mut s = String::new();
    let mut i = from;
    while i < to
        invariant
            from <= i <= to <= v.len(),
            s@ == v@.subrange(from as int, i as int),
        decreases to - i,
    {
        push_char(&mut s, v[i]);
        assert(v@.subrange(from as int, i + 1) =~= v@.subrange(from as int, i as int).push(v@[i as int]));
        i = i + 1;
    }
    s
}

/// The string made of the characters of `v`.
pub fn string_of(v: &Vec<char>) -> (s: String)
    ensures
        s@ == v@,
{
    let s = string_of_range(v, 0, v.len());
    assert(v@.subrange(0, v@.len() as int) =~= v@);
    s
}

/// A copy of `s` as an owned string.
pub fn to_string(s: &str) -> (r: String)
    ensures
        r@ == s@,
{
    let v = chars_of(s);
    string_of(&v)
}

/// `a` followed by `b`.
pub fn str_concat(a: &str, b: &str) -> (r: String)
    ensures
        r@ == a@ + b@,
{
    let mut r = to_string(a);
    let w = chars_of(b);
    let mut i: usize = 0;
    while i < w.len()
        invariant
            i <= w.len(),
            w@ == b@,
            r@ == a@ + w@.subrange(0, i as int),
        decreases w.len() - i,
    {
        push_char(&mut r, w[i]);
        assert(w@.subrange(0, i + 1) =~= w@.subrange(0, i as int).push(w@[i as int]));
        i = i + 1;
    }
    assert(w@.subrange(0, w@.len() as int) =~= w@);
    r
}

/// The characters of `s`, in order.
pub fn chars_of(s: &str) -> (v: Vec<char>)
    ensures
        v@ == s@,
{
    let mut v: Vec<char> = Vec::new();
    for c in it: s.chars()
        invariant
            v@ == it.seq().take(it.index() as int),
            it.seq() == s@,
    {
        v.push(c);
    }
    v
}

/// Whether `a` and `b` hold the same characters.
pub fn str_eq(a: &str, b: &str) -> (r: bool)
    ensures
        r == (a@ == b@),
{
    let x = chars_of(a);
    let y = chars_of(b);
    if x.len() != y.len() {
        return false;
    }
    let mut i: usize = 0;
    while i < x.len()
        invariant
            x@ == a@,
            y@ == b@,
            x.len() == y.len(),
            i <= x.len(),
            forall|k: int| 0 <= k < i ==> x@[k] == y@[k],
        decreases x.len() - i,
    {
        if x[i] != y[i] {
            return false;
        }
        i = i + 1;
    }
    assert(x@ =~= y@);
    true
}

// ───────────────────────────── trimming, executable ─────────────────────────────

proof fn lemma_strip_lead_step(cls: CharClass, s: Seq<char>, i: int)
    requires
        0 <= i < s.len(),
        in_class(cls, s[i]),
    ensures
        strip_lead(cls, s.subrange(i, s.len() as int)) == strip_lead(
            cls,
            s.subrange(i + 1, s.len() as int),
        ),
{
    assert(s.subrange(i, s.len() as int).drop_first() =~= s.subrange(i + 1, s.len() as int));
}

proof fn lemma_strip_trail_step(cls: CharClass, s: Seq<char>, j: int)
    requires
        0 < j <= s.len(),
        in_class(cls, s[j - 1]),
    ensures
        strip_trail(cls, s.subrange(0, j)) == strip_trail(cls, s.subrange(0, j - 1)),
{
    assert(s.subrange(0, j).drop_last() =~= s.subrange(0, j - 1));
}

/// The bounds `(i, j)` such that `v[i..j]` is `v` trimmed of class `cls`.
fn trim_bounds(cls: CharClass, v: &Vec<char>) -> (r: (usize, usize))
    ensures
        r.0 <= r.1 <= v.len(),
        v@.subrange(r.0 as int, r.1 as int) == trim_class(cls, v@),
{
    let n = v.len();
    let mut i: usize = 0;
    assert(v@.subrange(0, n as int) =~= v@);
    while i < n && char_in_class(cls, v[i])
        invariant
            i <= n == v.len(),
            strip_lead(cls, v@) == strip_lead(cls, v@.subrange(i as int, n as int)),
        decreases n - i,
    {
        proof {
            lemma_strip_lead_step(cls, v@, i as int);
        }
        i = i + 1;
    }
    let ghost lead = v@.subrange(i as int, n as int);
    assert(strip_lead(cls, lead) == lead);
    let mut j: usize = n;
    assert(lead.subrange(0, (n - i) as int) =~= lead);
    while j > i && char_in_class(cls, v[j - 1])
        invariant
            i <= j <= n == v.len(),
            lead == v@.subrange(i as int, n as int),
            strip_trail(cls, lead) == strip_trail(cls, lead.subrange(0, (j - i) as int)),
        decreases j,
    {
        proof {
            lemma_strip_trail_step(cls, lead, (j - i) as int);
        }
        j = j - 1;
    }
    assert(lead.subrange(0, (j - i) as int) =~= v@.subrange(i as int, j as int));
    (i, j)
}

/// `s` without the characters of class `cls` at either end.
pub fn trim_chars(cls: CharClass, s: &str) -> (r: String)
    ensures
        r@ == trim_class(cls, s@),
{
    let v = chars_of(s);
    let (i, j) = trim_bounds(cls, &v);
    string_of_range(&v, i, j)
}

/// `s` without its trailing characters of class `cls`.
pub fn trim_end_chars(cls: CharClass, s: &str) -> (r: String)
    ensures
        r@ == strip_trail(cls, s@),
{
    let v = chars_of(s);
    let n = v.len();
    let mut j: usize = n;
    assert(v@.subrange(0, n as int) =~= v@);
    while j > 0 && char_in_class(cls, v[j - 1])
        invariant
            j <= n == v.len(),
            strip_trail(cls, v@) == strip_trail(cls, v@.subrange(0, j as int)),
        decreases j,
    {
        proof {
            lemma_strip_trail_step(cls, v@, j as int);
        }
        j = j - 1;
    }
    string_of_range(&v, 0, j)
}

/// `str::trim`: `s` without white space at either end.
pub fn trim_ws(s: &str) -> (r: String)
    ensures
        r@ == trim(s@),
{
    trim_chars(CharClass::Whitespace, s)
}


// ───────────────────────────── searching ─────────────────────────────

/// A test on one character.
#[derive(Clone, Copy, PartialEq, Eq, Structural)]
pub enum CharTest {
    /// The character is this one.
    Is(char),
    /// The character is one of these two.
    Either(char, char),
}

pub open spec fn passes(t: CharTest, c: char) -> bool {
    match t {
        CharTest::Is(a) => c == a,
        CharTest::Either(a, b) => c == a || c == b,
    }
}

fn char_passes(t: CharTest, c: char) -> (b: bool)
    ensures
        b == passes(t, c),
{
    match t {
        CharTest::Is(a) => c == a,
        CharTest::Either(a, b) => c == a || c == b,
    }
}

/// The first index at which a character of `s` passes `p`.
pub open spec fn first_index_where(s: Seq<char>, p: CharTest) -> Option<int>
    decreases s.len(),
{
    if s.len() == 0 {
        None
    } else if passes(p, s[0]) {
        Some(0)
    } else {
        match first_index_where(s.drop_first(), p) {
            Some(i) => Some(i + 1),
            None => None,
        }
    }
}

/// The first index of `c` in `s`.
pub open spec fn first_index(s: Seq<char>, c: char) -> Option<int> {
    first_index_where(s, CharTest::Is(c))
}

/// The last index of `c` in `s`.
pub open spec fn last_index(s: Seq<char>, c: char) -> Option<int>
    decreases s.len(),
{
    if s.len() == 0 {
        None
    } else if s.last() == c {
        Some(s.len() - 1)
    } else {
        last_index(s.drop_last(), c)
    }
}

/// What `first_index_where` is: the least index whose character satisfies `p`.
pub proof fn lemma_first_index_where(s: Seq<char>, p: CharTest)
    ensures
        first_index_where(s, p) matches Some(i) ==> 0 <= i < s.len() && passes(p, s[i]) && forall|
            k: int,
        |
            0 <= k < i ==> !passes(p, #[trigger] s[k]),
        first_index_where(s, p) is None ==> forall|k: int| 0 <= k < s.len() ==> !passes(p, #[trigger] s[k]),
    decreases s.len(),
{
    if s.len() > 0 && !passes(p, s[0]) {
        lemma_first_index_where(s.drop_first(), p);
        assert forall|k: int| 1 <= k < s.len() implies s[k] == s.drop_first()[k - 1] by {}
        if first_index_where(s, p) is None {
            assert forall|k: int| 0 <= k < s.len() implies !passes(p, #[trigger] s[k]) by {
                if k > 0 {
                    assert(s[k] == s.drop_first()[k - 1]);
                }
            }
        }
        if let Some(i) = first_index_where(s, p) {
            assert forall|k: int| 0 <= k < i implies !passes(p, #[trigger] s[k]) by {
                if k > 0 {
                    assert(s[k] == s.drop_first()[k - 1]);
                }
            }
        }
    }
}

/// `first_index_where` is pinned down by the least satisfying index.
pub proof fn lemma_first_index_where_is(s: Seq<char>, p: CharTest, i: int)
    requires
        0 <= i <= s.len(),
        forall|k: int| 0 <= k < i ==> !passes(p, #[trigger] s[k]),
        i < s.len() ==> passes(p, s[i]),
    ensures
        first_index_where(s, p) == (if i < s.len() { Some(i) } else { None::<int> }),
{
    lemma_first_index_where(s, p);
    match first_index_where(s, p) {
        Some(j) => {
            if j < i {
                assert(!passes(p, s[j]));
            } else if j > i {
                assert(!passes(p, s[i]));
            }
        },
        None => {
            if i < s.len() {
                assert(!passes(p, s[i]));
            }
        },
    }
}

/// What `last_index` is: the greatest index of `c`.
pub proof fn lemma_last_index(s: Seq<char>, c: char)
    ensures
        last_index(s, c) matches Some(i) ==> 0 <= i < s.len() && s[i] == c && forall|k: int|
            i < k < s.len() ==> #[trigger] s[k] != c,
        last_index(s, c) is None ==> forall|k: int| 0 <= k < s.len() ==> #[trigger] s[k] != c,
    decreases s.len(),
{
    if s.len() > 0 && s.last() != c {
        lemma_last_index(s.drop_last(), c);
        assert forall|k: int| 0 <= k < s.len() - 1 implies s[k] == s.drop_last()[k] by {}
    }
}

/// `last_index` is pinned down by an index of `c` with no `c` after it.
pub proof fn lemma_last_index_is(s: Seq<char>, c: char, i: int)
    requires
        0 <= i < s.len(),
        s[i] == c,
        forall|k: int| i < k < s.len() ==> #[trigger] s[k] != c,
    ensures
        last_index(s, c) == Some(i),
{
    lemma_last_index(s, c);
    match last_index(s, c) {
        Some(j) => {
            if j < i {
                assert(s[i] != c);
            } else if j > i {
                assert(s[j] != c);
            }
        },
        None => {
            assert(s[i] != c);
        },
    }
}

/// The first index in `s` of a character that passes `t`.
pub fn find_where(s: &Vec<char>, t: CharTest) -> (r: Option<usize>)
    ensures
        r matches Some(i) ==> first_index_where(s@, t) == Some(i as int),
        r is None ==> first_index_where(s@, t) is None,
{
    let mut i: usize = 0;
    while i < s.len()
        invariant
            i <= s.len(),
            forall|k: int| 0 <= k < i ==> !passes(t, #[trigger] s@[k]),
        decreases s.len() - i,
    {
        if char_passes(t, s[i]) {
            proof {
                lemma_first_index_where_is(s@, t, i as int);
            }
            return Some(i);
        }
        i = i + 1;
    }
    proof {
        lemma_first_index_where_is(s@, t, i as int);
    }
    None
}

/// The first index of `c` in `s` (`str::find` with a character).
pub fn find_char(s: &Vec<char>, c: char) -> (r: Option<usize>)
    ensures
        r matches Some(i) ==> first_index(s@, c) == Some(i as int),
        r is None ==> first_index(s@, c) is None,
{
    find_where(s, CharTest::Is(c))
}

/// The last index of `c` in `s` (`str::rfind` with a character).
pub fn rfind_char(s: &Vec<char>, c: char) -> (r: Option<usize>)
    ensures
        r matches Some(i) ==> last_index(s@, c) == Some(i as int),
        r is None ==> last_index(s@, c) is None,
{
    let mut j: usize = s.len();
    while j > 0
        invariant
            j <= s.len(),
            forall|k: int| j <= k < s.len() ==> #[trigger] s@[k] != c,
        decreases j,
    {
        if s[j - 1] == c {
            proof {
                lemma_last_index(s@, c);
                if let Some(i) = last_index(s@, c) {
                    if i < j - 1 {
                        assert(s@[j - 1] != c);
                    }
                } else {
                    assert(s@[j - 1] != c);
                }
            }
            return Some(j - 1);
        }
        j = j - 1;
    }
    proof {
        lemma_last_index(s@, c);
        if let Some(i) = last_index(s@, c) {
            assert(s@[i] != c);
        }
    }
    None
}


// ───────────────────────────── prefixes and substrings ─────────────────────────────

/// `s` begins with `p`.
pub open spec fn has_prefix(s: Seq<char>, p: Seq<char>) -> bool {
    p.len() <= s.len() && s.take(p.len() as int) == p
}

/// `p` occurs in `s` at index `i`.
pub open spec fn occurs_at(s: Seq<char>, p: Seq<char>, i: int) -> bool {
    0 <= i && i + p.len() <= s.len() && s.subrange(i, i + p.len()) == p
}

/// The first index at which `p` occurs in `s`.
pub open spec fn first_occurrence(s: Seq<char>, p: Seq<char>) -> Option<int>
    decreases s.len(),
{
    if has_prefix(s, p) {
        Some(0)
    } else if s.len() == 0 {
        None
    } else {
        match first_occurrence(s.drop_first(), p) {
            Some(i) => Some(i + 1),
            None => None,
        }
    }
}

/// `p` occurs somewhere in `s` (`str::contains`).
pub open spec fn contains(s: Seq<char>, p: Seq<char>) -> bool {
    first_occurrence(s, p) is Some
}

proof fn lemma_occurs_shift(s: Seq<char>, p: Seq<char>, k: int)
    requires
        s.len() > 0,
        0 <= k,
    ensures
        occurs_at(s.drop_first(), p, k) == occurs_at(s, p, k + 1),
{
    if k + p.len() <= s.len() - 1 {
        assert(s.drop_first().subrange(k, k + p.len()) =~= s.subrange(k + 1, k + 1 + p.len()));
    }
}

/// What `first_occurrence` is: the least index at which `p` occurs.
pub proof fn lemma_first_occurrence(s: Seq<char>, p: Seq<char>)
    ensures
        first_occurrence(s, p) matches Some(i) ==> occurs_at(s, p, i) && forall|k: int|
            0 <= k < i ==> !#[trigger] occurs_at(s, p, k),
        first_occurrence(s, p) is None ==> forall|k: int| !#[trigger] occurs_at(s, p, k),
    decreases s.len(),
{
    assert(has_prefix(s, p) == occurs_at(s, p, 0)) by {
        if p.len() <= s.len() {
            assert(s.take(p.len() as int) =~= s.subrange(0, p.len() as int));
        }
    }
    if !has_prefix(s, p) && s.len() > 0 {
        lemma_first_occurrence(s.drop_first(), p);
        assert forall|k: int| 0 < k implies #[trigger] occurs_at(s, p, k) == occurs_at(
            s.drop_first(),
            p,
            k - 1,
        ) by {
            lemma_occurs_shift(s, p, k - 1);
        }
    }
}

/// `first_occurrence` is pinned down by the least index at which `p` occurs.
pub proof fn lemma_first_occurrence_is(s: Seq<char>, p: Seq<char>, i: int)
    requires
        0 <= i,
        forall|k: int| 0 <= k < i ==> !#[trigger] occurs_at(s, p, k),
        i + p.len() <= s.len() ==> occurs_at(s, p, i),
    ensures
        first_occurrence(s, p) == (if i + p.len() <= s.len() { Some(i) } else { None::<int> }),
{
    lemma_first_occurrence(s, p);
    match first_occurrence(s, p) {
        Some(j) => {
            if j < i {
                assert(!occurs_at(s, p, j));
            } else if j > i && i + p.len() <= s.len() {
                assert(!occurs_at(s, p, i));
            }
        },
        None => {
            if i + p.len() <= s.len() {
                assert(!occurs_at(s, p, i));
            }
        },
    }
}

fn occurs_at_exec(s: &Vec<char>, p: &Vec<char>, i: usize) -> (b: bool)
    requires
        i + p.len() <= s.len(),
    ensures
        b == occurs_at(s@, p@, i as int),
{
    let mut k: usize = 0;
    while k < p.len()
        invariant
            k <= p.len(),
            i + p.len() <= s.len(),
            forall|j: int| 0 <= j < k ==> s@[i + j] == p@[j],
        decreases p.len() - k,
    {
        if s[i + k] != p[k] {
            assert(s@.subrange(i as int, i + p.len())[k as int] != p@[k as int]);
            return false;
        }
        k = k + 1;
    }
    assert(s@.subrange(i as int, i + p.len()) =~= p@);
    true
}

/// The first index at which `p` occurs in `s` (`str::find` with a string).
pub fn find_str(s: &Vec<char>, p: &Vec<char>) -> (r: Option<usize>)
    ensures
        r matches Some(i) ==> first_occurrence(s@, p@) == Some(i as int),
        r is None ==> first_occurrence(s@, p@) is None,
{
    if p.len() > s.len() {
        proof {
            lemma_first_occurrence_is(s@, p@, 0);
        }
        return None;
    }
    let last = s.len() - p.len();
    let mut i: usize = 0;
    while i < last
        invariant
            last + p.len() == s.len(),
            i <= last,
            forall|k: int| 0 <= k < i ==> !#[trigger] occurs_at(s@, p@, k),
        decreases last - i,
    {
        if occurs_at_exec(s, p, i) {
            proof {
                lemma_first_occurrence_is(s@, p@, i as int);
            }
            return Some(i);
        }
        i = i + 1;
    }
    if occurs_at_exec(s, p, last) {
        proof {
            lemma_first_occurrence_is(s@, p@, last as int);
        }
        return Some(last);
    }
    proof {
        lemma_first_occurrence_is(s@, p@, last + 1);
    }
    None
}

/// Whether `p` occurs in `s`.
pub fn contains_str(s: &str, p: &str) -> (r: bool)
    ensures
        r == contains(s@, p@),
{
    let x = chars_of(s);
    let y = chars_of(p);
    find_str(&x, &y).is_some()
}

/// Whether `s` begins with `p`.
pub fn starts_with(s: &str, p: &str) -> (r: bool)
    ensures
        r == has_prefix(s@, p@),
{
    let x = chars_of(s);
    let y = chars_of(p);
    if y.len() > x.len() {
        return false;
    }
    let b = occurs_at_exec(&x, &y, 0);
    assert(x@.take(y@.len() as int) =~= x@.subrange(0, y@.len() as int));
    b
}

/// `s` without its prefix `p`, when it has one (`str::strip_prefix`).
pub fn strip_prefix(s: &str, p: &str) -> (r: Option<String>)
    ensures
        r matches Some(t) ==> has_prefix(s@, p@) && t@ == s@.skip(p@.len() as int),
        r is None ==> !has_prefix(s@, p@),
{
    if starts_with(s, p) {
        let x = chars_of(s);
        let n = p.unicode_len();
        let t = string_of_range(&x, n, x.len());
        assert(x@.subrange(n as int, x@.len() as int) =~= s@.skip(n as int));
        Some(t)
    } else {
        None
    }
}

// ───────────────────────────── splitting and joining ─────────────────────────────

/// `str::split` with a character: the pieces between the occurrences of `c`.
pub open spec fn split(s: Seq<char>, c: char) -> Seq<Seq<char>>
    decreases s.len(),
{
    if s.len() == 0 {
        seq![Seq::<char>::empty()]
    } else {
        let r = split(s.drop_last(), c);
        if s.last() == c {
            r.push(Seq::<char>::empty())
        } else {
            r.update(r.len() - 1, r.last().push(s.last()))
        }
    }
}

/// `split` always yields at least one piece.
pub proof fn lemma_split_nonempty(s: Seq<char>, c: char)
    ensures
        split(s, c).len() >= 1,
    decreases s.len(),
{
    if s.len() > 0 {
        lemma_split_nonempty(s.drop_last(), c);
    }
}

/// A text without `c` splits into itself alone.
pub proof fn lemma_split_plain(s: Seq<char>, c: char)
    requires
        forall|k: int| 0 <= k < s.len() ==> #[trigger] s[k] != c,
    ensures
        split(s, c) == seq![s],
    decreases s.len(),
{
    if s.len() > 0 {
        assert forall|k: int| 0 <= k < s.drop_last().len() implies #[trigger] s.drop_last()[k] != c by {
            assert(s.drop_last()[k] == s[k]);
        }
        lemma_split_plain(s.drop_last(), c);
        assert(s.last() == s[s.len() - 1]);
        assert(s.drop_last().push(s.last()) =~= s);
        assert(seq![s.drop_last()].update(0, s.drop_last().push(s.last())) =~= seq![s]);
    } else {
        assert(s =~= Seq::<char>::empty());
    }
}

/// Splitting at the first `c` of a text: the piece before it, then the pieces of the
/// rest.
pub proof fn lemma_split_at(a: Seq<char>, b: Seq<char>, c: char)
    requires
        forall|k: int| 0 <= k < a.len() ==> #[trigger] a[k] != c,
    ensures
        split(a + seq![c] + b, c) == seq![a] + split(b, c),
    decreases b.len(),
{
    let s = a + seq![c] + b;
    if b.len() == 0 {
        assert(s.drop_last() =~= a);
        lemma_split_plain(a, c);
        assert(seq![a].push(Seq::<char>::empty()) =~= seq![a] + split(b, c));
    } else {
        lemma_split_at(a, b.drop_last(), c);
        lemma_split_nonempty(b.drop_last(), c);
        assert(s.drop_last() =~= a + seq![c] + b.drop_last());
        let r = split(b.drop_last(), c);
        if b.last() == c {
            assert((seq![a] + r).push(Seq::<char>::empty()) =~= seq![a] + r.push(Seq::<char>::empty()));
        } else {
            let q = seq![a] + r;
            assert(q.update(q.len() - 1, q.last().push(b.last())) =~= seq![a] + r.update(
                r.len() - 1,
                r.last().push(b.last()),
            ));
        }
    }
}

/// Splitting at the last `c` of a text: the pieces before it, then the rest.
pub proof fn lemma_split_last(x: Seq<char>, y: Seq<char>, c: char)
    requires
        forall|k: int| 0 <= k < y.len() ==> #[trigger] y[k] != c,
    ensures
        split(x + seq![c] + y, c) == split(x, c).push(y),
    decreases y.len(),
{
    let s = x + seq![c] + y;
    if y.len() == 0 {
        assert(s.drop_last() =~= x);
        assert(y =~= Seq::<char>::empty());
    } else {
        let y2 = y.drop_last();
        assert forall|k: int| 0 <= k < y2.len() implies #[trigger] y2[k] != c by {
            assert(y2[k] == y[k]);
        }
        lemma_split_last(x, y2, c);
        assert(s.drop_last() =~= x + seq![c] + y2);
        assert(y.last() == y[y.len() - 1]);
        let r = split(x, c).push(y2);
        assert(r.last() == y2);
        assert(y2.push(y.last()) =~= y);
        assert(r.update(r.len() - 1, r.last().push(y.last())) =~= split(x, c).push(y));
    }
}

/// Appending a text without `c` extends the last piece of a split.
pub proof fn lemma_split_append(x: Seq<char>, a: Seq<char>, c: char)
    requires
        forall|k: int| 0 <= k < a.len() ==> #[trigger] a[k] != c,
    ensures
        split(x + a, c) == split(x, c).update(split(x, c).len() - 1, split(x, c).last() + a),
        split(x + a, c).len() == split(x, c).len(),
    decreases a.len(),
{
    lemma_split_nonempty(x, c);
    let r = split(x, c);
    if a.len() == 0 {
        assert(x + a =~= x);
        assert(r.update(r.len() - 1, r.last() + a) =~= r);
    } else {
        let a2 = a.drop_last();
        assert forall|k: int| 0 <= k < a2.len() implies #[trigger] a2[k] != c by {
            assert(a2[k] == a[k]);
        }
        lemma_split_append(x, a2, c);
        assert((x + a).drop_last() =~= x + a2);
        assert(a.last() == a[a.len() - 1]);
        let q = r.update(r.len() - 1, r.last() + a2);
        assert(q.last() == r.last() + a2);
        assert((r.last() + a2).push(a.last()) =~= r.last() + a);
        assert(q.update(q.len() - 1, q.last().push(a.last())) =~= r.update(r.len() - 1, r.last() + a));
    }
}

/// A clean text wrapped in decoration cleans back to itself.
pub proof fn lemma_clean_wrapped(pre: Seq<char>, s: Seq<char>, post: Seq<char>)
    requires
        forall|k: int| 0 <= k < pre.len() ==> is_decoration(#[trigger] pre[k]),
        forall|k: int| 0 <= k < post.len() ==> is_decoration(#[trigger] post[k]),
        clean(s) == s,
        s.len() > 0,
    ensures
        clean(pre + s + post) == s,
{
    lemma_clean_fixed(s);
    lemma_strip_lead_wrapped(pre, s + post);
    assert(pre + s + post =~= pre + (s + post));
    lemma_strip_trail_wrapped(s, post);
}

proof fn lemma_strip_lead_wrapped(pre: Seq<char>, s: Seq<char>)
    requires
        forall|k: int| 0 <= k < pre.len() ==> is_decoration(#[trigger] pre[k]),
        s.len() > 0,
        !is_decoration(s[0]),
    ensures
        strip_lead(CharClass::Decoration, pre + s) == s,
    decreases pre.len(),
{
    if pre.len() == 0 {
        assert(pre + s =~= s);
    } else {
        let p2 = pre.drop_first();
        assert forall|k: int| 0 <= k < p2.len() implies is_decoration(#[trigger] p2[k]) by {
            assert(p2[k] == pre[k + 1]);
        }
        lemma_strip_lead_wrapped(p2, s);
        assert((pre + s).drop_first() =~= p2 + s);
        assert(is_decoration(pre[0]));
        assert((pre + s)[0] == pre[0]);
    }
}

proof fn lemma_strip_trail_wrapped(s: Seq<char>, post: Seq<char>)
    requires
        forall|k: int| 0 <= k < post.len() ==> is_decoration(#[trigger] post[k]),
        s.len() > 0,
        !is_decoration(s.last()),
    ensures
        strip_trail(CharClass::Decoration, s + post) == s,
    decreases post.len(),
{
    if post.len() == 0 {
        assert(s + post =~= s);
    } else {
        let p2 = post.drop_last();
        assert forall|k: int| 0 <= k < p2.len() implies is_decoration(#[trigger] p2[k]) by {
            assert(p2[k] == post[k]);
        }
        lemma_strip_trail_wrapped(s, p2);
        assert((s + post).drop_last() =~= s + p2);
        assert(is_decoration(post[post.len() - 1]));
        assert((s + post).last() == post[post.len() - 1]);
    }
}

/// `s` split at each `c`.
pub fn split_char(s: &str, c: char) -> (r: Vec<String>)
    ensures
        r@.map_values(|t: String| t@) == split(s@, c),
{
    let v = chars_of(s);
    let mut done: Vec<String> = Vec::new();
    let mut cur: Vec<char> = Vec::new();
    let mut i: usize = 0;
    assert(v@.take(0) =~= Seq::<char>::empty());
    while i < v.len()
        invariant
            i <= v.len(),
            v@ == s@,
            done@.map_values(|t: String| t@).push(cur@) == split(v@.take(i as int), c),
        decreases v.len() - i,
    {
        let ghost before = done@.map_values(|t: String| t@);
        let ghost prev = cur@;
        assert(v@.take(i + 1).drop_last() =~= v@.take(i as int));
        if v[i] == c {
            let piece = string_of(&cur);
            done.push(piece);
            cur = Vec::new();
            assert(done@.map_values(|t: String| t@) =~= before.push(prev));
            assert(done@.map_values(|t: String| t@).push(cur@) =~= before.push(prev).push(Seq::<char>::empty()));
        } else {
            cur.push(v[i]);
            assert(before.push(cur@) =~= before.push(prev).update(before.len() as int, prev.push(v@[i as int])));
        }
        i = i + 1;
    }
    let ghost before = done@.map_values(|t: String| t@);
    let last = string_of(&cur);
    done.push(last);
    assert(done@.map_values(|t: String| t@) =~= before.push(cur@));
    assert(v@.take(v@.len() as int) =~= v@);
    done
}

/// The pieces of `parts` with `sep` between each two (`[T]::join`).
pub open spec fn join(parts: Seq<Seq<char>>, sep: Seq<char>) -> Seq<char>
    decreases parts.len(),
{
    if parts.len() == 0 {
        Seq::empty()
    } else if parts.len() == 1 {
        parts[0]
    } else {
        join(parts.drop_last(), sep) + sep + parts.last()
    }
}

/// The strings of `parts` with `sep` between each two.
pub fn join_strings(parts: &Vec<String>, sep: &str) -> (r: String)
    ensures
        r@ == join(parts@.map_values(|t: String| t@), sep@),
{
    let ghost views = parts@.map_values(|t: String| t@);
    let mut r = String::new();
    let mut i: usize = 0;
    assert(views.take(0) =~= Seq::<Seq<char>>::empty());
    while i < parts.len()
        invariant
            i <= parts.len(),
            views == parts@.map_values(|t: String| t@),
            r@ == join(views.take(i as int), sep@),
        decreases parts.len() - i,
    {
        assert(views.take(i + 1).drop_last() =~= views.take(i as int));
        if i == 0 {
            r = to_string(parts[i].as_str());
            assert(views.take(1) =~= seq![views[0]]);
        } else {
            let a = str_concat(r.as_str(), sep);
            r = str_concat(a.as_str(), parts[i].as_str());
        }
        i = i + 1;
    }
    assert(views.take(parts.len() as int) =~= views);
    r
}

/// `s` with every `from` replaced by `to`.
pub open spec fn replace_char(s: Seq<char>, from: char, to: char) -> Seq<char> {
    s.map_values(|x: char| if x == from { to } else { x })
}

/// `s` with every `from` replaced by `to` (`str::replace` of one character by one).
pub fn replace_char_exec(s: &str, from: char, to: char) -> (r: String)
    ensures
        r@ == replace_char(s@, from, to),
{
    let v = chars_of(s);
    let mut w: Vec<char> = Vec::new();
    let mut i: usize = 0;
    while i < v.len()
        invariant
            i <= v.len(),
            v@ == s@,
            w@ == replace_char(v@.take(i as int), from, to),
        decreases v.len() - i,
    {
        let c = if v[i] == from { to } else { v[i] };
        w.push(c);
        assert(replace_char(v@.take(i + 1), from, to) =~= replace_char(v@.take(i as int), from, to).push(c));
        i = i + 1;
    }
    assert(v@.take(v@.len() as int) =~= v@);
    string_of(&w)
}

/// A line without the `'\r'` that ended it.
pub open spec fn strip_cr(s: Seq<char>) -> Seq<char> {
    if s.len() > 0 && s.last() == '\r' {
        s.drop_last()
    } else {
        s
    }
}

/// `str::lines`: the lines of `s`, each without its `"\n"` or `"\r\n"`.
pub open spec fn lines(s: Seq<char>) -> Seq<Seq<char>> {
    if s.len() == 0 {
        Seq::empty()
    } else if s.last() == '\n' {
        split(s.drop_last(), '\n').map_values(|t: Seq<char>| strip_cr(t))
    } else {
        let p = split(s, '\n');
        p.drop_last().map_values(|t: Seq<char>| strip_cr(t)).push(p.last())
    }
}

/// A text on one line: without `'\n'` and `'\r'`.
pub open spec fn single_line(s: Seq<char>) -> bool {
    forall|k: int| 0 <= k < s.len() ==> #[trigger] s[k] != '\n' && s[k] != '\r'
}

/// Two texts on one line make one line together.
pub proof fn lemma_single_line_concat(a: Seq<char>, b: Seq<char>)
    requires
        single_line(a),
        single_line(b),
    ensures
        single_line(a + b),
{
    assert forall|k: int| 0 <= k < (a + b).len() implies #[trigger] (a + b)[k] != '\n' && (a + b)[k] != '\r' by {
        if k < a.len() {
            assert((a + b)[k] == a[k]);
        } else {
            assert((a + b)[k] == b[k - a.len()]);
        }
    }
}

/// The text that prints each of `ls` on a line of its own.
pub open spec fn line_text(ls: Seq<Seq<char>>) -> Seq<char>
    decreases ls.len(),
{
    if ls.len() == 0 {
        Seq::empty()
    } else {
        ls[0] + seq!['\n'] + line_text(ls.drop_first())
    }
}

/// The lines of a text that prints lines are those lines.
#[verifier::spinoff_prover]
pub proof fn lemma_lines_of_line_text(ls: Seq<Seq<char>>)
    requires
        forall|i: int| 0 <= i < ls.len() ==> single_line(#[trigger] ls[i]),
    ensures
        lines(line_text(ls)) == ls,
    decreases ls.len(),
{
    if ls.len() > 0 {
        let a = ls[0];
        let rest = ls.drop_first();
        assert forall|i: int| 0 <= i < rest.len() implies single_line(#[trigger] rest[i]) by {
            assert(rest[i] == ls[i + 1]);
        }
        lemma_lines_of_line_text(rest);
        let b = line_text(rest);
        assert(single_line(ls[0]));
        lemma_split_at(a, b, '\n');
        let s = a + seq!['\n'] + b;
        assert(strip_cr(a) == a) by {
            if a.len() > 0 {
                assert(a.last() == a[a.len() - 1]);
            }
        }
        if b.len() == 0 {
            assert(s.drop_last() =~= a);
            lemma_split_plain(a, '\n');
            assert(lines(s) =~= seq![a]);
            assert(rest.len() == 0) by {
                if rest.len() > 0 {
                    assert(line_text(rest).len() >= 1);
                }
            }
            assert(ls =~= seq![a]);
        } else if b.last() == '\n' {
            assert(s.drop_last() =~= a + seq!['\n'] + b.drop_last());
            lemma_split_at(a, b.drop_last(), '\n');
            assert(lines(s) =~= seq![a] + lines(b));
            assert(ls =~= seq![a] + rest);
        } else {
            lemma_split_nonempty(b, '\n');
            let q = split(b, '\n');
            assert((seq![a] + q).drop_last() =~= seq![a] + q.drop_last());
            assert(lines(s) =~= seq![a] + lines(b));
            assert(ls =~= seq![a] + rest);
        }
    }
}

/// The pieces of a split hold no `c`, and are on one line where the text is.
pub proof fn lemma_split_pieces(s: Seq<char>, c: char)
    ensures
        forall|i: int, k: int|
            0 <= i < split(s, c).len() && 0 <= k < split(s, c)[i].len() ==> #[trigger] split(s, c)[i][k] != c,
        single_line(s) ==> forall|i: int| 0 <= i < split(s, c).len() ==> single_line(#[trigger] split(s, c)[i]),
    decreases s.len(),
{
    if s.len() > 0 {
        let t = s.drop_last();
        lemma_split_pieces(t, c);
        lemma_split_nonempty(t, c);
        if single_line(s) {
            assert forall|k: int| 0 <= k < t.len() implies #[trigger] t[k] != '\n' && t[k] != '\r' by {
                assert(t[k] == s[k]);
            }
        }
        assert(s.last() == s[s.len() - 1]);
        let r = split(t, c);
        if s.last() != c {
            let q = split(s, c);
            assert forall|i: int, k: int| 0 <= i < q.len() && 0 <= k < q[i].len() implies #[trigger] q[i][k] != c by {
                if i < r.len() - 1 {
                    assert(q[i] == r[i]);
                } else if k < r.last().len() {
                    assert(q[i][k] == r.last()[k]);
                    assert(r.last() == r[r.len() - 1]);
                }
            }
            if single_line(s) {
                assert forall|i: int| 0 <= i < q.len() implies single_line(#[trigger] q[i]) by {
                    if i < r.len() - 1 {
                        assert(q[i] == r[i]);
                    } else {
                        assert(r.last() == r[r.len() - 1]);
                        assert(single_line(r[r.len() - 1]));
                        assert forall|k: int| 0 <= k < q[i].len() implies #[trigger] q[i][k] != '\n' && q[i][k] != '\r' by {
                            if k < r.last().len() {
                                assert(q[i][k] == r.last()[k]);
                            }
                        }
                    }
                }
            }
        }
    }
}

/// `join` of a list with one more item.
proof fn lemma_join_push(parts: Seq<Seq<char>>, x: Seq<char>, sep: Seq<char>)
    requires
        parts.len() > 0,
    ensures
        join(parts.push(x), sep) == join(parts, sep) + sep + x,
{
    assert(parts.push(x).drop_last() =~= parts);
}

/// Joining the pieces of a split with the character it split at gives back the text.
pub proof fn lemma_join_split(s: Seq<char>, c: char)
    ensures
        join(split(s, c), seq![c]) == s,
    decreases s.len(),
{
    if s.len() == 0 {
        assert(join(seq![Seq::<char>::empty()], seq![c]) == Seq::<char>::empty());
    } else {
        let t = s.drop_last();
        let x = s.last();
        lemma_join_split(t, c);
        lemma_split_nonempty(t, c);
        let r = split(t, c);
        if x == c {
            lemma_join_push(r, Seq::<char>::empty(), seq![c]);
            assert(t + seq![c] + Seq::<char>::empty() =~= s);
        } else {
            let q = r.update(r.len() - 1, r.last().push(x));
            if r.len() == 1 {
                assert(join(q, seq![c]) == q[0]);
                assert(join(r, seq![c]) == r[0]);
                assert(r.last() == r[0]);
                assert(r[0].push(x) =~= s);
            } else {
                assert(q.drop_last() =~= r.drop_last());
                assert(join(r, seq![c]) == join(r.drop_last(), seq![c]) + seq![c] + r.last());
                assert(join(q, seq![c]) =~= join(r, seq![c]).push(x));
                assert(t.push(x) =~= s);
            }
        }
    }
}

/// The printed lines are the lines joined by newlines, and a newline.
pub proof fn lemma_line_text_join(ls: Seq<Seq<char>>)
    requires
        ls.len() > 0,
    ensures
        line_text(ls) == join(ls, seq!['\n']) + seq!['\n'],
    decreases ls.len(),
{
    if ls.len() == 1 {
        assert(ls.drop_first() =~= Seq::<Seq<char>>::empty());
        assert(line_text(Seq::<Seq<char>>::empty()) == Seq::<char>::empty());
        assert(line_text(ls) =~= ls[0] + seq!['\n']);
        assert(join(ls, seq!['\n']) == ls[0]);
    } else {
        let rest = ls.drop_first();
        lemma_line_text_join(rest);
        lemma_join_front(ls, seq!['\n']);
        assert(line_text(ls) =~= join(ls, seq!['\n']) + seq!['\n']);
    }
}

/// `join` taken from the front: the first item, the separator, the join of the rest.
pub proof fn lemma_join_front(ls: Seq<Seq<char>>, sep: Seq<char>)
    requires
        ls.len() > 1,
    ensures
        join(ls, sep) == ls[0] + sep + join(ls.drop_first(), sep),
    decreases ls.len(),
{
    if ls.len() == 2 {
        assert(ls.drop_last() =~= seq![ls[0]]);
        assert(ls.drop_first() =~= seq![ls[1]]);
        assert(join(seq![ls[0]], sep) == ls[0]);
        assert(join(seq![ls[1]], sep) == ls[1]);
        assert(join(ls, sep) == join(ls.drop_last(), sep) + sep + ls.last());
    } else {
        let d = ls.drop_last();
        lemma_join_front(d, sep);
        assert(d.drop_first() =~= ls.drop_first().drop_last());
        assert(ls.drop_first().last() == ls.last());
        assert(join(ls.drop_first(), sep) == join(ls.drop_first().drop_last(), sep) + sep + ls.drop_first().last());
        assert(join(ls, sep) == join(d, sep) + sep + ls.last());
        assert(d[0] == ls[0]);
        assert(join(ls, sep) =~= ls[0] + sep + join(ls.drop_first(), sep));
    }
}

/// Replacing the newlines that join lines without newlines by `to` joins them by `to`.
pub proof fn lemma_replace_join(ls: Seq<Seq<char>>, to: char)
    requires
        forall|i: int| 0 <= i < ls.len() ==> single_line(#[trigger] ls[i]),
    ensures
        replace_char(join(ls, seq!['\n']), '\n', to) == join(ls, seq![to]),
    decreases ls.len(),
{
    if ls.len() == 1 {
        assert(single_line(ls[0]));
        assert(replace_char(ls[0], '\n', to) =~= ls[0]);
    } else if ls.len() > 1 {
        let d = ls.drop_last();
        assert forall|i: int| 0 <= i < d.len() implies single_line(#[trigger] d[i]) by {
            assert(d[i] == ls[i]);
        }
        lemma_replace_join(d, to);
        assert(single_line(ls[ls.len() - 1]));
        assert(replace_char(ls.last(), '\n', to) =~= ls.last());
        assert(replace_char(join(ls, seq!['\n']), '\n', to) =~= replace_char(join(d, seq!['\n']), '\n', to)
            + seq![to] + replace_char(ls.last(), '\n', to));
    } else {
        assert(replace_char(Seq::<char>::empty(), '\n', to) =~= Seq::<char>::empty());
    }
}

fn strip_cr_exec(s: String) -> (r: String)
    ensures
        r@ == strip_cr(s@),
{
    let v = chars_of(s.as_str());
    if v.len() > 0 && v[v.len() - 1] == '\r' {
        let r = string_of_range(&v, 0, v.len() - 1);
        assert(v@.subrange(0, v@.len() - 1) =~= v@.drop_last());
        r
    } else {
        s
    }
}

/// The lines of `s`.
pub fn lines_of(s: &str) -> (r: Vec<String>)
    ensures
        r@.map_values(|t: String| t@) == lines(s@),
{
    let v = chars_of(s);
    if v.len() == 0 {
        let r: Vec<String> = Vec::new();
        assert(r@.map_values(|t: String| t@) =~= Seq::<Seq<char>>::empty());
        return r;
    }
    let ends_nl = v[v.len() - 1] == '\n';
    let body = if ends_nl {
        string_of_range(&v, 0, v.len() - 1)
    } else {
        to_string(s)
    };
    proof {
        if ends_nl {
            assert(v@.subrange(0, v@.len() - 1) =~= s@.drop_last());
        }
    }
    let pieces = split_char(body.as_str(), '\n');
    let ghost pv = pieces@.map_values(|t: String| t@);
    proof {
        lemma_split_nonempty(body@, '\n');
    }
    let n = pieces.len();
    let keep_last = !ends_nl;
    let mut out: Vec<String> = Vec::new();
    let mut i: usize = 0;
    while i < n
        invariant
            i <= n == pieces.len(),
            n >= 1,
            pv == pieces@.map_values(|t: String| t@),
            i < n ==> out@.map_values(|t: String| t@) == pv.take(i as int).map_values(
                |t: Seq<char>| strip_cr(t),
            ),
            i == n ==> (if keep_last {
                out@.map_values(|t: String| t@) == pv.drop_last().map_values(
                    |t: Seq<char>| strip_cr(t),
                ).push(pv.last())
            } else {
                out@.map_values(|t: String| t@) == pv.map_values(|t: Seq<char>| strip_cr(t))
            }),
        decreases n - i,
    {
        let ghost before = out@.map_values(|t: String| t@);
        let piece = pieces[i].clone();
        let line = if keep_last && i == n - 1 {
            piece
        } else {
            strip_cr_exec(piece)
        };
        out.push(line);
        proof {
            assert(out@.map_values(|t: String| t@) =~= before.push(line@));
            if i + 1 < n || !keep_last {
                assert(pv.take(i + 1).map_values(|t: Seq<char>| strip_cr(t)) =~= pv.take(
                    i as int,
                ).map_values(|t: Seq<char>| strip_cr(t)).push(strip_cr(pv[i as int])));
            }
            if i + 1 == n && keep_last {
                assert(pv.drop_last() =~= pv.take(i as int));
            }
            if i + 1 == n && !keep_last {
                assert(pv.take(n as int) =~= pv);
            }
        }
        i = i + 1;
    }
    out
}


/// The views of a list of strings.
pub open spec fn string_views(v: Seq<String>) -> Seq<Seq<char>> {
    v.map_values(|s: String| s@)
}

/// The views of a list of string slices.
pub open spec fn str_views(v: Seq<&str>) -> Seq<Seq<char>> {
    v.map_values(|s: &str| s@)
}

/// Owned copies of the strings of `a`.
pub fn owned_strings(a: &[&str]) -> (r: Vec<String>)
    ensures
        string_views(r@) == str_views(a@),
{
    let mut r: Vec<String> = Vec::new();
    let mut i: usize = 0;
    while i < a.len()
        invariant
            i <= a.len(),
            string_views(r@) == str_views(a@).take(i as int),
        decreases a.len() - i,
    {
        let ghost prev = r@;
        let t = to_string(a[i]);
        r.push(t);
        assert(r@ == prev.push(t));
        assert(str_views(a@).take(i + 1) =~= str_views(a@).take(i as int).push(a@[i as int]@));
        assert(string_views(r@) =~= string_views(prev).push(t@));
        i = i + 1;
    }
    assert(str_views(a@).take(a.len() as int) =~= str_views(a@));
    r
}

// ───────────────────────────── numbers ─────────────────────────────

/// The decimal digit for `d < 10`.
pub open spec fn digit_char(d: nat) -> char {
    if d == 0 {
        '0'
    } else if d == 1 {
        '1'
    } else if d == 2 {
        '2'
    } else if d == 3 {
        '3'
    } else if d == 4 {
        '4'
    } else if d == 5 {
        '5'
    } else if d == 6 {
        '6'
    } else if d == 7 {
        '7'
    } else if d == 8 {
        '8'
    } else {
        '9'
    }
}

/// `n` written in decimal, without leading zeros.
pub open spec fn decimal(n: nat) -> Seq<char>
    decreases n,
{
    if n < 10 {
        seq![digit_char(n)]
    } else {
        decimal(n / 10) + seq![digit_char(n % 10)]
    }
}

/// A number in decimal is a nonempty run of digits, and is not `0` for a positive
/// number.
pub proof fn lemma_decimal_digits(n: nat)
    ensures
        decimal(n).len() > 0,
        forall|k: int| 0 <= k < decimal(n).len() ==> '0' <= #[trigger] decimal(n)[k] <= '9',
        n > 0 ==> decimal(n) != seq!['0'],
    decreases n,
{
    if n >= 10 {
        lemma_decimal_digits(n / 10);
        let a = decimal(n / 10);
        let s = decimal(n);
        assert(s == a + seq![digit_char(n % 10)]);
        assert forall|k: int| 0 <= k < s.len() implies '0' <= #[trigger] s[k] <= '9' by {
            if k < a.len() {
                assert(s[k] == a[k]);
            }
        }
        assert(s.len() >= 2);
    } else {
        assert(decimal(n)[0] == digit_char(n));
    }
}

fn digit_exec(d: u32) -> (c: char)
    requires
        d < 10,
    ensures
        c == digit_char(d as nat),
{
    if d == 0 {
        '0'
    } else if d == 1 {
        '1'
    } else if d == 2 {
        '2'
    } else if d == 3 {
        '3'
    } else if d == 4 {
        '4'
    } else if d == 5 {
        '5'
    } else if d == 6 {
        '6'
    } else if d == 7 {
        '7'
    } else if d == 8 {
        '8'
    } else {
        '9'
    }
}

/// `n` written in decimal (`u32::to_string`).
pub fn decimal_string(n: u32) -> (r: String)
    ensures
        r@ == decimal(n as nat),
    decreases n,
{
    if n < 10 {
        let mut r = String::new();
        push_char(&mut r, digit_exec(n));
        assert(r@ =~= seq![digit_char(n as nat)]);
        r
    } else {
        let mut r = decimal_string(n / 10);
        push_char(&mut r, digit_exec(n % 10));
        assert(r@ =~= decimal(n as nat / 10) + seq![digit_char(n as nat % 10)]);
        r
    }
}

} // verus!
