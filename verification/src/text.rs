//! Text as sequences of characters: the operations that the rest of the
//! library needs, each proved against a spec function on `Seq<char>`.

use vstd::prelude::*;
use vstd::string::*;

verus! {

// ---------------------------------------------------------------------------
// Views
// ---------------------------------------------------------------------------

/// `String::push` appends one character at the end.
pub assume_specification[ String::push ](s: &mut String, c: char)
    ensures
        final(s)@ == old(s)@.push(c),
;

/// The view of an optional text.
pub open spec fn opt_text(o: Option<String>) -> Option<Seq<char>> {
    match o {
        Some(s) => Some(s@),
        None => None,
    }
}

/// The view of an optional borrowed text.
pub open spec fn opt_str(o: Option<&str>) -> Option<Seq<char>> {
    match o {
        Some(s) => Some(s@),
        None => None,
    }
}

/// The view of an optional value.
pub open spec fn opt_view<T: View>(o: Option<T>) -> Option<T::V> {
    match o {
        Some(t) => Some(t@),
        None => None,
    }
}

/// The views of a list of values.
pub open spec fn seq_view<T: View>(v: Seq<T>) -> Seq<T::V> {
    Seq::new(v.len(), |i: int| v[i]@)
}

/// The view of an outcome.
pub open spec fn res_view<T: View, E: View>(r: Result<T, E>) -> Result<T::V, E::V> {
    match r {
        Ok(t) => Ok(t@),
        Err(e) => Err(e@),
    }
}

/// The views of a list of texts.
pub open spec fn texts(v: Seq<String>) -> Seq<Seq<char>> {
    Seq::new(v.len(), |i: int| v[i]@)
}

pub broadcast proof fn lemma_seq_view_push<T: View>(v: Seq<T>, x: T)
    ensures
        #[trigger] seq_view(v.push(x)) == seq_view(v).push(x@),
{
    assert(seq_view(v.push(x)) =~= seq_view(v).push(x@));
}

pub broadcast proof fn lemma_texts_push(v: Seq<String>, x: String)
    ensures
        #[trigger] texts(v.push(x)) == texts(v).push(x@),
{
    assert(texts(v.push(x)) =~= texts(v).push(x@));
}

// ---------------------------------------------------------------------------
// Characters
// ---------------------------------------------------------------------------

/// The Unicode `White_Space` property.
pub open spec fn is_white_space(c: char) -> bool {
    ||| ('\u{9}' <= c && c <= '\u{d}')
    ||| c == ' '
    ||| c == '\u{85}'
    ||| c == '\u{a0}'
    ||| c == '\u{1680}'
    ||| ('\u{2000}' <= c && c <= '\u{200a}')
    ||| c == '\u{2028}'
    ||| c == '\u{2029}'
    ||| c == '\u{202f}'
    ||| c == '\u{205f}'
    ||| c == '\u{3000}'
}

pub open spec fn is_ascii_lower(c: char) -> bool {
    'a' <= c && c <= 'z'
}

pub open spec fn is_ascii_digit(c: char) -> bool {
    '0' <= c && c <= '9'
}

pub open spec fn is_ascii_alphanumeric(c: char) -> bool {
    is_ascii_lower(c) || is_ascii_digit(c) || ('A' <= c && c <= 'Z')
}

pub open spec fn is_ascii_hex_digit(c: char) -> bool {
    is_ascii_digit(c) || ('a' <= c && c <= 'f') || ('A' <= c && c <= 'F')
}

/// ASCII upper case letters lowered; every other character unchanged.
pub open spec fn lower_char(c: char) -> char {
    if 'A' <= c && c <= 'Z' {
        ((c as u8 + 32) as u8) as char
    } else {
        c
    }
}

/// A text with its ASCII letters lowered.
pub open spec fn lowered(s: Seq<char>) -> Seq<char> {
    Seq::new(s.len(), |i: int| lower_char(s[i]))
}

pub fn white_space(c: char) -> (r: bool)
    ensures
        r == is_white_space(c),
{
    ('\u{9}' <= c && c <= '\u{d}') || c == ' ' || c == '\u{85}' || c == '\u{a0}' || c == '\u{1680}'
        || ('\u{2000}' <= c && c <= '\u{200a}') || c == '\u{2028}' || c == '\u{2029}' || c
        == '\u{202f}' || c == '\u{205f}' || c == '\u{3000}'
}

pub fn ascii_lower(c: char) -> (r: bool)
    ensures
        r == is_ascii_lower(c),
{
    'a' <= c && c <= 'z'
}

pub fn ascii_digit(c: char) -> (r: bool)
    ensures
        r == is_ascii_digit(c),
{
    '0' <= c && c <= '9'
}

pub fn ascii_alphanumeric(c: char) -> (r: bool)
    ensures
        r == is_ascii_alphanumeric(c),
{
    ascii_lower(c) || ascii_digit(c) || ('A' <= c && c <= 'Z')
}

pub fn ascii_hex_digit(c: char) -> (r: bool)
    ensures
        r == is_ascii_hex_digit(c),
{
    ascii_digit(c) || ('a' <= c && c <= 'f') || ('A' <= c && c <= 'F')
}

pub fn to_lower_char(c: char) -> (r: char)
    ensures
        r == lower_char(c),
{
    if 'A' <= c && c <= 'Z' {
        ((c as u8) + 32) as char
    } else {
        c
    }
}

// ---------------------------------------------------------------------------
// Equality and conversion
// ---------------------------------------------------------------------------

/// Whether two texts hold the same characters.
pub fn same_text(a: &str, b: &str) -> (r: bool)
    ensures
        r == (a@ == b@),
{
    a.to_owned() == b.to_owned()
}

/// Whether two optional texts are both absent or hold the same characters.
pub fn same_opt_text(a: &Option<String>, b: &Option<String>) -> (r: bool)
    ensures
        r == (opt_text(*a) == opt_text(*b)),
{
    match (a, b) {
        (Some(x), Some(y)) => same_text(x.as_str(), y.as_str()),
        (None, None) => true,
        _ => false,
    }
}

/// Whether an optional text is present and holds the given characters.
pub fn opt_is(a: &Option<String>, b: &str) -> (r: bool)
    ensures
        r == (opt_text(*a) == Some(b@)),
{
    match a {
        Some(x) => same_text(x.as_str(), b),
        None => false,
    }
}

/// A copy of an optional text.
pub fn copy_opt(a: &Option<String>) -> (r: Option<String>)
    ensures
        r == *a,
        opt_text(r) == opt_text(*a),
{
    match a {
        Some(x) => Some(x.clone()),
        None => None,
    }
}

/// The characters of a text.
pub fn chars_of(s: &str) -> (r: Vec<char>)
    ensures
        r@ == s@,
{
    let mut out: Vec<char> = Vec::new();
    for c in it: s.chars()
        invariant
            out@ == s@.take(it.index() as int),
            it.seq() == s@,
    {
        out.push(c);
        assert(s@.take(it.index() as int + 1) =~= s@.take(it.index() as int).push(
            s@[it.index() as int],
        ));
    }
    assert(s@.take(s@.len() as int) =~= s@);
    out
}

/// The text made of the characters from `from` up to but excluding `to`.
pub fn from_range(v: &[char], from: usize, to: usize) -> (r: String)
    requires
        from <= to <= v@.len(),
    ensures
        r@ == v@.subrange(from as int, to as int),
{
    let mut out = String::new();
    let mut i: usize = from;
    while i < to
        invariant
            from <= i <= to <= v@.len(),
            out@ =~= v@.subrange(from as int, i as int),
        decreases to - i,
    {
        out.push(v[i]);
        i = i + 1;
    }
    out
}

/// One text after the other.
pub fn concat2(a: &str, b: &str) -> (r: String)
    ensures
        r@ == a@ + b@,
{
    let mut out = a.to_owned();
    out.append(b);
    out
}

/// Three texts in a row.
pub fn concat3(a: &str, b: &str, c: &str) -> (r: String)
    ensures
        r@ == a@ + b@ + c@,
{
    let mut out = a.to_owned();
    out.append(b);
    out.append(c);
    out
}

/// Four texts in a row.
pub fn concat4(a: &str, b: &str, c: &str, d: &str) -> (r: String)
    ensures
        r@ == a@ + b@ + c@ + d@,
{
    let mut out = concat3(a, b, c);
    out.append(d);
    out
}

/// Five texts in a row.
pub fn concat5(a: &str, b: &str, c: &str, d: &str, e: &str) -> (r: String)
    ensures
        r@ == a@ + b@ + c@ + d@ + e@,
{
    let mut out = concat4(a, b, c, d);
    out.append(e);
    out
}

/// A text with its ASCII letters lowered.
pub fn to_lowered(s: &str) -> (r: String)
    ensures
        r@ == lowered(s@),
{
    let v = chars_of(s);
    let mut out = String::new();
    let mut i: usize = 0;
    while i < v.len()
        invariant
            i <= v@.len(),
            v@ == s@,
            out@ =~= lowered(s@).take(i as int),
        decreases v@.len() - i,
    {
        out.push(to_lower_char(v[i]));
        i = i + 1;
    }
    assert(lowered(s@).take(s@.len() as int) =~= lowered(s@));
    out
}

/// Whether two texts are equal up to the case of ASCII letters.
pub fn same_ignoring_case(a: &str, b: &str) -> (r: bool)
    ensures
        r == (lowered(a@) == lowered(b@)),
{
    let x = to_lowered(a);
    let y = to_lowered(b);
    same_text(x.as_str(), y.as_str())
}

/// Lowering twice is lowering once.
pub proof fn lemma_lowered_idempotent(s: Seq<char>)
    ensures
        lowered(lowered(s)) == lowered(s),
{
    assert(lowered(lowered(s)) =~= lowered(s));
}

// ---------------------------------------------------------------------------
// Trimming and words
// ---------------------------------------------------------------------------

/// A text without its leading white space.
pub open spec fn skip_white(s: Seq<char>) -> Seq<char>
    decreases s.len(),
{
    if s.len() > 0 && is_white_space(s[0]) {
        skip_white(s.skip(1))
    } else {
        s
    }
}

/// A text without its trailing white space.
pub open spec fn drop_white(s: Seq<char>) -> Seq<char>
    decreases s.len(),
{
    if s.len() > 0 && is_white_space(s.last()) {
        drop_white(s.drop_last())
    } else {
        s
    }
}

/// A text without white space at either end.
pub open spec fn trimmed(s: Seq<char>) -> Seq<char> {
    drop_white(skip_white(s))
}

proof fn lemma_skip_white_at(s: Seq<char>, i: int)
    requires
        0 <= i <= s.len(),
        forall|k: int| 0 <= k < i ==> is_white_space(#[trigger] s[k]),
        i < s.len() ==> !is_white_space(s[i]),
    ensures
        skip_white(s) == s.skip(i),
    decreases i,
{
    if i == 0 {
        assert(s.skip(0) =~= s);
    } else {
        assert(s.skip(1).skip(i - 1) =~= s.skip(i));
        assert forall|k: int| 0 <= k < i - 1 implies is_white_space(#[trigger] s.skip(1)[k]) by {
            assert(s.skip(1)[k] == s[k + 1]);
        }
        lemma_skip_white_at(s.skip(1), i - 1);
    }
}

proof fn lemma_drop_white_at(s: Seq<char>, j: int)
    requires
        0 <= j <= s.len(),
        forall|k: int| j <= k < s.len() ==> is_white_space(#[trigger] s[k]),
        j > 0 ==> !is_white_space(s[j - 1]),
    ensures
        drop_white(s) == s.take(j),
    decreases s.len() - j,
{
    if j == s.len() {
        assert(s.take(j) =~= s);
    } else {
        assert(s.drop_last().take(j) =~= s.take(j));
        assert forall|k: int| j <= k < s.len() - 1 implies is_white_space(
            #[trigger] s.drop_last()[k],
        ) by {
            assert(s.drop_last()[k] == s[k]);
        }
        lemma_drop_white_at(s.drop_last(), j);
    }
}

/// A text without white space at either end.
pub fn trim_text(s: &str) -> (r: String)
    ensures
        r@ == trimmed(s@),
{
    let v = chars_of(s);
    let mut i: usize = 0;
    while i < v.len() && white_space(v[i])
        invariant
            i <= v@.len(),
            forall|k: int| 0 <= k < i ==> is_white_space(#[trigger] v@[k]),
        decreases v@.len() - i,
    {
        i = i + 1;
    }
    let ghost t = s@.skip(i as int);
    proof {
        lemma_skip_white_at(s@, i as int);
    }
    let mut j: usize = v.len();
    while j > i && white_space(v[j - 1])
        invariant
            i <= j <= v@.len(),
            v@ == s@,
            t == s@.skip(i as int),
            forall|k: int| j - i <= k < t.len() ==> is_white_space(#[trigger] t[k]),
        decreases j,
    {
        j = j - 1;
    }
    proof {
        lemma_drop_white_at(t, j - i);
        assert(t.take(j - i) =~= s@.subrange(i as int, j as int));
    }
    from_range(v.as_slice(), i, j)
}

/// What is left after trimming neither starts nor ends with white space, and
/// trimming it again changes nothing.
pub proof fn lemma_trimmed_idempotent(s: Seq<char>)
    ensures
        trimmed(trimmed(s)) == trimmed(s),
        trimmed(s).len() > 0 ==> !is_white_space(trimmed(s)[0]) && !is_white_space(
            trimmed(s).last(),
        ),
{
    lemma_skip_white_props(s);
    lemma_drop_white_props(skip_white(s));
    let t = trimmed(s);
    if t.len() > 0 {
        assert(t[0] == skip_white(s)[0]);
    }
    lemma_skip_white_at(t, 0);
    assert(t.skip(0) =~= t);
    lemma_drop_white_at(t, t.len() as int);
    assert(t.take(t.len() as int) =~= t);
}

/// A text that neither starts nor ends with white space is trimmed already.
pub proof fn lemma_trimmed_fixed(s: Seq<char>)
    requires
        s.len() > 0 ==> !is_white_space(s[0]) && !is_white_space(s.last()),
    ensures
        trimmed(s) == s,
{
    lemma_skip_white_at(s, 0);
    assert(s.skip(0) =~= s);
    lemma_drop_white_at(s, s.len() as int);
    assert(s.take(s.len() as int) =~= s);
}

proof fn lemma_skip_white_props(s: Seq<char>)
    ensures
        skip_white(s).len() <= s.len(),
        skip_white(s).len() > 0 ==> !is_white_space(skip_white(s)[0]),
    decreases s.len(),
{
    if s.len() > 0 && is_white_space(s[0]) {
        lemma_skip_white_props(s.skip(1));
    }
}

proof fn lemma_drop_white_props(s: Seq<char>)
    ensures
        drop_white(s).len() <= s.len(),
        drop_white(s) == s.take(drop_white(s).len() as int),
        drop_white(s).len() > 0 ==> !is_white_space(drop_white(s).last()),
    decreases s.len(),
{
    if s.len() > 0 && is_white_space(s.last()) {
        lemma_drop_white_props(s.drop_last());
        let n = drop_white(s.drop_last()).len() as int;
        assert(s.drop_last().take(n) =~= s.take(n));
    } else {
        assert(s.take(s.len() as int) =~= s);
    }
}

/// Whether the two operations commute on a text: lowering keeps what is and
/// what is not white space.
pub proof fn lemma_trim_lower_commute(s: Seq<char>)
    ensures
        trimmed(lowered(s)) == lowered(trimmed(s)),
{
    lemma_skip_lower(s);
    lemma_drop_lower(skip_white(s));
}

proof fn lemma_skip_lower(s: Seq<char>)
    ensures
        skip_white(lowered(s)) == lowered(skip_white(s)),
    decreases s.len(),
{
    if s.len() > 0 {
        assert(lowered(s)[0] == lower_char(s[0]));
        if is_white_space(s[0]) {
            assert(lowered(s).skip(1) =~= lowered(s.skip(1)));
            lemma_skip_lower(s.skip(1));
        }
    }
}

proof fn lemma_drop_lower(s: Seq<char>)
    ensures
        drop_white(lowered(s)) == lowered(drop_white(s)),
    decreases s.len(),
{
    if s.len() > 0 {
        assert(lowered(s).last() == lower_char(s.last()));
        if is_white_space(s.last()) {
            assert(lowered(s).drop_last() =~= lowered(s.drop_last()));
            lemma_drop_lower(s.drop_last());
        }
    }
}

/// How many characters of a text stand before its first white space.
pub open spec fn word_len(s: Seq<char>) -> nat
    decreases s.len(),
{
    if s.len() > 0 && !is_white_space(s[0]) {
        1 + word_len(s.skip(1))
    } else {
        0
    }
}

/// The words of a text: its maximal runs without white space, in order.
pub open spec fn words(s: Seq<char>) -> Seq<Seq<char>>
    decreases s.len(),
{
    if s.len() == 0 {
        Seq::empty()
    } else if is_white_space(s[0]) {
        words(s.skip(1))
    } else {
        let n = word_len(s);
        if n == 0 || n > s.len() {
            Seq::empty()
        } else {
            seq![s.take(n as int)] + words(s.skip(n as int))
        }
    }
}

proof fn lemma_word_len_at(s: Seq<char>, n: int)
    requires
        0 <= n <= s.len(),
        forall|k: int| 0 <= k < n ==> !is_white_space(#[trigger] s[k]),
        n < s.len() ==> is_white_space(s[n]),
    ensures
        word_len(s) == n,
    decreases n,
{
    if n > 0 {
        assert forall|k: int| 0 <= k < n - 1 implies !is_white_space(#[trigger] s.skip(1)[k]) by {
            assert(s.skip(1)[k] == s[k + 1]);
        }
        lemma_word_len_at(s.skip(1), n - 1);
    }
}

/// The texts of a list put together with `sep` between neighbours.
pub open spec fn joined(parts: Seq<Seq<char>>, sep: Seq<char>) -> Seq<char>
    decreases parts.len(),
{
    if parts.len() == 0 {
        Seq::empty()
    } else if parts.len() == 1 {
        parts[0]
    } else {
        joined(parts.drop_last(), sep) + sep + parts.last()
    }
}

/// The texts of a list put together with `sep` between neighbours.
pub fn join_texts(parts: &[String], sep: &str) -> (r: String)
    ensures
        r@ == joined(texts(parts@), sep@),
{
    let mut out = String::new();
    let mut i: usize = 0;
    while i < parts.len()
        invariant
            i <= parts@.len(),
            out@ =~= joined(texts(parts@).take(i as int), sep@),
        decreases parts@.len() - i,
    {
        let ghost done = texts(parts@).take(i as int + 1);
        proof {
            assert(done.drop_last() =~= texts(parts@).take(i as int));
        }
        if i > 0 {
            out.append(sep);
        }
        out.append(parts[i].as_str());
        i = i + 1;
    }
    assert(texts(parts@).take(parts@.len() as int) =~= texts(parts@));
    out
}

/// The words of a text, in order.
pub fn words_of(s: &str) -> (r: Vec<String>)
    ensures
        texts(r@) == words(s@),
{
    let v = chars_of(s);
    let mut out: Vec<String> = Vec::new();
    let mut i: usize = 0;
    proof {
        assert(s@.skip(0) =~= s@);
        assert(texts(out@) =~= Seq::empty());
    }
    while i < v.len()
        invariant
            i <= v@.len(),
            v@ == s@,
            texts(out@) + words(s@.skip(i as int)) =~= words(s@),
        decreases v@.len() - i,
    {
        let ghost rest = s@.skip(i as int);
        if white_space(v[i]) {
            proof {
                assert(rest.skip(1) =~= s@.skip(i as int + 1));
            }
            i = i + 1;
        } else {
            let start: usize = i;
            while i < v.len() && !white_space(v[i])
                invariant
                    start <= i <= v@.len(),
                    v@ == s@,
                    rest == s@.skip(start as int),
                    forall|k: int| 0 <= k < i - start ==> !is_white_space(#[trigger] rest[k]),
                decreases v@.len() - i,
            {
                assert(rest[i - start] == s@[i as int]);
                i = i + 1;
            }
            let ghost before = texts(out@);
            out.push(from_range(v.as_slice(), start, i));
            proof {
                let n = i - start;
                if n < rest.len() {
                    assert(rest[n] == s@[i as int]);
                }
                lemma_word_len_at(rest, n);
                assert(n > 0) by {
                    if n == 0 {
                        assert(is_white_space(rest[0]));
                        assert(rest[0] == s@[start as int]);
                    }
                }
                assert(rest.take(n) =~= s@.subrange(start as int, i as int));
                assert(rest.skip(n) =~= s@.skip(i as int));
                assert(texts(out@) =~= before.push(s@.subrange(start as int, i as int)));
                assert(words(rest) == seq![rest.take(n)] + words(rest.skip(n)));
            }
        }
    }
    proof {
        assert(s@.skip(s@.len() as int) =~= Seq::empty());
    }
    out
}

// ---------------------------------------------------------------------------
// Searching and splitting
// ---------------------------------------------------------------------------

/// The first position of a character, or the length where it is absent.
pub open spec fn first_at(s: Seq<char>, c: char) -> int
    decreases s.len(),
{
    if s.len() == 0 || s[0] == c {
        0
    } else {
        1 + first_at(s.skip(1), c)
    }
}

pub proof fn lemma_first_at(s: Seq<char>, c: char, i: int)
    requires
        0 <= i <= s.len(),
        forall|k: int| 0 <= k < i ==> #[trigger] s[k] != c,
        i < s.len() ==> s[i] == c,
    ensures
        first_at(s, c) == i,
    decreases i,
{
    if i > 0 {
        assert forall|k: int| 0 <= k < i - 1 implies #[trigger] s.skip(1)[k] != c by {
            assert(s.skip(1)[k] == s[k + 1]);
        }
        lemma_first_at(s.skip(1), c, i - 1);
    }
}

pub proof fn lemma_first_at_bounds(s: Seq<char>, c: char)
    ensures
        0 <= first_at(s, c) <= s.len(),
        first_at(s, c) < s.len() ==> s[first_at(s, c)] == c,
        forall|k: int| 0 <= k < first_at(s, c) ==> #[trigger] s[k] != c,
    decreases s.len(),
{
    if s.len() > 0 && s[0] != c {
        lemma_first_at_bounds(s.skip(1), c);
        let n = first_at(s.skip(1), c);
        assert forall|k: int| 0 <= k < n + 1 implies #[trigger] s[k] != c by {
            if k > 0 {
                assert(s.skip(1)[k - 1] == s[k]);
            }
        }
    }
}

/// The first position of a character at or after `from`, or the length.
pub fn find_char(v: &[char], c: char, from: usize) -> (r: usize)
    requires
        from <= v@.len(),
    ensures
        from <= r <= v@.len(),
        r == from + first_at(v@.skip(from as int), c),
        r < v@.len() ==> v@[r as int] == c,
        forall|k: int| from <= k < r ==> #[trigger] v@[k] != c,
{
    let mut i: usize = from;
    while i < v.len() && v[i] != c
        invariant
            from <= i <= v@.len(),
            forall|k: int| from <= k < i ==> #[trigger] v@[k] != c,
        decreases v@.len() - i,
    {
        i = i + 1;
    }
    proof {
        let rest = v@.skip(from as int);
        assert forall|k: int| 0 <= k < i - from implies #[trigger] rest[k] != c by {
            assert(rest[k] == v@[k + from]);
        }
        lemma_first_at(rest, c, i - from);
    }
    i
}

/// The pieces of a text between the occurrences of `sep`; a text without
/// `sep` is its own single piece.
pub open spec fn pieces(s: Seq<char>, sep: char) -> Seq<Seq<char>>
    decreases s.len(),
{
    let i = first_at(s, sep);
    if i < 0 || i >= s.len() {
        seq![s]
    } else {
        seq![s.take(i)] + pieces(s.skip(i + 1), sep)
    }
}

/// The pieces of a text between the occurrences of `sep`.
pub fn split_text(s: &str, sep: char) -> (r: Vec<String>)
    ensures
        texts(r@) == pieces(s@, sep),
        r@.len() >= 1,
{
    let v = chars_of(s);
    let mut out: Vec<String> = Vec::new();
    let mut start: usize = 0;
    proof {
        assert(s@.skip(0) =~= s@);
        assert(texts(out@) =~= Seq::empty());
    }
    loop
        invariant
            start <= v@.len(),
            v@ == s@,
            texts(out@) + pieces(s@.skip(start as int), sep) =~= pieces(s@, sep),
        decreases v@.len() - start,
    {
        let ghost rest = s@.skip(start as int);
        let ghost before = texts(out@);
        let end: usize = find_char(v.as_slice(), sep, start);
        out.push(from_range(v.as_slice(), start, end));
        proof {
            lemma_first_at_bounds(rest, sep);
            assert(rest.take(end - start) =~= s@.subrange(start as int, end as int));
            assert(texts(out@) =~= before.push(s@.subrange(start as int, end as int)));
        }
        if end >= v.len() {
            proof {
                assert(rest.take(rest.len() as int) =~= rest);
                assert(pieces(rest, sep) =~= seq![rest]);
            }
            return out;
        }
        proof {
            assert(rest.skip(end - start + 1) =~= s@.skip(end as int + 1));
            assert(pieces(rest, sep) == seq![rest.take(end - start)] + pieces(
                rest.skip(end - start + 1),
                sep,
            ));
        }
        start = end + 1;
    }
}

/// A text without `sep` is its own single piece.
pub proof fn lemma_pieces_single(s: Seq<char>, sep: char)
    requires
        forall|i: int| 0 <= i < s.len() ==> #[trigger] s[i] != sep,
    ensures
        pieces(s, sep) == seq![s],
{
    lemma_first_at(s, sep, s.len() as int);
}

/// What stands before the first `sep` is the first piece.
pub proof fn lemma_pieces_first(a: Seq<char>, rest: Seq<char>, sep: char)
    requires
        forall|i: int| 0 <= i < a.len() ==> #[trigger] a[i] != sep,
    ensures
        pieces(a + seq![sep] + rest, sep) == seq![a] + pieces(rest, sep),
{
    let s = a + seq![sep] + rest;
    lemma_first_at(s, sep, a.len() as int);
    assert(s.take(a.len() as int) =~= a);
    assert(s.skip(a.len() as int + 1) =~= rest);
}

/// No piece holds the separator, and the pieces with separators between them
/// are the text again.
pub proof fn lemma_pieces_rejoin(s: Seq<char>, sep: char)
    ensures
        pieces(s, sep).len() >= 1,
        joined(pieces(s, sep), seq![sep]) == s,
        forall|i: int, k: int|
            0 <= i < pieces(s, sep).len() && 0 <= k < pieces(s, sep)[i].len()
                ==> #[trigger] pieces(s, sep)[i][k] != sep,
    decreases s.len(),
{
    let i = first_at(s, sep);
    lemma_first_at_bounds(s, sep);
    if i < s.len() {
        let rest = s.skip(i + 1);
        lemma_pieces_rejoin(rest, sep);
        lemma_joined_first(s.take(i), pieces(rest, sep), seq![sep]);
        assert(s =~= s.take(i) + seq![sep] + rest);
    } else {
        assert(s.take(i) =~= s);
    }
}

/// Joining a list is its first text, the separator and the rest joined.
pub proof fn lemma_joined_first(first: Seq<char>, rest: Seq<Seq<char>>, sep: Seq<char>)
    requires
        rest.len() > 0,
    ensures
        joined(seq![first] + rest, sep) == first + sep + joined(rest, sep),
    decreases rest.len(),
{
    let all = seq![first] + rest;
    assert(all.drop_last() =~= seq![first] + rest.drop_last());
    if rest.len() == 1 {
        assert(all.drop_last() =~= seq![first]);
        assert(joined(all.drop_last(), sep) == first);
        assert(all.last() == rest[0]);
    } else {
        lemma_joined_first(first, rest.drop_last(), sep);
        assert(joined(all, sep) =~= first + sep + joined(rest, sep));
    }
}

/// Whether `part` stands in `s` at position `at`.
pub open spec fn stands_at(s: Seq<char>, part: Seq<char>, at: int) -> bool {
    0 <= at && at + part.len() <= s.len() && s.subrange(at, at + part.len()) == part
}

/// Whether `part` stands somewhere in `s`.
pub open spec fn has_part(s: Seq<char>, part: Seq<char>) -> bool {
    exists|at: int| stands_at(s, part, at)
}

fn part_at(s: &[char], part: &[char], at: usize) -> (r: bool)
    requires
        at + part@.len() <= s@.len(),
    ensures
        r == stands_at(s@, part@, at as int),
{
    let n: usize = s.len();
    let mut i: usize = 0;
    while i < part.len()
        invariant
            i <= part@.len(),
            at + part@.len() <= s@.len(),
            n == s@.len(),
            forall|k: int| 0 <= k < i ==> s@[at + k] == #[trigger] part@[k],
        decreases part@.len() - i,
    {
        if s[at + i] != part[i] {
            assert(s@.subrange(at as int, at + part@.len())[i as int] != part@[i as int]);
            return false;
        }
        i = i + 1;
    }
    assert(s@.subrange(at as int, at + part@.len()) =~= part@);
    true
}

/// Whether `part` stands somewhere in `s`.
pub fn contains_text(s: &str, part: &str) -> (r: bool)
    ensures
        r == has_part(s@, part@),
{
    let v = chars_of(s);
    let p = chars_of(part);
    if p.len() > v.len() {
        return false;
    }
    let last: usize = v.len() - p.len();
    let mut i: usize = 0;
    loop
        invariant
            i <= last,
            last == v@.len() - p@.len(),
            v@ == s@,
            p@ == part@,
            forall|k: int| 0 <= k < i ==> !stands_at(v@, p@, k),
        decreases last - i,
    {
        if part_at(v.as_slice(), p.as_slice(), i) {
            return true;
        }
        if i == last {
            return false;
        }
        i = i + 1;
    }
}

/// Whether some text of the list holds the given characters.
pub fn list_has(v: &[String], s: &str) -> (r: bool)
    ensures
        r == texts(v@).contains(s@),
{
    let mut i: usize = 0;
    while i < v.len()
        invariant
            i <= v@.len(),
            forall|k: int| 0 <= k < i ==> #[trigger] texts(v@)[k] != s@,
        decreases v@.len() - i,
    {
        if same_text(v[i].as_str(), s) {
            assert(texts(v@)[i as int] == s@);
            return true;
        }
        i = i + 1;
    }
    false
}

// ---------------------------------------------------------------------------
// Numbers
// ---------------------------------------------------------------------------

/// The character of a decimal digit.
pub open spec fn digit_char(d: int) -> char {
    ((d + 48) as u8) as char
}

/// A number in decimal, without leading zeros.
pub open spec fn decimal(n: nat) -> Seq<char>
    decreases n,
{
    if n < 10 {
        seq![digit_char(n as int)]
    } else {
        decimal(n / 10).push(digit_char((n % 10) as int))
    }
}

/// A number in decimal, with zeros before it up to the given width.
pub open spec fn padded(n: nat, width: nat) -> Seq<char> {
    if decimal(n).len() >= width {
        decimal(n)
    } else {
        Seq::new((width - decimal(n).len()) as nat, |i: int| '0') + decimal(n)
    }
}

/// The number that a row of decimal digits stands for.
pub open spec fn number(s: Seq<char>) -> nat
    decreases s.len(),
{
    if s.len() == 0 {
        0
    } else {
        number(s.drop_last()) * 10 + ((s.last() as u8 - 48) as nat)
    }
}

/// Whether a text is a row of decimal digits.
pub open spec fn is_digits(s: Seq<char>) -> bool {
    forall|i: int| 0 <= i < s.len() ==> is_ascii_digit(#[trigger] s[i])
}

/// The number that a decimal numeral stands for: digits, and no sign.
pub open spec fn unsigned(s: Seq<char>) -> Option<nat> {
    if s.len() > 0 && is_digits(s) {
        Some(number(s))
    } else {
        None
    }
}

/// A decimal numeral is made of digits and stands for its number.
pub proof fn lemma_decimal(n: nat)
    ensures
        is_digits(decimal(n)),
        decimal(n).len() > 0,
        number(decimal(n)) == n,
        n < 10 ==> decimal(n).len() == 1,
        10 <= n < 100 ==> decimal(n).len() == 2,
        100 <= n < 1000 ==> decimal(n).len() == 3,
        1000 <= n < 10000 ==> decimal(n).len() == 4,
    decreases n,
{
    if n < 10 {
        let d = decimal(n);
        assert(d.drop_last() =~= Seq::<char>::empty());
        assert(number(d.drop_last()) == 0);
        assert(d.last() == digit_char(n as int));
        assert((digit_char(n as int) as u8 - 48) as nat == n);
    } else {
        lemma_decimal(n / 10);
        let d = decimal(n);
        assert(d.drop_last() =~= decimal(n / 10));
        assert((digit_char((n % 10) as int) as u8 - 48) as nat == n % 10);
    }
}

/// Zeros before a numeral change neither what it is made of nor its number.
pub proof fn lemma_padded(n: nat, width: nat)
    ensures
        is_digits(padded(n, width)),
        padded(n, width).len() >= width,
        padded(n, width).len() > 0,
        decimal(n).len() <= width ==> padded(n, width).len() == width,
        number(padded(n, width)) == n,
{
    lemma_decimal(n);
    if decimal(n).len() < width {
        lemma_leading_zeros((width - decimal(n).len()) as nat, decimal(n));
    }
}

proof fn lemma_leading_zeros(k: nat, s: Seq<char>)
    ensures
        number(Seq::new(k, |i: int| '0') + s) == number(s),
    decreases k + s.len(),
{
    let zeros = Seq::new(k, |i: int| '0');
    let all = zeros + s;
    if s.len() > 0 {
        assert(all.drop_last() =~= zeros + s.drop_last());
        lemma_leading_zeros(k, s.drop_last());
        assert(all.last() == s.last());
    } else if k > 0 {
        assert(all.drop_last() =~= Seq::new((k - 1) as nat, |i: int| '0') + s);
        lemma_leading_zeros((k - 1) as nat, s);
        assert(all.last() == '0');
    } else {
        assert(all =~= s);
    }
}

/// A row of digits is its own number, padded to its width.
pub proof fn lemma_digits_are_padded(s: Seq<char>)
    requires
        s.len() > 0,
        is_digits(s),
    ensures
        padded(number(s), s.len()) == s,
        decimal(number(s)).len() <= s.len(),
    decreases s.len(),
{
    let d = (s.last() as u8 - 48) as nat;
    assert(is_ascii_digit(s.last()));
    assert(digit_char(d as int) == s.last());
    if s.len() == 1 {
        assert(number(s.drop_last()) == 0);
        assert(decimal(d) =~= s);
        assert(number(s) == d);
    } else {
        let t = s.drop_last();
        assert forall|i: int| 0 <= i < t.len() implies is_ascii_digit(#[trigger] t[i]) by {
            assert(t[i] == s[i]);
        }
        lemma_digits_are_padded(t);
        let n = number(t);
        assert(number(s) == n * 10 + d);
        lemma_decimal(n);
        lemma_decimal(number(s));
        if n == 0 {
            assert(decimal(number(s)) =~= seq![s.last()]);
            assert(decimal(0) =~= seq!['0']);
            assert(t =~= Seq::new(t.len(), |i: int| '0')) by {
                assert(t == padded(0, t.len()));
            }
            assert(padded(number(s), s.len()) =~= s);
        } else {
            assert(number(s) >= 10);
            assert(number(s) / 10 == n && number(s) % 10 == d);
            assert(decimal(number(s)) == decimal(n).push(s.last()));
            assert(padded(number(s), s.len()) =~= padded(n, t.len()).push(s.last()));
            assert(s =~= t.push(s.last()));
        }
    }
}

/// A number in decimal, with at least two digits.
pub open spec fn decimal2(n: nat) -> Seq<char> {
    if n < 10 {
        seq!['0', digit_char(n as int)]
    } else {
        decimal(n)
    }
}

/// An integer in decimal, with a minus sign where it is negative.
pub open spec fn signed_decimal(n: int) -> Seq<char> {
    if n < 0 {
        seq!['-'] + decimal((-n) as nat)
    } else {
        decimal(n as nat)
    }
}

/// A number in decimal.
pub fn u64_text(n: u64) -> (r: String)
    ensures
        r@ == decimal(n as nat),
    decreases n,
{
    if n < 10 {
        let mut out = String::new();
        out.push(((n as u8) + 48) as char);
        assert(out@ =~= decimal(n as nat));
        out
    } else {
        let mut out = u64_text(n / 10);
        out.push((((n % 10) as u8) + 48) as char);
        out
    }
}

/// A number in decimal, with at least two digits.
pub fn u64_text2(n: u64) -> (r: String)
    ensures
        r@ == decimal2(n as nat),
{
    if n < 10 {
        let mut out = String::new();
        out.push('0');
        out.push(((n as u8) + 48) as char);
        assert(out@ =~= decimal2(n as nat));
        out
    } else {
        u64_text(n)
    }
}

/// A number in decimal, with zeros before it up to the given width.
pub fn padded_text(n: u64, width: usize) -> (r: String)
    ensures
        r@ == padded(n as nat, width as nat),
{
    let digits = u64_text(n);
    let have: usize = digits.as_str().unicode_len();
    if have >= width {
        return digits;
    }
    let mut out = String::new();
    let mut i: usize = 0;
    while i < width - have
        invariant
            have < width,
            i <= width - have,
            out@ =~= Seq::new(i as nat, |k: int| '0'),
        decreases width - have - i,
    {
        out.push('0');
        i = i + 1;
    }
    out.append(digits.as_str());
    assert(out@ =~= padded(n as nat, width as nat));
    out
}

/// The number that a decimal numeral stands for, where it is at most `limit`.
pub fn parse_unsigned(s: &str, limit: u64) -> (r: Option<u64>)
    requires
        limit <= 1_000_000_000,
    ensures
        match r {
            Some(n) => unsigned(s@) == Some(n as nat) && n <= limit,
            None => unsigned(s@) is None || unsigned(s@)->0 > limit,
        },
{
    let v = chars_of(s);
    if v.len() == 0 {
        return None;
    }
    let mut n: u64 = 0;
    let mut over = false;
    let mut i: usize = 0;
    assert(v@.take(0) =~= Seq::<char>::empty());
    while i < v.len()
        invariant
            i <= v@.len(),
            v@ == s@,
            limit <= 1_000_000_000,
            is_digits(v@.take(i as int)),
            !over ==> n == number(v@.take(i as int)) && n <= limit,
            over ==> number(v@.take(i as int)) > limit,
        decreases v@.len() - i,
    {
        let c = v[i];
        let ghost done = v@.take(i as int);
        let ghost next = v@.take(i as int + 1);
        proof {
            assert(next.drop_last() =~= done);
            assert(next.last() == c);
        }
        if !ascii_digit(c) {
            assert(!is_digits(v@));
            return None;
        }
        let d: u64 = (c as u8 - 48) as u64;
        proof {
            assert forall|k: int| 0 <= k < next.len() implies is_ascii_digit(#[trigger] next[k]) by {
                if k < done.len() {
                    assert(done[k] == next[k]);
                }
            }
            assert(number(next) == number(done) * 10 + d as nat);
        }
        if !over {
            n = n * 10 + d;
            if n > limit {
                over = true;
            }
        }
        i = i + 1;
    }
    assert(v@.take(v@.len() as int) =~= v@);
    if over {
        None
    } else {
        Some(n)
    }
}

/// An integer in decimal.
pub fn i64_text(n: i64) -> (r: String)
    ensures
        r@ == signed_decimal(n as int),
{
    if n < 0 {
        let m: u64 = if n == i64::MIN { 9_223_372_036_854_775_808u64 } else { (-n) as u64 };
        let mut out = String::new();
        out.push('-');
        let digits = u64_text(m);
        out.append(digits.as_str());
        assert(out@ =~= signed_decimal(n as int));
        out
    } else {
        u64_text(n as u64)
    }
}

// ---------------------------------------------------------------------------
// Facts on words
// ---------------------------------------------------------------------------

/// Whether a text is a word: not empty, and without white space.
pub open spec fn is_word(s: Seq<char>) -> bool {
    &&& s.len() > 0
    &&& forall|i: int| 0 <= i < s.len() ==> !is_white_space(#[trigger] s[i])
}

/// Texts with their ASCII letters lowered.
pub open spec fn lowered_all(v: Seq<Seq<char>>) -> Seq<Seq<char>> {
    Seq::new(v.len(), |i: int| lowered(v[i]))
}

proof fn lemma_word_len_bounds(s: Seq<char>)
    ensures
        word_len(s) <= s.len(),
        forall|k: int| 0 <= k < word_len(s) ==> !is_white_space(#[trigger] s[k]),
        word_len(s) < s.len() ==> is_white_space(s[word_len(s) as int]),
    decreases s.len(),
{
    if s.len() > 0 && !is_white_space(s[0]) {
        lemma_word_len_bounds(s.skip(1));
        assert forall|k: int| 0 <= k < word_len(s) implies !is_white_space(#[trigger] s[k]) by {
            if k > 0 {
                assert(s.skip(1)[k - 1] == s[k]);
            }
        }
    }
}

/// The words of a text are words.
pub proof fn lemma_words_are_words(s: Seq<char>)
    ensures
        forall|i: int| 0 <= i < words(s).len() ==> is_word(#[trigger] words(s)[i]),
    decreases s.len(),
{
    if s.len() > 0 {
        if is_white_space(s[0]) {
            lemma_words_are_words(s.skip(1));
            assert(words(s) == words(s.skip(1)));
        } else {
            let n = word_len(s) as int;
            lemma_word_len_bounds(s);
            assert(n > 0);
            lemma_words_are_words(s.skip(n));
            assert(words(s) == seq![s.take(n)] + words(s.skip(n)));
            assert forall|i: int| 0 <= i < words(s).len() implies is_word(
                #[trigger] words(s)[i],
            ) by {
                if i == 0 {
                    let w = s.take(n);
                    assert(words(s)[0] == w);
                    assert forall|k: int| 0 <= k < w.len() implies !is_white_space(
                        #[trigger] w[k],
                    ) by {
                        assert(w[k] == s[k]);
                    }
                } else {
                    assert(words(s)[i] == words(s.skip(n))[i - 1]);
                }
            }
        }
    }
}

/// Words with a space between neighbours are taken apart into these words.
pub proof fn lemma_words_of_joined(ws: Seq<Seq<char>>)
    requires
        forall|i: int| 0 <= i < ws.len() ==> is_word(#[trigger] ws[i]),
    ensures
        words(joined(ws, seq![' '])) == ws,
    decreases ws.len(),
{
    let s = joined(ws, seq![' ']);
    if ws.len() == 0 {
        assert(words(s) =~= ws);
    } else if ws.len() == 1 {
        let w = ws[0];
        assert(is_word(w));
        lemma_word_len_at(w, w.len() as int);
        assert(w.take(w.len() as int) =~= w);
        assert(w.skip(w.len() as int) =~= Seq::<char>::empty());
        assert(words(Seq::<char>::empty()) =~= Seq::<Seq<char>>::empty());
        assert(words(s) =~= ws);
    } else {
        let w = ws[0];
        let rest = ws.skip(1);
        assert(ws =~= seq![w] + rest);
        assert(is_word(w));
        lemma_joined_first(w, rest, seq![' ']);
        assert forall|i: int| 0 <= i < rest.len() implies is_word(#[trigger] rest[i]) by {
            assert(rest[i] == ws[i + 1]);
        }
        lemma_words_of_joined(rest);
        let tail = joined(rest, seq![' ']);
        let n = w.len() as int;
        assert forall|k: int| 0 <= k < n implies !is_white_space(#[trigger] s[k]) by {
            assert(s[k] == w[k]);
        }
        assert(s[n] == ' ');
        lemma_word_len_at(s, n);
        assert(s.take(n) =~= w);
        let after = s.skip(n);
        assert(after[0] == ' ');
        assert(after.skip(1) =~= tail);
        assert(words(after) == words(tail));
        assert(words(s) =~= ws);
    }
}

/// Lowering a joined list is joining the lowered texts.
pub proof fn lemma_joined_lowered(parts: Seq<Seq<char>>, sep: Seq<char>)
    ensures
        lowered(joined(parts, sep)) == joined(lowered_all(parts), lowered(sep)),
    decreases parts.len(),
{
    let low = lowered_all(parts);
    if parts.len() == 0 {
        assert(lowered(joined(parts, sep)) =~= joined(low, lowered(sep)));
    } else if parts.len() > 1 {
        lemma_joined_lowered(parts.drop_last(), sep);
        assert(low.drop_last() =~= lowered_all(parts.drop_last()));
        assert(lowered(joined(parts, sep)) =~= lowered(joined(parts.drop_last(), sep)) + lowered(
            sep,
        ) + lowered(parts.last()));
    }
}

/// The classes of characters, spelled out: lower case letters, digits, letters
/// and digits, hexadecimal digits.
pub proof fn character_classes_are_ranges(c: char)
    ensures
        is_ascii_lower(c) <==> 97 <= c as u32 <= 122,
        is_ascii_digit(c) <==> 48 <= c as u32 <= 57,
        is_ascii_alphanumeric(c) <==> 97 <= c as u32 <= 122 || 65 <= c as u32 <= 90 || 48 <= c as u32
            <= 57,
        is_ascii_hex_digit(c) <==> 48 <= c as u32 <= 57 || 97 <= c as u32 <= 102 || 65 <= c as u32
            <= 70,
{
}

/// White space is what Unicode calls so, which holds no letter and no digit of
/// ASCII and no other printable character of it but the space.
pub proof fn white_space_is_unicode_white_space(c: char)
    ensures
        c as u32 <= 127 ==> (is_white_space(c) <==> c as u32 == 32 || 9 <= c as u32 <= 13),
        c as u32 > 127 ==> (is_white_space(c) <==> c as u32 == 0x85 || c as u32 == 0xa0 || c as u32
            == 0x1680 || 0x2000 <= c as u32 <= 0x200a || c as u32 == 0x2028 || c as u32 == 0x2029
            || c as u32 == 0x202f || c as u32 == 0x205f || c as u32 == 0x3000),
{
}

/// Lowering maps each letter from A to Z to the one from a to z and keeps
/// every other character, each at its place.
pub proof fn letters_are_lowered_in_place(s: Seq<char>, i: int)
    requires
        0 <= i < s.len(),
    ensures
        lowered(s).len() == s.len(),
        65 <= s[i] as u32 <= 90 ==> lowered(s)[i] as u32 == s[i] as u32 + 32,
        !(65 <= s[i] as u32 <= 90) ==> lowered(s)[i] == s[i],
{
    let c = s[i];
    if 'A' <= c && c <= 'Z' {
        assert((c as u8 + 32) as u8 == c as u32 + 32);
    }
}

/// Trimming takes white space off both ends and nothing else: `from` and `to`
/// bound what is left, which neither starts nor ends with white space.
pub proof fn trimming_takes_white_ends(s: Seq<char>) -> (ends: (int, int))
    ensures
        0 <= ends.0 <= ends.1 <= s.len(),
        trimmed(s) == s.subrange(ends.0, ends.1),
        forall|k: int| 0 <= k < ends.0 ==> is_white_space(#[trigger] s[k]),
        forall|k: int| ends.1 <= k < s.len() ==> is_white_space(#[trigger] s[k]),
        ends.0 < ends.1 ==> !is_white_space(s[ends.0]) && !is_white_space(s[ends.1 - 1]),
{
    let from = lemma_skip_white_from(s);
    let rest = skip_white(s);
    lemma_drop_white_props(rest);
    lemma_drop_white_rest(rest);
    let to = from + drop_white(rest).len();
    assert(trimmed(s) =~= s.subrange(from, to));
    assert forall|k: int| to <= k < s.len() implies is_white_space(#[trigger] s[k]) by {
        assert(rest[k - from] == s[k]);
    }
    if from < to {
        assert(drop_white(rest).last() == rest[to - from - 1]);
        assert(rest[0] == s[from]);
    }
    (from, to)
}

proof fn lemma_skip_white_from(s: Seq<char>) -> (from: int)
    ensures
        0 <= from <= s.len(),
        skip_white(s) == s.skip(from),
        forall|k: int| 0 <= k < from ==> is_white_space(#[trigger] s[k]),
        from < s.len() ==> !is_white_space(s[from]),
    decreases s.len(),
{
    if s.len() > 0 && is_white_space(s[0]) {
        let from = 1 + lemma_skip_white_from(s.skip(1));
        assert(s.skip(1).skip(from - 1) =~= s.skip(from));
        assert forall|k: int| 0 <= k < from implies is_white_space(#[trigger] s[k]) by {
            if k > 0 {
                assert(s.skip(1)[k - 1] == s[k]);
            }
        }
        if from < s.len() {
            assert(s.skip(1)[from - 1] == s[from]);
        }
        from
    } else {
        assert(s.skip(0) =~= s);
        0
    }
}

proof fn lemma_drop_white_rest(s: Seq<char>)
    ensures
        forall|k: int| drop_white(s).len() <= k < s.len() ==> is_white_space(#[trigger] s[k]),
    decreases s.len(),
{
    if s.len() > 0 && is_white_space(s.last()) {
        lemma_drop_white_rest(s.drop_last());
        assert forall|k: int| drop_white(s).len() <= k < s.len() implies is_white_space(
            #[trigger] s[k],
        ) by {
            if k < s.len() - 1 {
                assert(s.drop_last()[k] == s[k]);
            }
        }
    }
}

/// The words of a text stand in it, in their order, each bounded by white
/// space or an end of the text, and whatever is not white space is in one of
/// them. `at` gives the place at which each starts.
pub proof fn words_stand_in_the_text(s: Seq<char>) -> (at: Seq<int>)
    ensures
        at.len() == words(s).len(),
        forall|i: int|
            0 <= i < at.len() ==> {
                let end = #[trigger] at[i] + words(s)[i].len();
                &&& 0 <= at[i] < end <= s.len()
                &&& words(s)[i] == s.subrange(at[i], end)
                &&& end < s.len() ==> is_white_space(s[end])
                &&& at[i] > 0 ==> is_white_space(s[at[i] - 1])
            },
        forall|i: int, j: int| 0 <= i < j < at.len() ==> at[i] + words(s)[i].len() < at[j],
        forall|k: int|
            0 <= k < s.len() && !is_white_space(#[trigger] s[k]) ==> exists|i: int|
                0 <= i < at.len() && #[trigger] at[i] <= k < at[i] + words(s)[i].len(),
    decreases s.len(),
{
    if s.len() == 0 {
        Seq::empty()
    } else if is_white_space(s[0]) {
        let rest = s.skip(1);
        let before = words_stand_in_the_text(rest);
        let at = Seq::new(before.len(), |i: int| before[i] + 1);
        assert(words(s) == words(rest));
        lemma_words_shifted(s, rest, 1, before, at, Seq::empty());
        at
    } else {
        lemma_word_len_bounds(s);
        let n = word_len(s) as int;
        let rest = s.skip(n);
        let before = words_stand_in_the_text(rest);
        let at = seq![0int] + Seq::new(before.len(), |i: int| before[i] + n);
        let w = seq![s.take(n)];
        assert(words(s) == w + words(rest));
        assert(s.take(n) =~= s.subrange(0, n));
        assert(n > 0);
        lemma_words_shifted(
            s,
            rest,
            n,
            before,
            Seq::new(before.len(), |i: int| before[i] + n),
            w,
        );
        let all = words(s);
        assert forall|i: int| 0 <= i < at.len() implies {
            let end = #[trigger] at[i] + all[i].len();
            &&& 0 <= at[i] < end <= s.len()
            &&& all[i] == s.subrange(at[i], end)
            &&& end < s.len() ==> is_white_space(s[end])
            &&& at[i] > 0 ==> is_white_space(s[at[i] - 1])
        } by {
            if i > 0 {
                assert(at[i] == Seq::new(before.len(), |i: int| before[i] + n)[i - 1]);
                assert(all[i] == words(rest)[i - 1]);
                assert(before[i - 1] > 0) by {
                    if before[i - 1] == 0 {
                        lemma_words_are_words(rest);
                        assert(is_word(words(rest)[i - 1]));
                        assert(words(rest)[i - 1][0] == rest[0]);
                        assert(rest[0] == s[n]);
                    }
                }
            }
        }
        assert forall|i: int, j: int| 0 <= i < j < at.len() implies at[i] + all[i].len() < at[j] by {
            assert(all[j] == words(rest)[j - 1]);
            assert(at[j] == before[j - 1] + n);
            if i > 0 {
                assert(all[i] == words(rest)[i - 1]);
                assert(before[i - 1] + words(rest)[i - 1].len() < before[j - 1]);
            } else {
                assert(before[j - 1] > 0) by {
                    if before[j - 1] == 0 {
                        lemma_words_are_words(rest);
                        assert(is_word(words(rest)[j - 1]));
                        assert(words(rest)[j - 1][0] == rest[0]);
                        assert(rest[0] == s[n]);
                    }
                }
            }
        }
        assert forall|k: int| 0 <= k < s.len() && !is_white_space(#[trigger] s[k]) implies exists|
            i: int,
        |
            0 <= i < at.len() && #[trigger] at[i] <= k < at[i] + all[i].len() by {
            if k < n {
                assert(at[0] <= k < at[0] + all[0].len());
            } else {
                assert(rest[k - n] == s[k]);
                let i = choose|i: int|
                    0 <= i < before.len() && #[trigger] before[i] <= k - n < before[i] + words(
                        rest,
                    )[i].len();
                assert(at[i + 1] == before[i] + n);
                assert(all[i + 1] == words(rest)[i]);
            }
        }
        at
    }
}

/// What holds of the words of the rest of a text holds of them in the text,
/// further on.
proof fn lemma_words_shifted(
    s: Seq<char>,
    rest: Seq<char>,
    n: int,
    before: Seq<int>,
    at: Seq<int>,
    first: Seq<Seq<char>>,
)
    requires
        1 <= n <= s.len(),
        rest == s.skip(n),
        words(s) == first + words(rest),
        before.len() == words(rest).len(),
        at == Seq::new(before.len(), |i: int| before[i] + n),
        n == 1 && first.len() == 0 ==> is_white_space(s[0]),
        forall|i: int|
            0 <= i < before.len() ==> {
                let end = #[trigger] before[i] + words(rest)[i].len();
                &&& 0 <= before[i] < end <= rest.len()
                &&& words(rest)[i] == rest.subrange(before[i], end)
                &&& end < rest.len() ==> is_white_space(rest[end])
                &&& before[i] > 0 ==> is_white_space(rest[before[i] - 1])
            },
        forall|k: int|
            0 <= k < rest.len() && !is_white_space(#[trigger] rest[k]) ==> exists|i: int|
                0 <= i < before.len() && #[trigger] before[i] <= k < before[i] + words(
                    rest,
                )[i].len(),
    ensures
        forall|i: int|
            0 <= i < at.len() ==> {
                let end = #[trigger] at[i] + words(rest)[i].len();
                &&& n <= at[i] < end <= s.len()
                &&& words(rest)[i] == s.subrange(at[i], end)
                &&& end < s.len() ==> is_white_space(s[end])
                &&& at[i] > n || n == 1 && first.len() == 0 ==> is_white_space(s[at[i] - 1])
            },
        forall|k: int|
            n <= k < s.len() && !is_white_space(#[trigger] s[k]) ==> exists|i: int|
                0 <= i < at.len() && #[trigger] at[i] <= k < at[i] + words(rest)[i].len(),
{
    assert forall|i: int| 0 <= i < at.len() implies {
        let end = #[trigger] at[i] + words(rest)[i].len();
        &&& n <= at[i] < end <= s.len()
        &&& words(rest)[i] == s.subrange(at[i], end)
        &&& end < s.len() ==> is_white_space(s[end])
        &&& at[i] > n || n == 1 && first.len() == 0 ==> is_white_space(s[at[i] - 1])
    } by {
        let b = before[i];
        let end = at[i] + words(rest)[i].len();
        assert(at[i] == b + n);
        assert(rest.subrange(b, end - n) =~= s.subrange(at[i], end));
        if end < s.len() {
            assert(rest[end - n] == s[end]);
        }
        if b > 0 {
            assert(rest[b - 1] == s[at[i] - 1]);
        }
    }
    assert forall|k: int| n <= k < s.len() && !is_white_space(#[trigger] s[k]) implies exists|i: int|
        0 <= i < at.len() && #[trigger] at[i] <= k < at[i] + words(rest)[i].len() by {
        assert(rest[k - n] == s[k]);
        let i = choose|i: int|
            0 <= i < before.len() && #[trigger] before[i] <= k - n < before[i] + words(
                rest,
            )[i].len();
        assert(at[i] == before[i] + n);
    }
}

/// A numeral has no zero before its number, and its digits are those of the
/// number: the last one is the rest of dividing by ten, the others are the
/// numeral of the quotient.
pub proof fn numerals_are_written_in_base_ten(n: nat)
    ensures
        n > 0 ==> decimal(n)[0] as u32 != 48,
        decimal(n).last() as u32 == 48 + n % 10,
        n >= 10 ==> decimal(n).drop_last() == decimal(n / 10),
        n < 10 ==> decimal(n).len() == 1,
    decreases n,
{
    lemma_decimal(n);
    assert(digit_char((n % 10) as int) as u32 == 48 + n % 10);
    if n >= 10 {
        numerals_are_written_in_base_ten(n / 10);
        assert(decimal(n).drop_last() =~= decimal(n / 10));
        assert(decimal(n)[0] == decimal(n / 10)[0]);
    }
}

/// The number of a row of digits is ten times that of all but its last digit,
/// and that digit; a text is a numeral exactly when it is such a row and not
/// empty.
pub proof fn digits_are_read_in_base_ten(s: Seq<char>)
    requires
        s.len() > 0,
        forall|i: int| 0 <= i < s.len() ==> 48 <= (#[trigger] s[i]) as u32 <= 57,
    ensures
        unsigned(s) == Some(number(s)),
        s.len() == 1 ==> number(s) == s[0] as u32 - 48,
        number(s) == 10 * number(s.drop_last()) + (s.last() as u32 - 48),
{
    assert(is_digits(s)) by {
        assert forall|i: int| 0 <= i < s.len() implies is_ascii_digit(#[trigger] s[i]) by {
            character_classes_are_ranges(s[i]);
        }
    }
    assert(is_ascii_digit(s.last()));
    if s.len() == 1 {
        assert(s.drop_last() =~= Seq::<char>::empty());
        assert(number(s.drop_last()) == 0);
    }
}

/// A text that holds anything but digits is no numeral, nor is an empty one.
pub proof fn other_texts_are_no_numerals(s: Seq<char>)
    requires
        s.len() == 0 || exists|i: int| 0 <= i < s.len() && !(48 <= (#[trigger] s[i]) as u32 <= 57),
    ensures
        unsigned(s) is None,
{
    if s.len() > 0 {
        let i = choose|i: int| 0 <= i < s.len() && !(48 <= (#[trigger] s[i]) as u32 <= 57);
        character_classes_are_ranges(s[i]);
        assert(!is_ascii_digit(s[i]));
    }
}

/// An integer is written with a minus sign exactly when it is negative, and a
/// numeral of two places with one zero before a single digit.
pub proof fn signs_and_zeros_are_written(n: int, m: nat)
    ensures
        n < 0 ==> signed_decimal(n) == seq!['-'] + decimal((-n) as nat),
        n >= 0 ==> signed_decimal(n) == decimal(n as nat),
        m < 10 ==> decimal2(m) == seq!['0'] + decimal(m),
        m >= 10 ==> decimal2(m) == decimal(m),
{
    assert(m < 10 ==> decimal2(m) =~= seq!['0'] + decimal(m));
}

} // verus!
