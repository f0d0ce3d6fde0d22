//! Character sequences: searching, splitting at a separator, lines, words and
//! trimming. The specifications are stated over `Seq<char>`, the view of a
//! `str`; the executable functions work on a `Vec<char>` and on positions in it.
use vstd::prelude::*;
use vstd::string::*;

use crate::request::lacks;

verus! {

// ---------------------------------------------------------------------------
// Searching
// ---------------------------------------------------------------------------
/// `p` stands in `s` at position `i`.
pub open spec fn occurs_at<T>(s: Seq<T>, p: Seq<T>, i: int) -> bool {
    &&& 0 <= i
    &&& i + p.len() <= s.len()
    &&& s.subrange(i, i + p.len()) == p
}

/// `p` stands somewhere in `s`.
pub open spec fn contains<T>(s: Seq<T>, p: Seq<T>) -> bool {
    exists|i: int| occurs_at(s, p, i)
}

/// The position of the first `c` in `s`, or the length of `s` if there is none.
pub open spec fn first(s: Seq<char>, c: char) -> nat
    decreases s.len(),
{
    if s.len() == 0 || s[0] == c {
        0
    } else {
        1 + first(s.drop_first(), c)
    }
}

/// What stands in `s` before the first `c`, which is all of `s` if there is none.
pub open spec fn before(s: Seq<char>, c: char) -> Seq<char> {
    s.take(first(s, c) as int)
}

pub(crate) proof fn lemma_first(s: Seq<char>, c: char)
    ensures
        first(s, c) <= s.len(),
        forall|k: int| 0 <= k < first(s, c) ==> s[k] != c,
        first(s, c) < s.len() ==> s[first(s, c) as int] == c,
    decreases s.len(),
{
    if s.len() > 0 && s[0] != c {
        let t = s.drop_first();
        lemma_first(t, c);
        assert forall|k: int| 0 <= k < first(s, c) implies s[k] != c by {
            if k > 0 {
                assert(s[k] == t[k - 1]);
            }
        }
    }
}

/// `first` is the only position with its properties.
pub(crate) proof fn lemma_first_is(s: Seq<char>, c: char, n: int)
    requires
        0 <= n <= s.len(),
        forall|k: int| 0 <= k < n ==> s[k] != c,
        n < s.len() ==> s[n] == c,
    ensures
        first(s, c) == n,
{
    lemma_first(s, c);
    if first(s, c) < n {
        assert(s[first(s, c) as int] != c);
    }
}

/// A piece in the middle of a sequence is contained in it.
pub(crate) proof fn lemma_contains_middle<T>(a: Seq<T>, p: Seq<T>, b: Seq<T>)
    ensures
        contains(a + p + b, p),
{
    assert((a + p + b).subrange(a.len() as int, (a.len() + p.len()) as int) =~= p);
    assert(occurs_at(a + p + b, p, a.len() as int));
}

// ---------------------------------------------------------------------------
// Splitting
// ---------------------------------------------------------------------------
/// The parts of `s` between the separators `c`: always one more than there are
/// separators, empty parts included.
pub open spec fn split(s: Seq<char>, c: char) -> Seq<Seq<char>>
    decreases s.len(),
{
    let n = first(s, c);
    if n >= s.len() {
        seq![s]
    } else {
        seq![s.take(n as int)] + split(s.skip(n as int + 1), c)
    }
}

/// `s` without the `c`s at its start.
pub open spec fn trim_start_char(s: Seq<char>, c: char) -> Seq<char>
    decreases s.len(),
{
    if s.len() == 0 || s[0] != c {
        s
    } else {
        trim_start_char(s.drop_first(), c)
    }
}

/// A line without the carriage return that belongs to its ending.
pub open spec fn strip_cr(s: Seq<char>) -> Seq<char> {
    if s.len() > 0 && s.last() == '\r' {
        s.drop_last()
    } else {
        s
    }
}

/// The lines of `s`: each ends with a line feed, or with a carriage return and
/// a line feed, or where `s` ends. Nothing after a final line ending is no line.
pub open spec fn lines(s: Seq<char>) -> Seq<Seq<char>>
    decreases s.len(),
{
    if s.len() == 0 {
        Seq::empty()
    } else {
        let n = first(s, '\n');
        if n >= s.len() {
            seq![s]
        } else {
            seq![strip_cr(s.take(n as int))] + lines(s.skip(n as int + 1))
        }
    }
}

// ---------------------------------------------------------------------------
// White space
// ---------------------------------------------------------------------------
/// The characters that have the Unicode property `White_Space`.
pub open spec fn is_white(c: char) -> bool {
    let u = c as u32;
    ||| 0x9 <= u <= 0xd
    ||| u == 0x20
    ||| u == 0x85
    ||| u == 0xa0
    ||| u == 0x1680
    ||| 0x2000 <= u <= 0x200a
    ||| u == 0x2028
    ||| u == 0x2029
    ||| u == 0x202f
    ||| u == 0x205f
    ||| u == 0x3000
}

/// The length of the white space (`white`) or of the word (`!white`) at the
/// start of `s`.
pub open spec fn run(s: Seq<char>, white: bool) -> nat
    decreases s.len(),
{
    if s.len() == 0 || is_white(s[0]) != white {
        0
    } else {
        1 + run(s.drop_first(), white)
    }
}

pub(crate) proof fn lemma_run(s: Seq<char>, white: bool)
    ensures
        run(s, white) <= s.len(),
        forall|k: int| 0 <= k < run(s, white) ==> is_white(#[trigger] s[k]) == white,
        run(s, white) < s.len() ==> is_white(s[run(s, white) as int]) != white,
    decreases s.len(),
{
    if s.len() > 0 && is_white(s[0]) == white {
        let t = s.drop_first();
        lemma_run(t, white);
        assert forall|k: int| 0 <= k < run(s, white) implies is_white(#[trigger] s[k]) == white by {
            if k > 0 {
                assert(s[k] == t[k - 1]);
            }
        }
        assert(run(s, white) < s.len() ==> s[run(s, white) as int] == t[run(t, white) as int]);
    }
}

/// `run` is the only length with its properties.
pub(crate) proof fn lemma_run_is(s: Seq<char>, white: bool, n: int)
    requires
        0 <= n <= s.len(),
        forall|k: int| 0 <= k < n ==> is_white(#[trigger] s[k]) == white,
        n < s.len() ==> is_white(s[n]) != white,
    ensures
        run(s, white) == n,
{
    lemma_run(s, white);
    if run(s, white) < n {
        assert(is_white(s[run(s, white) as int]) == white);
    } else if n < run(s, white) {
        assert(is_white(s[n]) == white);
    }
}

/// The words of `s`: its longest pieces without white space.
pub open spec fn words(s: Seq<char>) -> Seq<Seq<char>>
    decreases s.len(),
{
    if s.len() == 0 {
        Seq::empty()
    } else if is_white(s[0]) {
        words(s.drop_first())
    } else {
        let n = run(s, false);
        if n >= s.len() {
            seq![s]
        } else {
            seq![s.take(n as int)] + words(s.skip(n as int))
        }
    }
}

/// `s` without the white space at its start.
pub open spec fn trim_start(s: Seq<char>) -> Seq<char> {
    s.skip(run(s, true) as int)
}

/// `s` without the white space at its end.
pub open spec fn trim_end(s: Seq<char>) -> Seq<char>
    decreases s.len(),
{
    if s.len() == 0 || !is_white(s.last()) {
        s
    } else {
        trim_end(s.drop_last())
    }
}

/// `s` without the white space at both ends.
pub open spec fn trim(s: Seq<char>) -> Seq<char> {
    trim_end(trim_start(s))
}

/// White space at the start changes nothing about the words.
pub(crate) proof fn lemma_words_skip_white(s: Seq<char>, n: int)
    requires
        0 <= n <= s.len(),
        forall|k: int| 0 <= k < n ==> is_white(#[trigger] s[k]),
    ensures
        words(s) == words(s.skip(n)),
    decreases n,
{
    if n == 0 {
        assert(s.skip(0) =~= s);
    } else {
        assert(is_white(s[0]));
        let t = s.drop_first();
        assert forall|k: int| 0 <= k < n - 1 implies is_white(#[trigger] t[k]) by {
            assert(t[k] == s[k + 1]);
        }
        lemma_words_skip_white(t, n - 1);
        assert(t.skip(n - 1) =~= s.skip(n));
    }
}

/// What is left of `s` after `trim_end` is a prefix, found by its last character.
pub(crate) proof fn lemma_trim_end_is(s: Seq<char>, n: int)
    requires
        0 <= n <= s.len(),
        forall|k: int| n <= k < s.len() ==> is_white(#[trigger] s[k]),
        n > 0 ==> !is_white(s[n - 1]),
    ensures
        trim_end(s) == s.take(n),
    decreases s.len(),
{
    if n == s.len() {
        assert(s.take(n) =~= s);
    } else {
        assert(is_white(s[s.len() - 1]));
        let t = s.drop_last();
        assert forall|k: int| n <= k < t.len() implies is_white(#[trigger] t[k]) by {
            assert(t[k] == s[k]);
        }
        lemma_trim_end_is(t, n);
        assert(t.take(n) =~= s.take(n));
    }
}

// ---------------------------------------------------------------------------
// Executable
// ---------------------------------------------------------------------------
/// The characters of `s`, in order.
pub fn chars_of(s: &str) -> (v: Vec<char>)
    ensures
        v@ == s@,
{
    let mut v: Vec<char> = Vec::new();
    for c in it: s.chars()
        invariant
            v@ == it.seq().take(it.index() as int),
            it.seq() == s@,
    {
        v.push(c);
    }
    v
}

/// Whether `c` has the Unicode property `White_Space`.
pub fn is_white_space(c: char) -> (r: bool)
    ensures
        r == is_white(c),
{
    let u: u32 = c as u32;
    (0x9 <= u && u <= 0xd) || u == 0x20 || u == 0x85 || u == 0xa0 || u == 0x1680 || (0x2000 <= u && u
        <= 0x200a) || u == 0x2028 || u == 0x2029 || u == 0x202f || u == 0x205f || u == 0x3000
}

/// The position of the first `c` in `v[from..to]`, or `to` if there is none.
pub(crate) fn find_char(v: &Vec<char>, c: char, from: usize, to: usize) -> (i: usize)
    requires
        from <= to <= v.len(),
    ensures
        i == from + first(v@.subrange(from as int, to as int), c),
        from <= i <= to,
        i < to ==> v[i as int] == c,
{
    let mut i: usize = from;
    while i < to && v[i] != c
        invariant
            from <= i <= to <= v.len(),
            forall|k: int| from <= k < i ==> v[k] != c,
        decreases to - i,
    {
        i = i + 1;
    }
    proof {
        lemma_first_is(v@.subrange(from as int, to as int), c, i - from);
    }
    i
}

/// The end of the white space (`white`) or of the word (`!white`) that starts
/// at `from` in `v[..to]`.
pub(crate) fn skip_run(v: &Vec<char>, white: bool, from: usize, to: usize) -> (i: usize)
    requires
        from <= to <= v.len(),
    ensures
        i == from + run(v@.subrange(from as int, to as int), white),
        from <= i <= to,
        forall|k: int| from <= k < i ==> is_white(#[trigger] v[k]) == white,
        i < to ==> is_white(v[i as int]) != white,
{
    let mut i: usize = from;
    while i < to && is_white_space(v[i]) == white
        invariant
            from <= i <= to <= v.len(),
            forall|k: int| from <= k < i ==> is_white(#[trigger] v[k]) == white,
        decreases to - i,
    {
        i = i + 1;
    }
    proof {
        lemma_run_is(v@.subrange(from as int, to as int), white, i - from);
    }
    i
}

/// Whether the characters `p` stand in `v` at position `at`.
fn matches_at(v: &Vec<char>, p: &Vec<char>, at: usize) -> (r: bool)
    requires
        at <= v.len(),
    ensures
        r == occurs_at(v@, p@, at as int),
{
    if v.len() - at < p.len() {
        return false;
    }
    let mut k: usize = 0;
    while k < p.len()
        invariant
            k <= p.len() <= v.len() - at,
            forall|j: int| 0 <= j < k ==> v[at + j] == p[j],
        decreases p.len() - k,
    {
        if v[at + k] != p[k] {
            assert(v@.subrange(at as int, at + p.len())[k as int] != p@[k as int]);
            return false;
        }
        k = k + 1;
    }
    assert(v@.subrange(at as int, at + p.len()) =~= p@);
    true
}

/// Whether `needle` stands somewhere in the text `v`.
pub(crate) fn contains_text(v: &Vec<char>, needle: &str) -> (r: bool)
    ensures
        r == contains(v@, needle@),
{
    let p: Vec<char> = chars_of(needle);
    let mut i: usize = 0;
    while i < v.len()
        invariant
            i <= v.len(),
            p@ == needle@,
            forall|k: int| 0 <= k < i ==> !occurs_at(v@, p@, k),
        decreases v.len() - i,
    {
        if matches_at(v, &p, i) {
            return true;
        }
        i = i + 1;
    }
    matches_at(v, &p, i)
}

/// Whether the characters `v[from..to]` are those of `word`.
pub(crate) fn range_is(v: &Vec<char>, from: usize, to: usize, word: &str) -> (r: bool)
    requires
        from <= to <= v.len(),
    ensures
        r == (v@.subrange(from as int, to as int) == word@),
{
    let p: Vec<char> = chars_of(word);
    if p.len() != to - from {
        return false;
    }
    matches_at(v, &p, from)
}

/// Whether two texts are the same.
pub fn same_text(a: &str, b: &str) -> (r: bool)
    ensures
        r == (a@ == b@),
{
    let v: Vec<char> = chars_of(a);
    assert(v@.subrange(0, v.len() as int) =~= v@);
    range_is(&v, 0, v.len(), b)
}

// ---------------------------------------------------------------------------
// Laws
// ---------------------------------------------------------------------------
/// `s` holds `p`: something stands before it, and something behind it.
pub open spec fn holds<T>(s: Seq<T>, p: Seq<T>) -> bool {
    exists|a: Seq<T>, b: Seq<T>| s == #[trigger] (a + p + b)
}

/// Every element of `s` is white space.
pub open spec fn is_blank(s: Seq<char>) -> bool {
    forall|k: int| 0 <= k < s.len() ==> is_white(#[trigger] s[k])
}

/// A text contains what stands in it with something before and something behind,
/// and nothing else.
pub proof fn law_contains<T>(s: Seq<T>, p: Seq<T>)
    ensures
        contains(s, p) <==> holds(s, p),
{
    if contains(s, p) {
        let i = choose|i: int| occurs_at(s, p, i);
        let a = s.take(i);
        let b = s.skip(i + p.len());
        assert(s =~= a + p + b);
        assert(holds(s, p));
    }
    if holds(s, p) {
        let (a, b) = choose|a: Seq<T>, b: Seq<T>| s == #[trigger] (a + p + b);
        lemma_contains_middle(a, p, b);
    }
}

/// A text is split at its first separator, and then what stands behind it is. A
/// text without separator is one part.
pub proof fn law_split_at_separator(a: Seq<char>, c: char, rest: Seq<char>)
    requires
        lacks(a, c),
    ensures
        split(a + seq![c] + rest, c) == seq![a] + split(rest, c),
        split(a, c) == seq![a],
{
    let s = a + seq![c] + rest;
    assert(s[a.len() as int] == c);
    assert forall|k: int| 0 <= k < a.len() implies s[k] != c by {
        assert(s[k] == a[k]);
    }
    lemma_first_is(s, c, a.len() as int);
    lemma_first_is(a, c, a.len() as int);
    assert(s.take(a.len() as int) =~= a);
    assert(s.skip(a.len() as int + 1) =~= rest);
}

/// A line ends with a line feed, with a carriage return before it or not, and what
/// stands behind it is read in the same way. What no line feed follows is a line
/// too, unless it is empty.
pub proof fn law_lines_are_read(line: Seq<char>, rest: Seq<char>)
    requires
        lacks(line, '\n'),
    ensures
        lines(line + seq!['\r', '\n'] + rest) == seq![line] + lines(rest),
        (line.len() == 0 || line.last() != '\r') ==> lines(line + seq!['\n'] + rest) == seq![line]
            + lines(rest),
        lines(line) == (if line.len() == 0 {
            Seq::<Seq<char>>::empty()
        } else {
            seq![line]
        }),
{
    let n = line.len() as int;
    let s = line + seq!['\r', '\n'] + rest;
    assert forall|k: int| 0 <= k < n + 1 implies s[k] != '\n' by {
        if k < n {
            assert(s[k] == line[k]);
        }
    }
    assert(s[n + 1] == '\n');
    lemma_first_is(s, '\n', n + 1);
    assert(s.take(n + 1) =~= line.push('\r'));
    assert(strip_cr(s.take(n + 1)) =~= line);
    assert(s.skip(n + 2) =~= rest);
    let t = line + seq!['\n'] + rest;
    assert forall|k: int| 0 <= k < n implies t[k] != '\n' by {
        assert(t[k] == line[k]);
    }
    assert(t[n] == '\n');
    lemma_first_is(t, '\n', n);
    assert(t.take(n) =~= line);
    assert(t.skip(n + 1) =~= rest);
    lemma_first_is(line, '\n', n);
}

/// Words are what stands between white space: the first one is read off, and then
/// what stands behind it is read in the same way.
pub proof fn law_words_are_read(blank: Seq<char>, word: Seq<char>, sep: char, rest: Seq<char>)
    requires
        is_blank(blank),
        word.len() > 0,
        forall|k: int| 0 <= k < word.len() ==> !is_white(#[trigger] word[k]),
        is_white(sep),
    ensures
        words(blank) == Seq::<Seq<char>>::empty(),
        words(blank + word) == seq![word],
        words(blank + word + seq![sep] + rest) == seq![word] + words(rest),
{
    let n = blank.len() as int;
    lemma_words_skip_white(blank, n);
    assert(blank.skip(n).len() == 0);
    let s = blank + word;
    assert forall|k: int| 0 <= k < n implies is_white(#[trigger] s[k]) by {
        assert(s[k] == blank[k]);
    }
    lemma_words_skip_white(s, n);
    assert(s.skip(n) =~= word);
    lemma_run_is(word, false, word.len() as int);
    assert(!is_white(word[0]));
    let t = blank + word + seq![sep] + rest;
    assert forall|k: int| 0 <= k < n implies is_white(#[trigger] t[k]) by {
        assert(t[k] == blank[k]);
    }
    lemma_words_skip_white(t, n);
    let u = word + seq![sep] + rest;
    assert(t.skip(n) =~= u);
    let m = word.len() as int;
    assert forall|k: int| 0 <= k < m implies is_white(#[trigger] u[k]) == false by {
        assert(u[k] == word[k]);
    }
    assert(u[m] == sep);
    lemma_run_is(u, false, m);
    assert(!is_white(u[0])) by {
        assert(u[0] == word[0]);
    }
    assert(u.take(m) =~= word);
    let v = u.skip(m);
    assert(v[0] == sep);
    lemma_words_skip_white(v, 1);
    assert(v.skip(1) =~= rest);
    assert(words(u) == seq![u.take(m)] + words(v));
}

/// Trimming takes the white space off both ends, and nothing else.
pub proof fn law_trim(a: Seq<char>, core: Seq<char>, b: Seq<char>)
    requires
        is_blank(a),
        is_blank(b),
        core.len() > 0 ==> !is_white(core[0]) && !is_white(core.last()),
    ensures
        trim(a + core + b) == core,
{
    let s = a + core + b;
    let n = a.len() as int;
    if core.len() == 0 {
        assert forall|k: int| 0 <= k < s.len() implies is_white(#[trigger] s[k]) == true by {
            if k < n {
                assert(s[k] == a[k]);
            } else {
                assert(s[k] == b[k - n]);
            }
        }
        lemma_run_is(s, true, s.len() as int);
        assert(trim_start(s).len() == 0);
        assert(trim(s) =~= core);
    } else {
        assert forall|k: int| 0 <= k < n implies is_white(#[trigger] s[k]) == true by {
            assert(s[k] == a[k]);
        }
        assert(s[n] == core[0]);
        lemma_run_is(s, true, n);
        let t = s.skip(n);
        assert(t =~= core + b);
        let m = core.len() as int;
        assert forall|k: int| m <= k < t.len() implies is_white(#[trigger] t[k]) by {
            assert(t[k] == b[k - m]);
        }
        assert(t[m - 1] == core.last());
        lemma_trim_end_is(t, m);
        assert(t.take(m) =~= core);
    }
}

/// In ASCII, white space is the space, and the tab with the four line and page
/// breaks that follow it.
pub proof fn law_ascii_white(c: char)
    requires
        c <= '\u{7f}',
    ensures
        is_white(c) <==> (c == ' ' || c == '\t' || c == '\n' || c == '\u{b}' || c == '\u{c}' || c
            == '\r'),
{
}

} // verus!
