//! Reading HTTP requests: the request line, the session that a path names, and
//! the announced length of a body.
use vstd::prelude::*;
use vstd::string::*;

use crate::number::{
    decimal, is_digit, law_decimal_reads_back, lemma_decimal, opt_nat, parse_unsigned, read_unsigned,
};
use crate::text::{
    before, chars_of, find_char, first, is_blank, is_white, law_lines_are_read,
    law_split_at_separator, law_trim, law_words_are_read, lines, range_is, run, skip_run, split,
    strip_cr, trim, trim_start, trim_start_char, words,
};
use crate::utf8::{decode_lossy, keeps_valid, utf8_lossy};

verus! {

// ---------------------------------------------------------------------------
// Request line
// ---------------------------------------------------------------------------
/// The method and the target of a request: the first two words of its first line.
pub open spec fn method_and_target(data: Seq<char>) -> Option<(Seq<char>, Seq<char>)> {
    if lines(data).len() > 0 && words(lines(data)[0]).len() >= 2 {
        Some((words(lines(data)[0])[0], words(lines(data)[0])[1]))
    } else {
        None
    }
}

/// The view of an optional pair of texts.
pub open spec fn opt_texts(r: Option<(String, String)>) -> Option<(Seq<char>, Seq<char>)> {
    match r {
        Some((a, b)) => Some((a@, b@)),
        None => None,
    }
}

/// The first word of a text, and what comes after it.
proof fn lemma_first_word(s: Seq<char>, a: int, b: int)
    requires
        a == run(s, true),
        b == a + run(s.skip(a), false),
    ensures
        0 <= a <= b <= s.len(),
        a == s.len() ==> words(s) == Seq::<Seq<char>>::empty(),
        a < s.len() ==> words(s) == seq![s.subrange(a, b)] + words(s.skip(b)),
{
    crate::text::lemma_run(s, true);
    crate::text::lemma_words_skip_white(s, a);
    let t = s.skip(a);
    crate::text::lemma_run(t, false);
    if a < s.len() {
        assert(t[0] == s[a]);
        if b == s.len() {
            assert(t =~= s.subrange(a, b));
            assert(s.skip(b).len() == 0);
            assert(words(s) =~= seq![s.subrange(a, b)] + words(s.skip(b)));
        } else {
            assert(t.take(b - a) =~= s.subrange(a, b));
            assert(t.skip(b - a) =~= s.skip(b));
        }
    }
}

/// The first line of a text that is not empty.
proof fn lemma_first_line(s: Seq<char>)
    requires
        s.len() > 0,
    ensures
        lines(s).len() > 0,
        lines(s)[0] == (if first(s, '\n') < s.len() {
            strip_cr(before(s, '\n'))
        } else {
            s
        }),
{
}

/// The first two words of a line, by their positions.
proof fn lemma_two_words(line: Seq<char>, a: int, b: int, c: int, d: int)
    requires
        a == run(line, true),
        b == a + run(line.skip(a), false),
        c == b + run(line.skip(b), true),
        d == c + run(line.skip(c), false),
    ensures
        0 <= a <= b <= c <= d <= line.len(),
        words(line).len() >= 2 <==> c < line.len(),
        c < line.len() ==> words(line)[0] == line.subrange(a, b) && words(line)[1]
            == line.subrange(c, d),
{
    lemma_first_word(line, a, b);
    let rest = line.skip(b);
    assert(rest.skip(c - b) =~= line.skip(c)) by {
        crate::text::lemma_run(rest, true);
    }
    lemma_first_word(rest, c - b, d - b);
    assert(rest.subrange(c - b, d - b) =~= line.subrange(c, d));
}

/// Reads the method and the target from the first line of a request. `None`
/// where there is no line, or fewer than two words on it.
#[verifier::rlimit(40)]
pub fn parse_http_request(data: &str) -> (r: Option<(String, String)>)
    ensures
        opt_texts(r) == method_and_target(data@),
{
    let v: Vec<char> = chars_of(data);
    if v.len() == 0 {
        return None;
    }
    let n: usize = find_char(&v, '\n', 0, v.len());
    let end: usize = if n < v.len() && n > 0 && v[n - 1] == '\r' {
        n - 1
    } else {
        n
    };
    let ghost line = v@.subrange(0, end as int);
    proof {
        assert(v@.subrange(0, v.len() as int) =~= v@);
        lemma_first_line(v@);
        assert(lines(v@)[0] =~= line);
    }
    let a: usize = skip_run(&v, true, 0, end);
    assert(v@.subrange(a as int, end as int) =~= line.skip(a as int));
    let b: usize = skip_run(&v, false, a, end);
    assert(v@.subrange(b as int, end as int) =~= line.skip(b as int));
    let c: usize = skip_run(&v, true, b, end);
    assert(v@.subrange(c as int, end as int) =~= line.skip(c as int));
    let d: usize = skip_run(&v, false, c, end);
    proof {
        lemma_two_words(line, a as int, b as int, c as int, d as int);
        assert(line.subrange(a as int, b as int) =~= v@.subrange(a as int, b as int));
        assert(line.subrange(c as int, d as int) =~= v@.subrange(c as int, d as int));
    }
    if c < end {
        Some((data.substring_char(a, b).to_owned(), data.substring_char(c, d).to_owned()))
    } else {
        None
    }
}

// ---------------------------------------------------------------------------
// Session path
// ---------------------------------------------------------------------------
/// The first path segments that announce a session identifier in the second.
pub open spec fn is_tunnel_prefix(s: Seq<char>) -> bool {
    s == "ssh"@ || s == "xhttp"@ || s == "split"@
}

/// The segments of a path: the query and the leading slashes do not count.
pub open spec fn segments(path: Seq<char>) -> Seq<Seq<char>> {
    split(trim_start_char(before(path, '?'), '/'), '/')
}

/// The session identifier that a path names, and the sequence number behind it.
pub open spec fn path_info(path: Seq<char>) -> (Seq<char>, Option<nat>) {
    let p = segments(path);
    if p[0].len() == 0 {
        (Seq::empty(), None)
    } else if p.len() >= 2 && is_tunnel_prefix(p[0]) {
        (
            p[1],
            if p.len() >= 3 {
                parse_unsigned(p[2], u64::MAX as nat)
            } else {
                None
            },
        )
    } else if p.len() >= 2 {
        (p[0], parse_unsigned(p[1], u64::MAX as nat))
    } else {
        (p[0], None)
    }
}

/// Reads the session identifier and the sequence number from a request path.
/// The identifier is empty where the path names no session.
#[verifier::rlimit(40)]
pub fn extract_path_info(path: &str) -> (r: (String, Option<u64>))
    ensures
        r.0@ == path_info(path@).0,
        opt_nat(r.1) == path_info(path@).1,
{
    let v: Vec<char> = chars_of(path);
    assert(v@.subrange(0, v.len() as int) =~= v@);
    let q: usize = find_char(&v, '?', 0, v.len());
    let ghost bare = before(path@, '?');
    assert(bare =~= v@.subrange(0, q as int));
    let mut a: usize = 0;
    while a < q && v[a] == '/'
        invariant
            a <= q <= v.len(),
            trim_start_char(v@.subrange(a as int, q as int), '/') == trim_start_char(bare, '/'),
        decreases q - a,
    {
        assert(v@.subrange(a as int, q as int).drop_first() =~= v@.subrange(a + 1, q as int));
        a = a + 1;
    }
    let ghost t = v@.subrange(a as int, q as int);
    assert(trim_start_char(bare, '/') == t);

    let b: usize = find_char(&v, '/', a, q);
    assert(t.take(b - a) =~= v@.subrange(a as int, b as int));
    if b == a {
        return (String::new(), None);
    }
    if b == q {
        return (path.substring_char(a, q).to_owned(), None);
    }
    let ghost t1 = v@.subrange(b + 1, q as int);
    assert(t.skip(b - a + 1) =~= t1);
    let c: usize = find_char(&v, '/', b + 1, q);
    assert(t1.take(c - b - 1) =~= v@.subrange(b + 1, c as int));
    let ghost p = segments(path@);
    assert(p == seq![t.take(b - a)] + split(t1, '/'));
    assert(split(t1, '/').len() > 0);
    assert(p[0] == t.take(b - a) && p[1] == split(t1, '/')[0]);
    assert(p[1] =~= v@.subrange(b + 1, c as int));
    if range_is(&v, a, b, "ssh") || range_is(&v, a, b, "xhttp") || range_is(&v, a, b, "split") {
        let sid: String = path.substring_char(b + 1, c).to_owned();
        if c == q {
            assert(split(t1, '/') == seq![t1]);
            return (sid, None);
        }
        let ghost t2 = v@.subrange(c + 1, q as int);
        assert(t1.skip(c - b) =~= t2);
        let d: usize = find_char(&v, '/', c + 1, q);
        assert(t2.take(d - c - 1) =~= v@.subrange(c + 1, d as int));
        assert(split(t1, '/') == seq![t1.take(c - b - 1)] + split(t2, '/'));
        assert(split(t2, '/').len() > 0);
        assert(p[2] == split(t2, '/')[0]);
        assert(p[2] =~= v@.subrange(c + 1, d as int));
        return (sid, read_unsigned(&v, c + 1, d, u64::MAX));
    }
    (path.substring_char(a, b).to_owned(), read_unsigned(&v, b + 1, c, u64::MAX))
}

// ---------------------------------------------------------------------------
// Content length
// ---------------------------------------------------------------------------
/// `c` with an ASCII capital made small.
pub open spec fn ascii_lower(c: char) -> char {
    if 'A' <= c <= 'Z' {
        (c as u32 + 32) as char
    } else {
        c
    }
}

/// The line is the header field `Content-Length`, however its letters are cased.
/// Only ASCII capitals count: no other character has one of these letters as its
/// lower case.
pub open spec fn names_content_length(line: Seq<char>) -> bool {
    &&& line.len() >= "content-length:"@.len()
    &&& forall|k: int|
        0 <= k < "content-length:"@.len() ==> ascii_lower(#[trigger] line[k])
            == "content-length:"@[k]
}

/// The number that stands behind the first colon of a header field.
pub open spec fn field_number(line: Seq<char>) -> Option<nat> {
    let p = split(line, ':');
    if p.len() >= 2 {
        parse_unsigned(trim(p[1]), usize::MAX as nat)
    } else {
        None
    }
}

/// The number of the first `Content-Length` field among some lines. A field
/// whose number does not read is not passed over.
pub open spec fn first_content_length(ls: Seq<Seq<char>>) -> Option<nat>
    decreases ls.len(),
{
    if ls.len() == 0 {
        None
    } else if names_content_length(ls[0]) {
        field_number(ls[0])
    } else {
        first_content_length(ls.drop_first())
    }
}

/// The length of the body that a request announces.
pub open spec fn content_length(text: Seq<char>) -> Option<nat> {
    first_content_length(lines(text))
}

/// The value of an optional size.
pub open spec fn opt_size(n: Option<usize>) -> Option<nat> {
    match n {
        Some(n) => Some(n as nat),
        None => None,
    }
}

/// Whether `v[from..to]` is a `Content-Length` field.
fn is_content_length(v: &Vec<char>, from: usize, to: usize) -> (r: bool)
    requires
        from <= to <= v.len(),
    ensures
        r == names_content_length(v@.subrange(from as int, to as int)),
{
    let name: Vec<char> = chars_of("content-length:");
    let ghost line = v@.subrange(from as int, to as int);
    if to - from < name.len() {
        return false;
    }
    let mut k: usize = 0;
    while k < name.len()
        invariant
            k <= name.len() <= to - from,
            to <= v.len(),
            name@ == "content-length:"@,
            line == v@.subrange(from as int, to as int),
            forall|j: int| 0 <= j < k ==> ascii_lower(#[trigger] line[j]) == name@[j],
        decreases name.len() - k,
    {
        let c: char = v[from + k];
        assert(line[k as int] == c);
        let low: char = if c >= 'A' && c <= 'Z' {
            (c as u8 + 32) as char
        } else {
            c
        };
        assert(low == ascii_lower(c));
        if low != name[k] {
            return false;
        }
        k = k + 1;
    }
    true
}

/// Reads the number behind the first colon of `v[from..to]`.
fn read_field_number(v: &Vec<char>, from: usize, to: usize) -> (r: Option<usize>)
    requires
        from <= to <= v.len(),
    ensures
        opt_size(r) == field_number(v@.subrange(from as int, to as int)),
{
    let ghost line = v@.subrange(from as int, to as int);
    let b: usize = find_char(v, ':', from, to);
    if b == to {
        return None;
    }
    let ghost rest = v@.subrange(b + 1, to as int);
    assert(line.skip(b - from + 1) =~= rest);
    let c: usize = find_char(v, ':', b + 1, to);
    let ghost value = v@.subrange(b + 1, c as int);
    proof {
        assert(rest.take(c - b - 1) =~= value);
        assert(c == to ==> rest =~= value);
        assert(split(line, ':') == seq![line.take(b - from)] + split(rest, ':'));
        assert(split(rest, ':').len() > 0 && split(rest, ':')[0] == value);
        assert(split(line, ':')[1] == value);
    }
    let d: usize = skip_run(v, true, b + 1, c);
    let ghost started = trim_start(value);
    assert(started =~= v@.subrange(d as int, c as int));
    let mut e: usize = c;
    while e > d && crate::text::is_white_space(v[e - 1])
        invariant
            d <= e <= c <= v.len(),
            forall|k: int| e <= k < c ==> is_white(#[trigger] v[k]),
        decreases e - d,
    {
        e = e - 1;
    }
    proof {
        assert forall|k: int| e - d <= k < started.len() implies is_white(#[trigger] started[k]) by {
            assert(started[k] == v[d + k]);
        }
        crate::text::lemma_trim_end_is(started, e - d);
        assert(started.take(e - d) =~= v@.subrange(d as int, e as int));
    }
    match read_unsigned(v, d, e, usize::MAX as u64) {
        Some(n) => Some(n as usize),
        None => None,
    }
}

/// Reads the length of the body that the text of a request announces.
pub fn content_length_of(text: &str) -> (r: Option<usize>)
    ensures
        opt_size(r) == content_length(text@),
{
    let v: Vec<char> = chars_of(text);
    let mut i: usize = 0;
    assert(v@.skip(0) =~= v@);
    while i < v.len()
        invariant
            i <= v.len(),
            v@ == text@,
            content_length(text@) == first_content_length(lines(v@.skip(i as int))),
        decreases v.len() - i,
    {
        let ghost s = v@.skip(i as int);
        assert(v@.subrange(i as int, v.len() as int) =~= s);
        let n: usize = find_char(&v, '\n', i, v.len());
        let end: usize = if n < v.len() && n > i && v[n - 1] == '\r' {
            n - 1
        } else {
            n
        };
        let ghost line = v@.subrange(i as int, end as int);
        proof {
            assert(s.take(n - i) =~= v@.subrange(i as int, n as int));
            assert(lines(s)[0] =~= line);
            if n < v.len() {
                assert(s.skip(n - i + 1) =~= v@.skip(n + 1));
                assert(lines(s).drop_first() =~= lines(v@.skip(n + 1)));
            } else {
                assert(lines(s).drop_first() =~= lines(v@.skip(n as int)));
            }
        }
        if is_content_length(&v, i, end) {
            return read_field_number(&v, i, end);
        }
        i = if n < v.len() {
            n + 1
        } else {
            n
        };
    }
    None
}

/// Reads the length of the body that the bytes of a request announce.
pub fn extract_content_length_from_bytes(data: &[u8]) -> (r: Option<usize>)
    ensures
        opt_size(r) == content_length(utf8_lossy(data@)),
        keeps_valid(data@, utf8_lossy(data@)),
{
    let text: String = decode_lossy(data);
    content_length_of(text.as_str())
}

// ---------------------------------------------------------------------------
// Laws
// ---------------------------------------------------------------------------
/// `c` does not occur in `s`.
pub open spec fn lacks(s: Seq<char>, c: char) -> bool {
    forall|k: int| 0 <= k < s.len() ==> #[trigger] s[k] != c
}

/// `s` is a word: not empty, and without white space.
pub open spec fn is_word(s: Seq<char>) -> bool {
    s.len() > 0 && forall|k: int| 0 <= k < s.len() ==> !is_white(#[trigger] s[k])
}

proof fn lemma_split_step(a: Seq<char>, c: char, rest: Seq<char>)
    requires
        lacks(a, c),
    ensures
        split(a + seq![c] + rest, c) == seq![a] + split(rest, c),
        split(a, c) == seq![a],
{
    law_split_at_separator(a, c, rest);
}

/// The segments of a path that starts with one slash and holds no query.
proof fn lemma_segments(s: Seq<char>)
    requires
        lacks(s, '?'),
        s.len() > 0 ==> s[0] != '/',
    ensures
        segments(seq!['/'] + s) == split(s, '/'),
{
    let path = seq!['/'] + s;
    assert forall|k: int| 0 <= k < path.len() implies path[k] != '?' by {
        if k > 0 {
            assert(path[k] == s[k - 1]);
        }
    }
    crate::text::lemma_first_is(path, '?', path.len() as int);
    assert(path.take(path.len() as int) =~= path);
    assert(path.drop_first() =~= s);
    assert(trim_start_char(path, '/') == trim_start_char(s, '/'));
}

proof fn lemma_tunnel_prefix(prefix: Seq<char>)
    requires
        is_tunnel_prefix(prefix),
    ensures
        prefix.len() > 0,
        lacks(prefix, '/'),
        lacks(prefix, '?'),
{
    reveal_strlit("ssh");
    reveal_strlit("xhttp");
    reveal_strlit("split");
}

/// A decimal number holds no slash and no question mark.
proof fn lemma_decimal_lacks(n: nat)
    ensures
        lacks(decimal(n), '/'),
        lacks(decimal(n), '?'),
{
    lemma_decimal(n);
    assert forall|k: int| 0 <= k < decimal(n).len() implies (#[trigger] decimal(n)[k]) != '/'
        && decimal(n)[k] != '?' by {
        assert(is_digit(decimal(n)[k]));
    }
}

/// A tunnel path names its session, and the sequence number where it has one:
/// `/ssh/abc/0` is session `abc` with number 0, and `/ssh/abc` is session `abc`.
#[verifier::rlimit(40)]
pub proof fn law_tunnel_path(prefix: Seq<char>, sid: Seq<char>, number: nat)
    requires
        is_tunnel_prefix(prefix),
        lacks(sid, '/'),
        lacks(sid, '?'),
        number <= u64::MAX,
    ensures
        path_info(seq!['/'] + (prefix + seq!['/'] + sid)) == (sid, None::<nat>),
        path_info(seq!['/'] + (prefix + seq!['/'] + (sid + seq!['/'] + decimal(number)))) == (
            sid,
            Some(number),
        ),
{
    lemma_tunnel_prefix(prefix);
    lemma_decimal_lacks(number);
    law_decimal_reads_back(number, u64::MAX as nat);
    let bare = prefix + seq!['/'] + sid;
    assert(bare[0] == prefix[0]);
    assert forall|k: int| 0 <= k < bare.len() implies bare[k] != '?' by {
        if k < prefix.len() {
            assert(bare[k] == prefix[k]);
        } else if k > prefix.len() {
            assert(bare[k] == sid[k - prefix.len() - 1]);
        }
    }
    lemma_segments(bare);
    lemma_split_step(prefix, '/', sid);
    lemma_split_step(sid, '/', decimal(number));
    let tail = sid + seq!['/'] + decimal(number);
    assert forall|k: int| 0 <= k < tail.len() implies tail[k] != '?' by {
        if k < sid.len() {
            assert(tail[k] == sid[k]);
        } else if k > sid.len() {
            assert(tail[k] == decimal(number)[k - sid.len() - 1]);
        }
    }
    let full = prefix + seq!['/'] + tail;
    assert(full[0] == prefix[0]);
    assert forall|k: int| 0 <= k < full.len() implies full[k] != '?' by {
        if k < prefix.len() {
            assert(full[k] == prefix[k]);
        } else if k > prefix.len() {
            assert(full[k] == tail[k - prefix.len() - 1]);
        }
    }
    lemma_segments(full);
    lemma_split_step(prefix, '/', tail);
    lemma_split_step(decimal(number), '/', Seq::empty());
    let p = segments(seq!['/'] + full);
    assert(p == seq![prefix] + (seq![sid] + seq![decimal(number)]));
    assert(p[0] == prefix && p[1] == sid && p[2] == decimal(number));
    let q = segments(seq!['/'] + bare);
    assert(q == seq![prefix] + seq![sid]);
    assert(q[0] == prefix && q[1] == sid);
}

/// A path without a tunnel prefix names its first segment as the session, and
/// the second one as the sequence number.
pub proof fn law_plain_path(sid: Seq<char>, number: nat)
    requires
        sid.len() > 0,
        lacks(sid, '/'),
        lacks(sid, '?'),
        number <= u64::MAX,
    ensures
        path_info(seq!['/'] + sid) == (sid, None::<nat>),
        !is_tunnel_prefix(sid) ==> path_info(seq!['/'] + (sid + seq!['/'] + decimal(number))) == (
            sid,
            Some(number),
        ),
{
    lemma_decimal_lacks(number);
    law_decimal_reads_back(number, u64::MAX as nat);
    lemma_segments(sid);
    lemma_split_step(sid, '/', decimal(number));
    lemma_split_step(decimal(number), '/', Seq::empty());
    let full = sid + seq!['/'] + decimal(number);
    assert(full[0] == sid[0]);
    assert forall|k: int| 0 <= k < full.len() implies full[k] != '?' by {
        if k < sid.len() {
            assert(full[k] == sid[k]);
        } else if k > sid.len() {
            assert(full[k] == decimal(number)[k - sid.len() - 1]);
        }
    }
    lemma_segments(full);
    let p = segments(seq!['/'] + full);
    assert(p == seq![sid] + seq![decimal(number)]);
    assert(p[0] == sid && p[1] == decimal(number));
}

/// The query of a path says nothing about the session.
pub proof fn law_query_ignored(path: Seq<char>, query: Seq<char>)
    ensures
        path_info(path + seq!['?'] + query) == path_info(path),
{
    crate::text::lemma_first(path, '?');
    let full = path + seq!['?'] + query;
    let n = first(path, '?') as int;
    assert forall|k: int| 0 <= k < n implies full[k] != '?' by {
        assert(full[k] == path[k]);
    }
    if n < path.len() {
        assert(full[n] == path[n]);
    } else {
        assert(full[n] == '?');
    }
    crate::text::lemma_first_is(full, '?', n);
    assert(before(full, '?') =~= before(path, '?'));
}

/// One more slash at the start of a path changes nothing.
pub proof fn law_leading_slash_ignored(path: Seq<char>)
    ensures
        path_info(seq!['/'] + path) == path_info(path),
{
    let full = seq!['/'] + path;
    assert(full.drop_first() =~= path);
    assert(first(full, '?') == 1 + first(path, '?'));
    crate::text::lemma_first(path, '?');
    assert(before(full, '?').drop_first() =~= before(path, '?'));
}

/// A request line gives its method and its target back, whatever follows them.
pub proof fn law_request_line(method: Seq<char>, target: Seq<char>, rest: Seq<char>)
    requires
        is_word(method),
        is_word(target),
    ensures
        method_and_target(method + seq![' '] + target + seq![' '] + rest) == Some(
            (method, target),
        ),
{
    let start = method + seq![' '] + target + seq![' '];
    let text = start + rest;
    let m = method.len() as int;
    let t = target.len() as int;
    let n = first(text, '\n') as int;
    crate::text::lemma_first(text, '\n');
    assert forall|k: int| 0 <= k < start.len() implies (#[trigger] start[k]) != '\n' && (start[k]
        == ' ' || !is_white(start[k])) by {
        if k < m {
            assert(start[k] == method[k]);
        } else if m < k < m + 1 + t {
            assert(start[k] == target[k - m - 1]);
        }
    }
    assert(n >= start.len()) by {
        if n < start.len() {
            assert(text[n] == start[n]);
        }
    }
    lemma_first_line(text);
    let line = lines(text)[0];
    assert(line.len() >= start.len()) by {
        if n < text.len() {
            let l = before(text, '\n');
            assert(l[start.len() - 1] == start[start.len() - 1]);
            assert(l.last() == '\r' ==> l.len() > start.len());
        }
    }
    assert forall|k: int| 0 <= k < start.len() implies line[k] == start[k] by {
        assert(text[k] == start[k]);
    }
    assert forall|k: int| 0 <= k < m implies !is_white(#[trigger] line[k]) by {
        assert(line[k] == start[k] && start[k] == method[k]);
    }
    assert(line[m] == start[m] && start[m] == ' ');
    assert forall|k: int| m + 1 <= k < m + 1 + t implies !is_white(#[trigger] line[k]) by {
        assert(line[k] == start[k] && start[k] == target[k - m - 1]);
    }
    assert(line[m + 1 + t] == start[m + 1 + t] && start[m + 1 + t] == ' ');
    crate::text::lemma_run_is(line, true, 0);
    crate::text::lemma_run_is(line.skip(0), false, m);
    crate::text::lemma_run_is(line.skip(m), true, 1);
    let third = line.skip(m + 1);
    assert forall|k: int| 0 <= k < t implies !is_white(#[trigger] third[k]) by {
        assert(third[k] == line[m + 1 + k]);
    }
    assert(third[t] == line[m + 1 + t]);
    crate::text::lemma_run_is(third, false, t);
    lemma_two_words(line, 0, m, m + 1, m + 1 + t);
    assert(line.subrange(0, m) =~= method) by {
        assert forall|k: int| 0 <= k < m implies line[k] == method[k] by {
            assert(line[k] == start[k] && start[k] == method[k]);
        }
    }
    assert(line.subrange(m + 1, m + 1 + t) =~= target) by {
        assert forall|k: int| 0 <= k < t implies line[m + 1 + k] == target[k] by {
            assert(line[m + 1 + k] == start[m + 1 + k] && start[m + 1 + k] == target[k]);
        }
    }
}

/// The method of a request that starts with no white space starts as the request
/// does.
pub(crate) proof fn lemma_method_start(text: Seq<char>)
    requires
        text.len() > 0,
        !is_white(text[0]),
    ensures
        method_and_target(text) matches Some((method, _)) ==> method.len() > 0 && method[0]
            == text[0],
{
    crate::text::lemma_first(text, '\n');
    lemma_first_line(text);
    let line = lines(text)[0];
    assert(first(text, '\n') > 0);
    assert(before(text, '\n')[0] == text[0]);
    assert(line.len() > 0 && line[0] == text[0]);
    crate::text::lemma_run(line, false);
    assert(run(line, false) > 0);
}

/// Lines can be read in two goes where the first text ends with a line feed.
proof fn lemma_lines_concat(head: Seq<char>, tail: Seq<char>)
    requires
        head.len() > 0 ==> head.last() == '\n',
    ensures
        lines(head + tail) == lines(head) + lines(tail),
    decreases head.len(),
{
    if head.len() == 0 {
        assert(head + tail =~= tail);
        assert(lines(head) + lines(tail) =~= lines(tail));
    } else {
        let n = first(head, '\n') as int;
        crate::text::lemma_first(head, '\n');
        let all = head + tail;
        assert forall|k: int| 0 <= k < n implies all[k] != '\n' by {
            assert(all[k] == head[k]);
        }
        assert(n < head.len()) by {
            if n == head.len() {
                assert(head[head.len() - 1] == '\n');
            }
        }
        assert(all[n] == head[n]);
        crate::text::lemma_first_is(all, '\n', n);
        assert(all.take(n) =~= head.take(n));
        let rest = head.skip(n + 1);
        assert(all.skip(n + 1) =~= rest + tail);
        assert(rest.len() > 0 ==> rest.last() == head.last());
        lemma_lines_concat(rest, tail);
        assert(lines(all) =~= lines(head) + lines(tail));
    }
}

proof fn lemma_first_content_length_skip(a: Seq<Seq<char>>, b: Seq<Seq<char>>)
    requires
        forall|k: int| 0 <= k < a.len() ==> !names_content_length(#[trigger] a[k]),
    ensures
        first_content_length(a + b) == first_content_length(b),
    decreases a.len(),
{
    if a.len() == 0 {
        assert(a + b =~= b);
    } else {
        assert((a + b)[0] == a[0]);
        assert((a + b).drop_first() =~= a.drop_first() + b);
        let t = a.drop_first();
        assert forall|k: int| 0 <= k < t.len() implies !names_content_length(#[trigger] t[k]) by {
            assert(t[k] == a[k + 1]);
        }
        lemma_first_content_length_skip(t, b);
    }
}

/// The number of a `Content-Length` field: `name` is its name with the colon,
/// `blank` the white space before the number.
proof fn lemma_field_number(name: Seq<char>, blank: Seq<char>, n: nat)
    requires
        name.len() == "content-length:"@.len(),
        names_content_length(name),
        forall|k: int| 0 <= k < blank.len() ==> is_white(#[trigger] blank[k]),
        n <= usize::MAX,
    ensures
        field_number(name + blank + decimal(n)) == Some(n),
        names_content_length(name + blank + decimal(n)),
{
    reveal_strlit("content-length:");
    lemma_decimal(n);
    law_decimal_reads_back(n, usize::MAX as nat);
    let line = name + blank + decimal(n);
    assert forall|k: int| 0 <= k < 15 implies ascii_lower(#[trigger] line[k])
        == "content-length:"@[k] by {
        assert(line[k] == name[k]);
    }
    let stem = name.take(14);
    let value = blank + decimal(n);
    assert forall|k: int| 0 <= k < stem.len() implies #[trigger] stem[k] != ':' by {
        assert(stem[k] == name[k]);
        assert(ascii_lower(name[k]) == "content-length:"@[k]);
    }
    assert(ascii_lower(name[14]) == "content-length:"@[14]);
    assert(line =~= stem + seq![':'] + value);
    lemma_split_step(stem, ':', value);
    assert forall|k: int| 0 <= k < value.len() implies #[trigger] value[k] != ':' by {
        if k < blank.len() {
            assert(is_white(blank[k]));
        } else {
            assert(is_digit(decimal(n)[k - blank.len()]));
        }
    }
    lemma_split_step(value, ':', Seq::empty());
    assert(split(line, ':') == seq![stem] + seq![value]);
    assert(split(line, ':')[1] == value);
    let b = blank.len() as int;
    assert forall|k: int| 0 <= k < b implies is_white(#[trigger] value[k]) by {
        assert(value[k] == blank[k]);
    }
    assert(value[b] == decimal(n)[0] && is_digit(decimal(n)[0]));
    crate::text::lemma_run_is(value, true, b);
    assert(trim_start(value) =~= decimal(n));
    assert(is_digit(decimal(n).last()));
    crate::text::lemma_trim_end_is(decimal(n), decimal(n).len() as int);
    assert(decimal(n).take(decimal(n).len() as int) =~= decimal(n));
}

/// The length that a request announces is read back: from the first
/// `Content-Length` field, however its name is cased, with any white space
/// before the number.
pub proof fn law_content_length(
    head: Seq<char>,
    name: Seq<char>,
    blank: Seq<char>,
    n: nat,
    rest: Seq<char>,
)
    requires
        head.len() > 0 ==> head.last() == '\n',
        forall|k: int| 0 <= k < lines(head).len() ==> !names_content_length(#[trigger] lines(head)[k]),
        name.len() == "content-length:"@.len(),
        names_content_length(name),
        forall|k: int| 0 <= k < blank.len() ==> is_white(#[trigger] blank[k]),
        lacks(blank, '\n'),
        n <= usize::MAX,
    ensures
        content_length(head + (name + blank + decimal(n) + seq!['\r', '\n'] + rest)) == Some(n),
{
    reveal_strlit("content-length:");
    lemma_decimal(n);
    lemma_field_number(name, blank, n);
    let line = name + blank + decimal(n);
    let tail = line + seq!['\r', '\n'] + rest;
    let e = line.len() as int + 1;
    assert(tail[e] == '\n' && tail[e - 1] == '\r');
    assert forall|k: int| 0 <= k < e implies tail[k] != '\n' by {
        if k < name.len() {
            assert(tail[k] == name[k]);
            assert(ascii_lower(name[k]) == "content-length:"@[k]);
        } else if k < name.len() + blank.len() {
            assert(tail[k] == blank[k - name.len()]);
        } else if k < line.len() {
            assert(tail[k] == decimal(n)[k - name.len() - blank.len()]);
            assert(is_digit(decimal(n)[k - name.len() - blank.len()]));
        }
    }
    crate::text::lemma_first_is(tail, '\n', e);
    lemma_first_line(tail);
    assert(before(tail, '\n').last() == '\r');
    assert(strip_cr(before(tail, '\n')) =~= line);
    lemma_lines_concat(head, tail);
    lemma_first_content_length_skip(lines(head), lines(tail));
}

/// The method and the target are the first two words of the first line, with any
/// white space before and between them, whatever follows them.
pub proof fn law_first_two_words(
    b0: Seq<char>,
    method: Seq<char>,
    b1: Seq<char>,
    target: Seq<char>,
    tail: Seq<char>,
)
    requires
        is_blank(b0),
        lacks(b0, '\n'),
        is_word(method),
        is_blank(b1),
        lacks(b1, '\n'),
        b1.len() > 0,
        is_word(target),
        tail.len() > 0 ==> is_white(tail[0]),
    ensures
        method_and_target(b0 + method + b1 + target + tail) == Some((method, target)),
{
    let start = b0 + method + b1 + target;
    let text = start + tail;
    let len = start.len() as int;
    assert forall|k: int| 0 <= k < len implies (#[trigger] start[k]) != '\n' by {
        if k < b0.len() {
            assert(start[k] == b0[k]);
        } else if k < b0.len() + method.len() {
            assert(start[k] == method[k - b0.len()]);
        } else if k < b0.len() + method.len() + b1.len() {
            assert(start[k] == b1[k - b0.len() - method.len()]);
        } else {
            assert(start[k] == target[k - b0.len() - method.len() - b1.len()]);
        }
    }
    assert(start[len - 1] == target[target.len() - 1]);
    assert(!is_white(start[len - 1]));
    crate::text::lemma_first(text, '\n');
    let n = first(text, '\n') as int;
    assert(n >= len) by {
        if n < len {
            assert(text[n] == start[n]);
        }
    }
    lemma_first_line(text);
    let line = lines(text)[0];
    assert(line.len() >= len) by {
        if n < text.len() && n == len {
            assert(before(text, '\n').last() == start[len - 1]);
        }
    }
    let t = line.skip(len);
    assert(line =~= start + t) by {
        assert forall|k: int| 0 <= k < len implies line[k] == start[k] by {
            assert(text[k] == start[k]);
        }
    }
    assert(t.len() > 0 ==> t[0] == tail[0]) by {
        if t.len() > 0 {
            assert(line[len] == text[len]);
        }
    }
    let c = b1.drop_first();
    assert(is_blank(c)) by {
        assert forall|k: int| 0 <= k < c.len() implies is_white(#[trigger] c[k]) by {
            assert(c[k] == b1[k + 1]);
        }
    }
    let rest = c + target + t;
    assert(is_white(b1[0]));
    assert(line =~= b0 + method + seq![b1[0]] + rest);
    law_words_are_read(b0, method, b1[0], rest);
    if t.len() == 0 {
        assert(rest =~= c + target);
        law_words_are_read(c, target, ' ', Seq::empty());
    } else {
        assert(rest =~= c + target + seq![t[0]] + t.drop_first());
        law_words_are_read(c, target, t[0], t.drop_first());
    }
    assert(words(line) == seq![method] + words(rest));
    assert(words(rest)[0] == target);
}

/// A request whose first line holds one word at most has no method and target.
pub proof fn law_one_word_is_no_request(
    b0: Seq<char>,
    word: Seq<char>,
    b1: Seq<char>,
    tail: Seq<char>,
)
    requires
        is_blank(b0),
        lacks(b0, '\n'),
        forall|k: int| 0 <= k < word.len() ==> !is_white(#[trigger] word[k]),
        is_blank(b1),
        lacks(b1, '\n'),
        tail.len() > 0 ==> tail[0] == '\n',
    ensures
        method_and_target(b0 + word + b1 + tail) is None,
{
    let start = b0 + word + b1;
    let text = start + tail;
    let len = start.len() as int;
    if text.len() > 0 {
        assert forall|k: int| 0 <= k < len implies (#[trigger] text[k]) != '\n' by {
            if k < b0.len() {
                assert(text[k] == b0[k]);
            } else if k < b0.len() + word.len() {
                assert(text[k] == word[k - b0.len()]);
            } else {
                assert(text[k] == b1[k - b0.len() - word.len()]);
            }
        }
        if tail.len() > 0 {
            assert(text[len] == tail[0]);
        }
        crate::text::lemma_first_is(text, '\n', len);
        lemma_first_line(text);
        let line = lines(text)[0];
        assert(text.take(len) =~= start);
        assert(tail.len() == 0 ==> text =~= start);
        assert(line == start || line == strip_cr(start));
        if line != start {
            if b1.len() > 0 {
                let c = b1.drop_last();
                assert(line =~= b0 + word + c);
                assert(is_blank(c)) by {
                    assert forall|k: int| 0 <= k < c.len() implies is_white(#[trigger] c[k]) by {
                        assert(c[k] == b1[k]);
                    }
                }
                lemma_one_word(b0, word, c);
            } else if word.len() > 0 {
                assert(start.last() == word[word.len() - 1]);
            } else {
                let c = b0.drop_last();
                assert(line =~= c + word + b1);
                assert(is_blank(c)) by {
                    assert forall|k: int| 0 <= k < c.len() implies is_white(#[trigger] c[k]) by {
                        assert(c[k] == b0[k]);
                    }
                }
                lemma_one_word(c, word, b1);
            }
        } else {
            lemma_one_word(b0, word, b1);
        }
    }
}

proof fn lemma_one_word(b0: Seq<char>, word: Seq<char>, b1: Seq<char>)
    requires
        is_blank(b0),
        forall|k: int| 0 <= k < word.len() ==> !is_white(#[trigger] word[k]),
        is_blank(b1),
    ensures
        words(b0 + word + b1).len() <= 1,
{
    let s = b0 + word + b1;
    if word.len() == 0 {
        assert(is_blank(s)) by {
            assert forall|k: int| 0 <= k < s.len() implies is_white(#[trigger] s[k]) by {
                if k < b0.len() {
                    assert(s[k] == b0[k]);
                } else {
                    assert(s[k] == b1[k - b0.len()]);
                }
            }
        }
        law_words_are_read(s, seq!['x'], ' ', Seq::empty());
    } else if b1.len() == 0 {
        assert(s =~= b0 + word);
        law_words_are_read(b0, word, ' ', Seq::empty());
    } else {
        let c = b1.drop_first();
        assert(is_blank(c)) by {
            assert forall|k: int| 0 <= k < c.len() implies is_white(#[trigger] c[k]) by {
                assert(c[k] == b1[k + 1]);
            }
        }
        assert(is_white(b1[0]));
        assert(s =~= b0 + word + seq![b1[0]] + c);
        law_words_are_read(b0, word, b1[0], c);
        law_words_are_read(c, seq!['x'], ' ', Seq::empty());
    }
}

/// Parts with a separator between them.
pub open spec fn separated(parts: Seq<Seq<char>>, c: char) -> Seq<char>
    decreases parts.len(),
{
    if parts.len() == 0 {
        Seq::empty()
    } else if parts.len() == 1 {
        parts[0]
    } else {
        parts[0] + seq![c] + separated(parts.drop_first(), c)
    }
}

/// `n` slashes.
pub open spec fn slashes(n: nat) -> Seq<char> {
    Seq::new(n, |i: int| '/')
}

/// No part holds `c`.
pub open spec fn all_lack(parts: Seq<Seq<char>>, c: char) -> bool {
    forall|k: int| 0 <= k < parts.len() ==> lacks(#[trigger] parts[k], c)
}

proof fn lemma_all_lack_rest(parts: Seq<Seq<char>>, c: char)
    requires
        parts.len() > 0,
        all_lack(parts, c),
    ensures
        all_lack(parts.drop_first(), c),
        lacks(parts[0], c),
{
    let t = parts.drop_first();
    assert forall|k: int| 0 <= k < t.len() implies lacks(#[trigger] t[k], c) by {
        assert(t[k] == parts[k + 1]);
    }
}

/// Parts that were put together with a separator are what splitting gives back.
pub proof fn law_split_undoes_separating(parts: Seq<Seq<char>>, c: char)
    requires
        parts.len() > 0,
        all_lack(parts, c),
    ensures
        split(separated(parts, c), c) == parts,
    decreases parts.len(),
{
    lemma_all_lack_rest(parts, c);
    if parts.len() == 1 {
        law_split_at_separator(parts[0], c, Seq::empty());
        assert(seq![parts[0]] =~= parts);
    } else {
        let t = parts.drop_first();
        law_split_at_separator(parts[0], c, separated(t, c));
        law_split_undoes_separating(t, c);
        assert(seq![parts[0]] + t =~= parts);
    }
}

proof fn lemma_separated_lacks(parts: Seq<Seq<char>>, c: char, d: char)
    requires
        all_lack(parts, d),
        c != d,
    ensures
        lacks(separated(parts, c), d),
    decreases parts.len(),
{
    if parts.len() > 0 {
        lemma_all_lack_rest(parts, d);
        let t = parts.drop_first();
        lemma_separated_lacks(t, c, d);
        let s = separated(parts, c);
        let rest = separated(t, c);
        assert forall|k: int| 0 <= k < s.len() implies #[trigger] s[k] != d by {
            let n = parts[0].len();
            if k < n {
                assert(s[k] == parts[0][k]);
            } else if parts.len() > 1 && k > n {
                assert(s[k] == rest[k - n - 1]);
            }
        }
    }
}

proof fn lemma_slashes_ignored(n: nat, s: Seq<char>)
    ensures
        path_info(slashes(n) + s) == path_info(s),
    decreases n,
{
    if n == 0 {
        assert(slashes(0) + s =~= s);
    } else {
        let m = (n - 1) as nat;
        assert(slashes(n) + s =~= seq!['/'] + (slashes(m) + s));
        law_leading_slash_ignored(slashes(m) + s);
        lemma_slashes_ignored(m, s);
    }
}

/// What a path names, by its segments. Any number of slashes may stand before the
/// first segment, and a query behind the last. A first segment that is `ssh`,
/// `xhttp` or `split` names no session itself: the second one is the session, and
/// the third one the number. With any other first segment, that one is the session,
/// and the second the number. Further segments do not count. A path of slashes
/// alone names no session.
pub proof fn law_path_names_session(n: nat, parts: Seq<Seq<char>>, query: Seq<char>)
    requires
        all_lack(parts, '/'),
        all_lack(parts, '?'),
        parts.len() > 0 ==> parts[0].len() > 0,
    ensures
        ({
            let path = slashes(n) + separated(parts, '/');
            let full = path + seq!['?'] + query;
            let max = 0xffff_ffff_ffff_ffffnat;
            let is_prefix = parts.len() > 1 && (parts[0] == "ssh"@ || parts[0] == "xhttp"@
                || parts[0] == "split"@);
            &&& path_info(full) == path_info(path)
            &&& parts.len() == 0 ==> path_info(path) == (Seq::<char>::empty(), None::<nat>)
            &&& parts.len() == 1 ==> path_info(path) == (parts[0], None::<nat>)
            &&& is_prefix && parts.len() == 2 ==> path_info(path) == (parts[1], None::<nat>)
            &&& is_prefix && parts.len() > 2 ==> path_info(path) == (
                parts[1],
                parse_unsigned(parts[2], max),
            )
            &&& parts.len() > 1 && !is_prefix ==> path_info(path) == (
                parts[0],
                parse_unsigned(parts[1], max),
            )
        }),
{
    let s = separated(parts, '/');
    lemma_slashes_ignored(n, s);
    law_query_ignored(slashes(n) + s, query);
    lemma_separated_lacks(parts, '/', '?');
    crate::text::lemma_first_is(s, '?', s.len() as int);
    assert(s.take(s.len() as int) =~= s);
    if parts.len() > 0 {
        lemma_all_lack_rest(parts, '/');
        assert(s[0] == parts[0][0]);
        assert(trim_start_char(s, '/') == s);
        law_split_undoes_separating(parts, '/');
    } else {
        assert(trim_start_char(s, '/').len() == 0);
        law_split_at_separator(s, '/', Seq::empty());
    }
}

/// `s` is `content-length:`, with each letter small or capital.
pub open spec fn spells_content_length(s: Seq<char>) -> bool {
    &&& s.len() == 15
    &&& forall|k: int|
        0 <= k < 15 ==> (#[trigger] s[k]) == "content-length:"@[k] || s[k] == "CONTENT-LENGTH:"@[k]
}

/// Lines, each with its ending.
pub open spec fn ended_lines(ls: Seq<Seq<char>>) -> Seq<char>
    decreases ls.len(),
{
    if ls.len() == 0 {
        Seq::empty()
    } else {
        ls[0] + seq!['\r', '\n'] + ended_lines(ls.drop_first())
    }
}

/// No line is a `Content-Length` field.
pub open spec fn no_length_among(ls: Seq<Seq<char>>) -> bool {
    forall|k: int|
        0 <= k < ls.len() ==> lacks(#[trigger] ls[k], '\n') && !(ls[k].len() >= 15
            && spells_content_length(ls[k].take(15)))
}

proof fn lemma_spelling(k: int)
    requires
        0 <= k < 15,
    ensures
        "content-length:"@.len() == 15,
        "CONTENT-LENGTH:"@.len() == 15,
        ascii_lower("content-length:"@[k]) == "content-length:"@[k],
        ascii_lower("CONTENT-LENGTH:"@[k]) == "content-length:"@[k],
        'A' <= "CONTENT-LENGTH:"@[k] <= 'Z' ==> "CONTENT-LENGTH:"@[k] as u32 + 32
            == "content-length:"@[k] as u32,
        !('A' <= "CONTENT-LENGTH:"@[k] <= 'Z') ==> !('a' <= "content-length:"@[k] <= 'z'),
{
    reveal_strlit("content-length:");
    reveal_strlit("CONTENT-LENGTH:");
    if k < 5 {
        assert(k == 0 || k == 1 || k == 2 || k == 3 || k == 4);
    } else if k < 10 {
        assert(k == 5 || k == 6 || k == 7 || k == 8 || k == 9);
    } else {
        assert(k == 10 || k == 11 || k == 12 || k == 13 || k == 14);
    }
}

/// A line is a `Content-Length` field exactly where it starts with the name of the
/// field and the colon, however the letters are cased. `Content-Length:` and
/// `content-length:` are two such spellings.
pub proof fn law_field_name(line: Seq<char>)
    ensures
        names_content_length(line) <==> line.len() >= 15 && spells_content_length(line.take(15)),
        spells_content_length("content-length:"@),
        spells_content_length("Content-Length:"@),
{
    lemma_spelling(0);
    reveal_strlit("Content-Length:");
    assert forall|k: int| 0 <= k < 15 implies (#[trigger] "Content-Length:"@[k])
        == "content-length:"@[k] || "Content-Length:"@[k] == "CONTENT-LENGTH:"@[k] by {
        reveal_strlit("content-length:");
        reveal_strlit("CONTENT-LENGTH:");
        if k < 5 {
            assert(k == 0 || k == 1 || k == 2 || k == 3 || k == 4);
        } else if k < 10 {
            assert(k == 5 || k == 6 || k == 7 || k == 8 || k == 9);
        } else {
            assert(k == 10 || k == 11 || k == 12 || k == 13 || k == 14);
        }
    }
    if names_content_length(line) {
        let s = line.take(15);
        assert forall|k: int| 0 <= k < 15 implies (#[trigger] s[k]) == "content-length:"@[k] || s[k]
            == "CONTENT-LENGTH:"@[k] by {
            lemma_spelling(k);
            assert(s[k] == line[k]);
            assert(ascii_lower(line[k]) == "content-length:"@[k]);
        }
    }
    if line.len() >= 15 && spells_content_length(line.take(15)) {
        let s = line.take(15);
        assert forall|k: int| 0 <= k < 15 implies ascii_lower(#[trigger] line[k])
            == "content-length:"@[k] by {
            lemma_spelling(k);
            assert(s[k] == line[k]);
        }
    }
}

proof fn lemma_lead_lines(lead: Seq<Seq<char>>, rest: Seq<char>)
    requires
        no_length_among(lead),
    ensures
        content_length(ended_lines(lead) + rest) == content_length(rest),
    decreases lead.len(),
{
    if lead.len() == 0 {
        assert(ended_lines(lead) + rest =~= rest);
    } else {
        let t = lead.drop_first();
        assert forall|k: int| 0 <= k < t.len() implies lacks(#[trigger] t[k], '\n') && !(t[k].len()
            >= 15 && spells_content_length(t[k].take(15))) by {
            assert(t[k] == lead[k + 1]);
        }
        lemma_lead_lines(t, rest);
        let more = ended_lines(t) + rest;
        assert(lacks(lead[0], '\n'));
        law_lines_are_read(lead[0], more);
        law_field_name(lead[0]);
        let text = ended_lines(lead) + rest;
        assert(text =~= lead[0] + seq!['\r', '\n'] + more);
        assert(lines(text)[0] == lead[0]);
        assert(lines(text).drop_first() =~= lines(more));
    }
}

/// The length that a request announces is the number in its first
/// `Content-Length` field. The name of the field may be cased in any way; white
/// space may stand before the number and behind it. A value that is no number
/// announces nothing, whatever field follows. `lead` are the lines before the
/// field, and `rest` is what follows its line.
pub proof fn law_first_length_counts(
    lead: Seq<Seq<char>>,
    name: Seq<char>,
    b1: Seq<char>,
    value: Seq<char>,
    b2: Seq<char>,
    rest: Seq<char>,
)
    requires
        no_length_among(lead),
        spells_content_length(name),
        is_blank(b1),
        lacks(b1, '\n'),
        lacks(value, '\n'),
        lacks(value, ':'),
        value.len() > 0 ==> !is_white(value[0]) && !is_white(value.last()),
        is_blank(b2),
        lacks(b2, '\n'),
    ensures
        content_length(
            ended_lines(lead) + (name + b1 + value + b2 + seq!['\r', '\n'] + rest),
        ) == parse_unsigned(value, usize::MAX as nat),
{
    let line = name + b1 + value + b2;
    let tail = line + seq!['\r', '\n'] + rest;
    lemma_lead_lines(lead, tail);
    assert(name.take(15) =~= name);
    law_field_name(name);
    assert(line.take(15) =~= name);
    law_field_name(line);
    let stem = name.take(14);
    assert forall|k: int| 0 <= k < 14 implies #[trigger] stem[k] != ':' && stem[k] != '\n' by {
        assert(stem[k] == name[k]);
        reveal_strlit("content-length:");
        reveal_strlit("CONTENT-LENGTH:");
    }
    lemma_spelling(14);
    assert(name[14] == ':') by {
        reveal_strlit("content-length:");
        reveal_strlit("CONTENT-LENGTH:");
    }
    let v = b1 + value + b2;
    assert forall|k: int| 0 <= k < v.len() implies #[trigger] v[k] != ':' && v[k] != '\n' by {
        if k < b1.len() {
            assert(v[k] == b1[k]);
        } else if k < b1.len() + value.len() {
            assert(v[k] == value[k - b1.len()]);
        } else {
            assert(v[k] == b2[k - b1.len() - value.len()]);
        }
    }
    assert(line =~= stem + seq![':'] + v);
    assert forall|k: int| 0 <= k < line.len() implies #[trigger] line[k] != '\n' by {
        if k < 14 {
            assert(line[k] == stem[k]);
        } else if k > 14 {
            assert(line[k] == v[k - 15]);
        }
    }
    law_lines_are_read(line, rest);
    assert(lines(tail)[0] == line);
    law_split_at_separator(stem, ':', v);
    law_split_at_separator(v, ':', Seq::empty());
    assert(split(line, ':')[1] == v);
    law_trim(b1, value, b2);
}

/// A request none of whose lines is a `Content-Length` field announces nothing.
pub proof fn law_no_length_announced(ls: Seq<Seq<char>>, last: Seq<char>)
    requires
        no_length_among(ls),
        no_length_among(seq![last]),
    ensures
        content_length(ended_lines(ls) + last) is None,
{
    lemma_lead_lines(ls, last);
    assert(seq![last][0] == last);
    assert(lacks(last, '\n'));
    law_lines_are_read(last, Seq::empty());
    law_field_name(last);
    assert(lines(last).len() > 0 ==> lines(last).drop_first() =~= Seq::<Seq<char>>::empty());
    assert(first_content_length(Seq::<Seq<char>>::empty()) is None);
}

/// Optional texts and sizes stand for themselves.
pub proof fn law_request_views(a: String, b: String, n: usize)
    ensures
        opt_texts(Some((a, b))) == Some((a@, b@)),
        opt_texts(None) is None,
        opt_size(Some(n)) == Some(n as nat),
        opt_size(None) is None,
{
}

/// Only the lines of a request count: two texts with the same lines announce the
/// same length, however the lines end.
pub proof fn law_line_endings_do_not_count(a: Seq<char>, b: Seq<char>)
    requires
        lines(a) == lines(b),
    ensures
        content_length(a) == content_length(b),
        method_and_target(a) == method_and_target(b),
{
}

/// What stands behind a second colon in a `Content-Length` field does not count.
pub proof fn law_second_colon_ends_length(
    lead: Seq<Seq<char>>,
    name: Seq<char>,
    b1: Seq<char>,
    value: Seq<char>,
    b2: Seq<char>,
    junk: Seq<char>,
    rest: Seq<char>,
)
    requires
        no_length_among(lead),
        spells_content_length(name),
        is_blank(b1),
        lacks(b1, '\n'),
        lacks(value, '\n'),
        lacks(value, ':'),
        value.len() > 0 ==> !is_white(value[0]) && !is_white(value.last()),
        is_blank(b2),
        lacks(b2, '\n'),
        lacks(junk, '\n'),
    ensures
        content_length(
            ended_lines(lead) + (name + b1 + value + b2 + seq![':'] + junk + seq!['\r', '\n']
                + rest),
        ) == parse_unsigned(value, usize::MAX as nat),
{
    let line = name + b1 + value + b2 + seq![':'] + junk;
    let tail = line + seq!['\r', '\n'] + rest;
    lemma_lead_lines(lead, tail);
    assert(line.take(15) =~= name);
    law_field_name(line);
    let stem = name.take(14);
    assert forall|k: int| 0 <= k < 14 implies #[trigger] stem[k] != ':' && stem[k] != '\n' by {
        assert(stem[k] == name[k]);
        reveal_strlit("content-length:");
        reveal_strlit("CONTENT-LENGTH:");
    }
    assert(name[14] == ':') by {
        reveal_strlit("content-length:");
        reveal_strlit("CONTENT-LENGTH:");
    }
    let v = b1 + value + b2;
    assert forall|k: int| 0 <= k < v.len() implies #[trigger] v[k] != ':' && v[k] != '\n' by {
        if k < b1.len() {
            assert(v[k] == b1[k]);
        } else if k < b1.len() + value.len() {
            assert(v[k] == value[k - b1.len()]);
        } else {
            assert(v[k] == b2[k - b1.len() - value.len()]);
        }
    }
    let w = v + seq![':'] + junk;
    assert(line =~= stem + seq![':'] + w);
    assert forall|k: int| 0 <= k < line.len() implies #[trigger] line[k] != '\n' by {
        if k < 14 {
            assert(line[k] == stem[k]);
        } else if 14 < k < 15 + v.len() {
            assert(line[k] == v[k - 15]);
        } else if k > 15 + v.len() {
            assert(line[k] == junk[k - 16 - v.len()]);
        }
    }
    law_lines_are_read(line, rest);
    assert(lines(tail)[0] == line);
    law_split_at_separator(stem, ':', w);
    law_split_at_separator(v, ':', junk);
    assert(split(line, ':')[1] == v);
    law_trim(b1, value, b2);
}

} // verus!
