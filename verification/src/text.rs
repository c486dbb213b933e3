//! Character-level text handling over `&str`, each operation stated over the
//! string's `Seq<char>` view.
use vstd::prelude::*;

verus! {

/// Unicode `White_Space`, the set that `char::is_whitespace` and `str::trim` use.
pub open spec fn is_whitespace(c: char) -> bool {
    let u = c as u32;
    ||| 0x09 <= u && u <= 0x0D
    ||| u == 0x20
    ||| u == 0x85
    ||| u == 0xA0
    ||| u == 0x1680
    ||| 0x2000 <= u && u <= 0x200A
    ||| u == 0x2028
    ||| u == 0x2029
    ||| u == 0x202F
    ||| u == 0x205F
    ||| u == 0x3000
}

/// The sets of characters that the parsers trim from both ends of a token.
#[derive(Clone, Copy, Debug, PartialEq, Eq)]
pub enum CharSet {
    Whitespace,
    DoubleQuote,
}

pub open spec fn in_set(k: CharSet, c: char) -> bool {
    match k {
        CharSet::Whitespace => is_whitespace(c),
        CharSet::DoubleQuote => c == '"',
    }
}

pub open spec fn trim_start_spec(s: Seq<char>, k: CharSet) -> Seq<char>
    decreases s.len(),
{
    if s.len() > 0 && in_set(k, s[0]) {
        trim_start_spec(s.drop_first(), k)
    } else {
        s
    }
}

pub open spec fn trim_end_spec(s: Seq<char>, k: CharSet) -> Seq<char>
    decreases s.len(),
{
    if s.len() > 0 && in_set(k, s.last()) {
        trim_end_spec(s.drop_last(), k)
    } else {
        s
    }
}

/// `s` without the characters of `k` at either end.
pub open spec fn trim_spec(s: Seq<char>, k: CharSet) -> Seq<char> {
    trim_end_spec(trim_start_spec(s, k), k)
}

/// Number of characters of `s` before the first `c` (all of `s` if there is none).
pub open spec fn span_until(s: Seq<char>, c: char) -> nat
    decreases s.len(),
{
    if s.len() == 0 {
        0
    } else if s[0] == c {
        0
    } else {
        1 + span_until(s.drop_first(), c)
    }
}

/// `str::split_once` with a single-character pattern.
pub open spec fn split_once_spec(s: Seq<char>, c: char) -> Option<(Seq<char>, Seq<char>)> {
    let j = span_until(s, c);
    if j == s.len() {
        None
    } else {
        Some((s.take(j as int), s.skip(j + 1 as int)))
    }
}

pub open spec fn strip_cr(line: Seq<char>) -> Seq<char> {
    if line.len() > 0 && line.last() == '\r' {
        line.drop_last()
    } else {
        line
    }
}

/// `str::lines`: split at `\n`, drop a `\r` that precedes the `\n`; a final line ending
/// adds no empty line.
pub open spec fn lines_spec(s: Seq<char>) -> Seq<Seq<char>>
    decreases s.len(),
{
    if s.len() == 0 {
        seq![]
    } else {
        let j = span_until(s, '\n');
        proof {
            lemma_span_until_le(s, '\n');
        }
        if j == s.len() {
            seq![s]
        } else {
            seq![strip_cr(s.take(j as int))] + lines_spec(s.skip(j + 1 as int))
        }
    }
}

pub open spec fn has_hex_prefix(s: Seq<char>) -> bool {
    s.len() >= 2 && s[0] == '0' && s[1] == 'x'
}

/// `str::trim_start_matches("0x")`: every leading `0x` removed.
pub open spec fn strip_hex_prefixes(s: Seq<char>) -> Seq<char>
    decreases s.len(),
{
    if has_hex_prefix(s) {
        strip_hex_prefixes(s.skip(2))
    } else {
        s
    }
}

pub proof fn lemma_span_until_le(s: Seq<char>, c: char)
    ensures
        span_until(s, c) <= s.len(),
    decreases s.len(),
{
    if s.len() > 0 && s[0] != c {
        lemma_span_until_le(s.drop_first(), c);
    }
}

pub proof fn lemma_trim_start(s: Seq<char>, k: CharSet, i: int)
    requires
        0 <= i <= s.len(),
        forall|j: int| 0 <= j < i ==> in_set(k, #[trigger] s[j]),
        i == s.len() || !in_set(k, s[i]),
    ensures
        trim_start_spec(s, k) == s.skip(i),
    decreases i,
{
    if i > 0 {
        assert(s.drop_first()[0] == s[1] || s.len() < 2);
        assert forall|j: int| 0 <= j < i - 1 implies in_set(k, #[trigger] s.drop_first()[j]) by {
            assert(s.drop_first()[j] == s[j + 1]);
        }
        lemma_trim_start(s.drop_first(), k, i - 1);
        assert(s.drop_first().skip(i - 1) =~= s.skip(i));
    } else {
        assert(s.skip(0) =~= s);
    }
}

pub proof fn lemma_trim_end(s: Seq<char>, k: CharSet, j: int)
    requires
        0 <= j <= s.len(),
        forall|m: int| j <= m < s.len() ==> in_set(k, #[trigger] s[m]),
        j == 0 || !in_set(k, s[j - 1]),
    ensures
        trim_end_spec(s, k) == s.take(j),
    decreases s.len() - j,
{
    if j < s.len() {
        assert(in_set(k, s[s.len() - 1]));
        lemma_trim_end(s.drop_last(), k, j);
        assert(s.drop_last().take(j) =~= s.take(j));
    } else {
        assert(s.take(j) =~= s);
    }
}

pub proof fn lemma_span_until(s: Seq<char>, c: char, j: int)
    requires
        0 <= j <= s.len(),
        forall|m: int| 0 <= m < j ==> #[trigger] s[m] != c,
        j == s.len() || s[j] == c,
    ensures
        span_until(s, c) == j,
    decreases j,
{
    if j > 0 {
        assert forall|m: int| 0 <= m < j - 1 implies #[trigger] s.drop_first()[m] != c by {
            assert(s.drop_first()[m] == s[m + 1]);
        }
        lemma_span_until(s.drop_first(), c, j - 1);
    }
}

pub fn in_set_exec(k: CharSet, c: char) -> (b: bool)
    ensures
        b == in_set(k, c),
{
    match k {
        CharSet::Whitespace => {
            let u = c as u32;
            (0x09 <= u && u <= 0x0D) || u == 0x20 || u == 0x85 || u == 0xA0 || u == 0x1680 || (
            0x2000 <= u && u <= 0x200A) || u == 0x2028 || u == 0x2029 || u == 0x202F || u
                == 0x205F || u == 0x3000
        },
        CharSet::DoubleQuote => c == '"',
    }
}

/// `s` with the characters of `k` removed from both ends (`str::trim` for whitespace,
/// `str::trim_matches('"')` for double quotes).
pub fn trim_set<'a>(s: &'a str, k: CharSet) -> (r: &'a str)
    ensures
        r@ == trim_spec(s@, k),
{
    let n = s.unicode_len();
    let mut i: usize = 0;
    while i < n && in_set_exec(k, s.get_char(i))
        invariant
            i <= n,
            n == s@.len(),
            forall|j: int| 0 <= j < i ==> in_set(k, #[trigger] s@[j]),
        decreases n - i,
    {
        i = i + 1;
    }
    let mut j: usize = n;
    while j > i && in_set_exec(k, s.get_char(j - 1))
        invariant
            i <= j <= n,
            n == s@.len(),
            forall|m: int| j <= m < n ==> in_set(k, #[trigger] s@[m]),
        decreases j,
    {
        j = j - 1;
    }
    proof {
        lemma_trim_start(s@, k, i as int);
        let t = s@.skip(i as int);
        assert forall|m: int| j - i <= m < t.len() implies in_set(k, #[trigger] t[m]) by {
            assert(t[m] == s@[m + i]);
        }
        if j > i {
            assert(t[j - i - 1] == s@[j - 1]);
        }
        lemma_trim_end(t, k, j - i);
        assert(t.take(j - i) =~= s@.subrange(i as int, j as int));
    }
    s.substring_char(i, j)
}

/// `str::trim`.
pub fn trim<'a>(s: &'a str) -> (r: &'a str)
    ensures
        r@ == trim_spec(s@, CharSet::Whitespace),
{
    trim_set(s, CharSet::Whitespace)
}

/// Index of the first `c` in `s`, or its length.
pub fn find_char(s: &str, c: char) -> (j: usize)
    ensures
        j == span_until(s@, c),
        j <= s@.len(),
        j < s@.len() ==> s@[j as int] == c,
        forall|m: int| 0 <= m < j ==> #[trigger] s@[m] != c,
{
    let n = s.unicode_len();
    let mut j: usize = 0;
    while j < n && s.get_char(j) != c
        invariant
            j <= n,
            n == s@.len(),
            forall|m: int| 0 <= m < j ==> #[trigger] s@[m] != c,
        decreases n - j,
    {
        j = j + 1;
    }
    proof {
        lemma_span_until(s@, c, j as int);
    }
    j
}

/// `str::split_once` with a single-character pattern.
pub fn split_once_char<'a>(s: &'a str, c: char) -> (r: Option<(&'a str, &'a str)>)
    ensures
        match r {
            None => split_once_spec(s@, c) is None,
            Some(p) => split_once_spec(s@, c) == Some((p.0@, p.1@)),
        },
{
    let n = s.unicode_len();
    let j = find_char(s, c);
    if j == n {
        None
    } else {
        let a = s.substring_char(0, j);
        let b = s.substring_char(j + 1, n);
        proof {
            assert(a@ =~= s@.take(j as int));
            assert(b@ =~= s@.skip(j + 1));
        }
        Some((a, b))
    }
}

/// Whether `s` holds `c`.
pub fn contains_char(s: &str, c: char) -> (b: bool)
    ensures
        b == s@.contains(c),
{
    let n = s.unicode_len();
    let j = find_char(s, c);
    proof {
        if j < n {
            assert(s@[j as int] == c);
        } else {
            assert forall|m: int| 0 <= m < s@.len() implies s@[m] != c by {
                if s@[m] == c {
                    lemma_first_occurrence(s@, c, m);
                }
            }
        }
    }
    j < n
}

proof fn lemma_first_occurrence(s: Seq<char>, c: char, m: int)
    requires
        0 <= m < s.len(),
        s[m] == c,
    ensures
        span_until(s, c) <= m,
    decreases m,
{
    if m > 0 && s[0] != c {
        assert(s.drop_first()[m - 1] == s[m]);
        lemma_first_occurrence(s.drop_first(), c, m - 1);
    }
}

/// Whether two strings hold the same characters.
pub fn str_equal(a: &str, b: &str) -> (r: bool)
    ensures
        r == (a@ == b@),
{
    let n = a.unicode_len();
    if n != b.unicode_len() {
        return false;
    }
    let mut i: usize = 0;
    while i < n
        invariant
            i <= n,
            n == a@.len(),
            n == b@.len(),
            forall|j: int| 0 <= j < i ==> a@[j] == b@[j],
        decreases n - i,
    {
        if a.get_char(i) != b.get_char(i) {
            return false;
        }
        i = i + 1;
    }
    assert(a@ =~= b@);
    true
}

/// `s` starts with `0x`.
pub fn starts_with_hex_prefix(s: &str) -> (b: bool)
    ensures
        b == has_hex_prefix(s@),
{
    let n = s.unicode_len();
    n >= 2 && s.get_char(0) == '0' && s.get_char(1) == 'x'
}

/// `str::trim_start_matches("0x")`.
pub fn strip_hex_prefixes_exec<'a>(s: &'a str) -> (r: &'a str)
    ensures
        r@ == strip_hex_prefixes(s@),
{
    let mut rest = s;
    while starts_with_hex_prefix(rest)
        invariant
            strip_hex_prefixes(s@) == strip_hex_prefixes(rest@),
        decreases rest@.len(),
    {
        let n = rest.unicode_len();
        let next = rest.substring_char(2, n);
        assert(next@ =~= rest@.skip(2));
        rest = next;
    }
    rest
}

/// Calls std's `String::push`, which appends the given character to the end of the
/// string; the contract claims exactly that and nothing else.
#[verifier::external_body]
pub(crate) fn push_char(s: &mut String, c: char)
    ensures
        final(s)@ == old(s)@.push(c),
{
    s.push(c);
}

/// An owned copy of `s`.
pub fn to_owned_string(s: &str) -> (r: String)
    ensures
        r@ == s@,
{
    String::from_str(s)
}

/// `a` followed by `b`.
pub fn concat_str(a: &str, b: &str) -> (r: String)
    ensures
        r@ == a@ + b@,
{
    let mut r = String::from_str(a);
    r.append(b);
    r
}

pub proof fn lemma_lines_step(s: Seq<char>, j: int)
    requires
        0 <= j < s.len(),
        forall|m: int| 0 <= m < j ==> #[trigger] s[m] != '\n',
        s[j] == '\n',
    ensures
        lines_spec(s) == seq![strip_cr(s.take(j))] + lines_spec(s.skip(j + 1)),
{
    lemma_span_until(s, '\n', j);
}

pub proof fn lemma_lines_last(s: Seq<char>)
    requires
        s.len() > 0,
        forall|m: int| 0 <= m < s.len() ==> #[trigger] s[m] != '\n',
    ensures
        lines_spec(s) == seq![s],
{
    lemma_span_until(s, '\n', s.len() as int);
}

proof fn lemma_span_until_props(s: Seq<char>, c: char)
    ensures
        span_until(s, c) <= s.len(),
        forall|m: int| 0 <= m < span_until(s, c) ==> s[m] != c,
        span_until(s, c) < s.len() ==> s[span_until(s, c) as int] == c,
    decreases s.len(),
{
    if s.len() > 0 && s[0] != c {
        lemma_span_until_props(s.drop_first(), c);
        assert forall|m: int| 0 <= m < span_until(s, c) implies s[m] != c by {
            if m > 0 {
                assert(s[m] == s.drop_first()[m - 1]);
            }
        }
    }
}

/// Text that does not end with a line break, a line break, then more text: its lines are
/// those of the first part, the last one losing a final `\r` to the line break, followed
/// by those of the rest. The last line of the first part is not empty and ends with its
/// last character; a bare `\r` as that line follows a line break.
pub proof fn lemma_lines_join(a: Seq<char>, u: Seq<char>)
    requires
        a.len() > 0,
        a.last() != '\n',
    ensures
        lines_spec(a).len() >= 1,
        lines_spec(a + seq!['\n'] + u) == lines_spec(a).update(
            lines_spec(a).len() - 1,
            strip_cr(lines_spec(a).last()),
        ) + lines_spec(u),
        lines_spec(a).last().len() > 0,
        lines_spec(a).last().last() == a.last(),
        lines_spec(a).len() == 1 ==> lines_spec(a)[0] == a,
        lines_spec(a).len() >= 2 && lines_spec(a).last() == seq!['\r'] ==> a.len() >= 2 && a[a.len()
            - 2] == '\n',
    decreases a.len(),
{
    let s = a + seq!['\n'] + u;
    lemma_span_until_props(a, '\n');
    let j = span_until(a, '\n') as int;
    if j == a.len() {
        assert forall|m: int| 0 <= m < j implies #[trigger] s[m] != '\n' by {
            assert(s[m] == a[m]);
        }
        lemma_lines_step(s, j);
        assert(s.take(j) =~= a);
        assert(s.skip(j + 1) =~= u);
        lemma_lines_last(a);
        assert(seq![a].update(0, strip_cr(a)) =~= seq![strip_cr(a)]);
    } else {
        assert(j < a.len() - 1);
        assert forall|m: int| 0 <= m < j implies #[trigger] s[m] != '\n' by {
            assert(s[m] == a[m]);
        }
        assert forall|m: int| 0 <= m < j implies #[trigger] a[m] != '\n' by {}
        lemma_lines_step(s, j);
        lemma_lines_step(a, j);
        let b = a.skip(j + 1);
        assert(s.take(j) =~= a.take(j));
        assert(s.skip(j + 1) =~= b + seq!['\n'] + u);
        assert(b.last() == a.last());
        lemma_lines_join(b, u);
        let x = strip_cr(a.take(j));
        let lb = lines_spec(b);
        let la = lines_spec(a);
        assert(la == seq![x] + lb);
        assert(la.last() == lb.last());
        assert(la.update(la.len() - 1, strip_cr(la.last())) =~= seq![x] + lb.update(
            lb.len() - 1,
            strip_cr(lb.last()),
        ));
        if la.last() == seq!['\r'] {
            if lb.len() >= 2 {
                assert(b[b.len() - 2] == a[a.len() - 2]);
            } else {
                assert(b.len() == 1);
                assert(a[a.len() - 2] == a[j]);
            }
        }
    }
}

/// Text that ends in `\r`, without the `\r`: the same after trimming whitespace.
pub proof fn lemma_trim_drops_cr(l: Seq<char>)
    ensures
        trim_spec(l.push('\r'), CharSet::Whitespace) == trim_spec(l, CharSet::Whitespace),
{
    let k = CharSet::Whitespace;
    lemma_trim_start_push(l, '\r', k);
    assert(in_set(k, '\r'));
    let x = trim_start_spec(l, k);
    if x.len() == 0 {
        assert(seq!['\r'].drop_first() =~= Seq::<char>::empty());
        assert(trim_start_spec(seq!['\r'], k) == trim_start_spec(Seq::<char>::empty(), k));
    } else {
        assert(x.push('\r').drop_last() =~= x);
    }
}

proof fn lemma_trim_start_push(s: Seq<char>, c: char, k: CharSet)
    ensures
        trim_start_spec(s.push(c), k) == if trim_start_spec(s, k).len() == 0 {
            trim_start_spec(seq![c], k)
        } else {
            trim_start_spec(s, k).push(c)
        },
    decreases s.len(),
{
    if s.len() == 0 {
        assert(s.push(c) =~= seq![c]);
    } else if in_set(k, s[0]) {
        assert(s.push(c).drop_first() =~= s.drop_first().push(c));
        assert(s.push(c)[0] == s[0]);
        lemma_trim_start_push(s.drop_first(), c, k);
    } else {
        assert(s.push(c)[0] == s[0]);
    }
}

/// Text that ends with a line break, then more text: its lines are those of the first
/// part followed by those of the rest.
pub proof fn lemma_lines_after_break(a: Seq<char>, u: Seq<char>)
    requires
        a.len() > 0,
        a.last() == '\n',
    ensures
        lines_spec(a + u) == lines_spec(a) + lines_spec(u),
    decreases a.len(),
{
    let s = a + u;
    lemma_span_until_props(a, '\n');
    let j = span_until(a, '\n') as int;
    assert forall|m: int| 0 <= m < j implies #[trigger] s[m] != '\n' by {
        assert(s[m] == a[m]);
    }
    assert forall|m: int| 0 <= m < j implies #[trigger] a[m] != '\n' by {}
    lemma_lines_step(s, j);
    lemma_lines_step(a, j);
    let b = a.skip(j + 1);
    assert(s.take(j) =~= a.take(j));
    assert(s.skip(j + 1) =~= b + u);
    if b.len() > 0 {
        assert(b.last() == a.last());
        lemma_lines_after_break(b, u);
    } else {
        assert(b + u =~= u);
    }
}

/// `line` without one trailing `\r`.
fn strip_cr_exec<'a>(line: &'a str) -> (r: &'a str)
    ensures
        r@ == strip_cr(line@),
{
    let n = line.unicode_len();
    if n > 0 && line.get_char(n - 1) == '\r' {
        let r = line.substring_char(0, n - 1);
        assert(r@ =~= line@.drop_last());
        r
    } else {
        line
    }
}

pub open spec fn string_views(v: Seq<String>) -> Seq<Seq<char>> {
    v.map_values(|x: String| x@)
}

pub open spec fn views(v: Seq<&str>) -> Seq<Seq<char>> {
    v.map_values(|x: &str| x@)
}

/// `str::lines`, collected.
pub fn lines<'a>(s: &'a str) -> (r: Vec<&'a str>)
    ensures
        views(r@) == lines_spec(s@),
{
    let n = s.unicode_len();
    let mut out: Vec<&'a str> = Vec::new();
    let mut start: usize = 0;
    let mut pos: usize = 0;
    assert(s@.skip(0) =~= s@);
    assert(views(out@) + lines_spec(s@) =~= lines_spec(s@));
    while pos < n
        invariant
            start <= pos <= n,
            n == s@.len(),
            forall|m: int| start <= m < pos ==> #[trigger] s@[m] != '\n',
            views(out@) + lines_spec(s@.skip(start as int)) == lines_spec(s@),
        decreases n - pos,
    {
        if s.get_char(pos) == '\n' {
            let line = strip_cr_exec(s.substring_char(start, pos));
            proof {
                let t = s@.skip(start as int);
                assert forall|m: int| 0 <= m < pos - start implies #[trigger] t[m] != '\n' by {
                    assert(t[m] == s@[m + start]);
                }
                assert(t[pos - start] == s@[pos as int]);
                lemma_lines_step(t, pos - start);
                assert(t.take(pos - start) =~= s@.subrange(start as int, pos as int));
                assert(t.skip(pos - start + 1) =~= s@.skip(pos + 1));
                assert(views(out@.push(line)) =~= views(out@).push(line@));
                assert(views(out@).push(line@) + lines_spec(s@.skip(pos + 1)) =~= views(out@) + (
                seq![line@] + lines_spec(s@.skip(pos + 1))));
            }
            out.push(line);
            start = pos + 1;
        }
        pos = pos + 1;
    }
    proof {
        let t = s@.skip(start as int);
        if start < n {
            assert forall|m: int| 0 <= m < t.len() implies #[trigger] t[m] != '\n' by {
                assert(t[m] == s@[m + start]);
            }
            lemma_lines_last(t);
        } else {
            assert(t.len() == 0);
        }
    }
    if start < n {
        let last = s.substring_char(start, n);
        proof {
            assert(last@ =~= s@.skip(start as int));
            assert(views(out@.push(last)) =~= views(out@).push(last@));
        }
        out.push(last);
    } else {
        proof {
            assert(views(out@) + seq![] =~= views(out@));
        }
    }
    out
}

} // verus!
