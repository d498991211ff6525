//! Characters, numbers and lines: the text the other modules read and write.
//!
//! Everything here is stated over `Seq<char>`, the view of both `str` and `String`.

use vstd::prelude::*;

verus! {

/// Whether `c` separates words: Unicode's `White_Space` property.
pub open spec fn is_white(c: char) -> bool {
    let u = c as u32;
    ||| 0x9 <= u <= 0xD
    ||| u == 0x20
    ||| u == 0x85
    ||| u == 0xA0
    ||| u == 0x1680
    ||| 0x2000 <= u <= 0x200A
    ||| u == 0x2028
    ||| u == 0x2029
    ||| u == 0x202F
    ||| u == 0x205F
    ||| u == 0x3000
}

/// `s` without the white space it starts with.
pub open spec fn trim_start(s: Seq<char>) -> Seq<char>
    decreases s.len(),
{
    if s.len() > 0 && is_white(s[0]) {
        trim_start(s.skip(1))
    } else {
        s
    }
}

/// `s` without the white space it ends with.
pub open spec fn trim_end(s: Seq<char>) -> Seq<char>
    decreases s.len(),
{
    if s.len() > 0 && is_white(s.last()) {
        trim_end(s.drop_last())
    } else {
        s
    }
}

/// `s` without the white space around it.
pub open spec fn trimmed(s: Seq<char>) -> Seq<char> {
    trim_end(trim_start(s))
}

/// How many characters of `s` come before the first `c`; all of them when there is none.
pub open spec fn before(s: Seq<char>, c: char) -> nat
    decreases s.len(),
{
    if s.len() == 0 || s[0] == c {
        0
    } else {
        1 + before(s.skip(1), c)
    }
}

/// The parts of `s` on either side of its first `c`.
pub open spec fn halves(s: Seq<char>, c: char) -> Option<(Seq<char>, Seq<char>)> {
    let n = before(s, c);
    if n < s.len() {
        Some((s.take(n as int), s.skip(n as int + 1)))
    } else {
        None
    }
}

/// The parts of `s` between its `c`s. Never empty: text without a `c` is one part.
pub open spec fn parts(s: Seq<char>, c: char) -> Seq<Seq<char>>
    decreases s.len(),
{
    let n = before(s, c);
    if n < s.len() {
        seq![s.take(n as int)] + parts(s.skip(n as int + 1), c)
    } else {
        seq![s]
    }
}

/// A line without the carriage return that may stand before its line feed.
pub open spec fn without_return(s: Seq<char>) -> Seq<char> {
    if s.len() > 0 && s.last() == '\r' {
        s.drop_last()
    } else {
        s
    }
}

/// The lines of `s`. A line feed ends a line, so text that ends in one has no empty
/// line behind it.
pub open spec fn lines_of(s: Seq<char>) -> Seq<Seq<char>>
    decreases s.len(),
{
    let n = before(s, '\n');
    if n < s.len() {
        seq![without_return(s.take(n as int))] + lines_of(s.skip(n as int + 1))
    } else if s.len() > 0 {
        seq![s]
    } else {
        seq![]
    }
}

/// What a list of strings holds.
pub open spec fn texts(v: Seq<String>) -> Seq<Seq<char>> {
    v.map_values(|x: String| x@)
}

pub proof fn lemma_before(s: Seq<char>, c: char, n: nat)
    requires
        n <= s.len(),
        forall|i: int| 0 <= i < n ==> s[i] != c,
        n < s.len() ==> s[n as int] == c,
    ensures
        before(s, c) == n,
    decreases n,
{
    if n > 0 {
        let t = s.skip(1);
        assert(forall|i: int| 0 <= i < n - 1 ==> t[i] == s[i + 1]);
        if n < s.len() {
            assert(t[n - 1] == s[n as int]);
        }
        lemma_before(t, c, (n - 1) as nat);
    }
}

pub proof fn lemma_before_is(s: Seq<char>, c: char)
    ensures
        before(s, c) <= s.len(),
        forall|i: int| 0 <= i < before(s, c) ==> s[i] != c,
        before(s, c) < s.len() ==> s[before(s, c) as int] == c,
    decreases s.len(),
{
    if s.len() > 0 && s[0] != c {
        let t = s.skip(1);
        lemma_before_is(t, c);
        assert forall|i: int| 0 <= i < before(s, c) implies s[i] != c by {
            if i > 0 {
                assert(t[i - 1] == s[i]);
            }
        }
    }
}

/// Text with `c` and one more part behind it has that part as its last.
pub proof fn lemma_parts_push(a: Seq<char>, c: char, b: Seq<char>)
    requires
        forall|i: int| 0 <= i < b.len() ==> b[i] != c,
    ensures
        parts(a + seq![c] + b, c) == parts(a, c).push(b),
    decreases a.len(),
{
    let w = a + seq![c] + b;
    let n = before(a, c);
    lemma_before_is(a, c);
    lemma_before(w, c, n);
    if n < a.len() {
        assert(w.skip(n as int + 1) =~= a.skip(n as int + 1) + seq![c] + b);
        assert(w.take(n as int) =~= a.take(n as int));
        lemma_parts_push(a.skip(n as int + 1), c, b);
        assert(parts(w, c) =~= parts(a, c).push(b));
    } else {
        assert(w.take(n as int) =~= a);
        assert(w.skip(n as int + 1) =~= b);
        lemma_parts_one(b, c);
        lemma_parts_one(a, c);
        assert(parts(w, c) =~= seq![a].push(b));
    }
}

/// Text without `c` is one part.
pub proof fn lemma_parts_one(b: Seq<char>, c: char)
    requires
        forall|i: int| 0 <= i < b.len() ==> b[i] != c,
    ensures
        parts(b, c) == seq![b],
{
    lemma_before(b, c, b.len());
}

/// Text with `c` between two sides, the first without it, is split there.
pub proof fn lemma_halves(a: Seq<char>, c: char, b: Seq<char>)
    requires
        forall|i: int| 0 <= i < a.len() ==> a[i] != c,
    ensures
        halves(a + seq![c] + b, c) == Some((a, b)),
{
    let w = a + seq![c] + b;
    lemma_before(w, c, a.len());
    assert(w.take(a.len() as int) =~= a);
    assert(w.skip(a.len() as int + 1) =~= b);
}

/// Lines as text, each ended by a line feed.
pub open spec fn unlined(ls: Seq<Seq<char>>) -> Seq<char>
    decreases ls.len(),
{
    if ls.len() == 0 {
        seq![]
    } else {
        unlined(ls.drop_last()) + ls.last().push('\n')
    }
}

/// Whether a text can stand on a line of its own and be read back from it.
pub open spec fn is_line(l: Seq<char>) -> bool {
    &&& forall|i: int| 0 <= i < l.len() ==> l[i] != '\n'
    &&& l.len() > 0 ==> l.last() != '\r'
}

proof fn lemma_lines_push(a: Seq<char>, l: Seq<char>)
    requires
        a.len() > 0 ==> a.last() == '\n',
        is_line(l),
    ensures
        lines_of(a + l.push('\n')) == lines_of(a).push(l),
    decreases a.len(),
{
    let w = a + l.push('\n');
    if a.len() == 0 {
        lemma_before(w, '\n', l.len());
        assert(w.take(l.len() as int) =~= l);
        let rest = w.skip(l.len() as int + 1);
        assert(rest.len() == 0);
        lemma_before(rest, '\n', 0);
        assert(lines_of(rest) =~= seq![]);
        lemma_before(a, '\n', 0);
        assert(lines_of(w) =~= lines_of(a).push(l));
    } else {
        let n = before(a, '\n');
        lemma_before_is(a, '\n');
        assert(n < a.len());
        lemma_before(w, '\n', n);
        let rest = a.skip(n as int + 1);
        assert(w.take(n as int) =~= a.take(n as int));
        assert(w.skip(n as int + 1) =~= rest + l.push('\n'));
        lemma_lines_push(rest, l);
        assert(lines_of(w) =~= lines_of(a).push(l));
    }
}

/// Lines written one below the other read back as themselves.
pub proof fn lemma_lines(ls: Seq<Seq<char>>)
    requires
        forall|i: int| 0 <= i < ls.len() ==> is_line(#[trigger] ls[i]),
    ensures
        lines_of(unlined(ls)) == ls,
        ls.len() > 0 ==> unlined(ls).len() > 0 && unlined(ls).last() == '\n',
    decreases ls.len(),
{
    if ls.len() == 0 {
        lemma_before(seq![], '\n', 0);
        assert(lines_of(unlined(ls)) =~= ls);
    } else {
        lemma_lines(ls.drop_last());
        lemma_lines_push(unlined(ls.drop_last()), ls.last());
        assert(ls.drop_last().push(ls.last()) =~= ls);
    }
}

/// Text that neither starts nor ends in white space is not trimmed.
pub proof fn lemma_trimmed_same(s: Seq<char>)
    requires
        s.len() > 0 ==> !is_white(s[0]) && !is_white(s.last()),
    ensures
        trimmed(s) == s,
{
}

/// Trimming drops white space at the ends, all of it and nothing else.
pub proof fn trimming_drops_the_white_space_around(s: Seq<char>) -> (ends: (int, int))
    ensures
        0 <= ends.0 <= ends.1 <= s.len(),
        trimmed(s) == s.subrange(ends.0, ends.1),
        forall|i: int| 0 <= i < ends.0 ==> is_white(#[trigger] s[i]),
        forall|i: int| ends.1 <= i < s.len() ==> is_white(#[trigger] s[i]),
        trimmed(s).len() > 0 ==> !is_white(trimmed(s)[0]) && !is_white(trimmed(s).last()),
{
    let a = lemma_start_trimmed(s);
    let t = trim_start(s);
    let n = lemma_end_trimmed(t);
    assert(trimmed(s) =~= s.subrange(a, a + n));
    assert forall|i: int| a + n <= i < s.len() implies is_white(#[trigger] s[i]) by {
        assert(t[i - a] == s[i]);
    }
    (a, a + n)
}

proof fn lemma_start_trimmed(s: Seq<char>) -> (a: int)
    ensures
        0 <= a <= s.len(),
        trim_start(s) == s.skip(a),
        forall|i: int| 0 <= i < a ==> is_white(#[trigger] s[i]),
        a < s.len() ==> !is_white(s[a]),
    decreases s.len(),
{
    if s.len() > 0 && is_white(s[0]) {
        let b = lemma_start_trimmed(s.skip(1));
        assert(s.skip(1).skip(b) =~= s.skip(b + 1));
        assert forall|i: int| 0 <= i < b + 1 implies is_white(#[trigger] s[i]) by {
            if i > 0 {
                assert(s.skip(1)[i - 1] == s[i]);
            }
        }
        b + 1
    } else {
        assert(s.skip(0) =~= s);
        0
    }
}

proof fn lemma_end_trimmed(s: Seq<char>) -> (n: int)
    ensures
        0 <= n <= s.len(),
        trim_end(s) == s.take(n),
        forall|i: int| n <= i < s.len() ==> is_white(#[trigger] s[i]),
        n > 0 ==> !is_white(s[n - 1]),
    decreases s.len(),
{
    if s.len() > 0 && is_white(s.last()) {
        let n = lemma_end_trimmed(s.drop_last());
        assert(s.drop_last().take(n) =~= s.take(n));
        assert forall|i: int| n <= i < s.len() implies is_white(#[trigger] s[i]) by {
            if i < s.len() - 1 {
                assert(s.drop_last()[i] == s[i]);
            }
        }
        n
    } else {
        assert(s.take(s.len() as int) =~= s);
        s.len() as int
    }
}

/// Whether two texts are the same.
pub fn same(a: &str, b: &str) -> (r: bool)
    ensures
        r == (a@ == b@),
{
    a.to_owned() == b.to_owned()
}

/// The characters of `s`.
pub fn chars_of(s: &str) -> (r: Vec<char>)
    ensures
        r@ == s@,
{
    let mut out: Vec<char> = Vec::new();
    for c in it: s.chars()
        invariant
            it.seq() == s@,
            out@ == s@.take(it.index() as int),
    {
        assert(s@.take(it.index() as int).push(c) =~= s@.take(it.index() + 1));
        out.push(c);
    }
    assert(s@.take(s@.len() as int) =~= s@);
    out
}

/// Whether `c` separates words.
pub fn white(c: char) -> (r: bool)
    ensures
        r == is_white(c),
{
    let u: u32 = c as u32;
    (0x9 <= u && u <= 0xD) || u == 0x20 || u == 0x85 || u == 0xA0 || u == 0x1680 || (0x2000 <= u
        && u <= 0x200A) || u == 0x2028 || u == 0x2029 || u == 0x202F || u == 0x205F || u == 0x3000
}

/// `s` without the white space around it.
pub fn trim(s: &str) -> (r: &str)
    ensures
        r@ == trimmed(s@),
{
    let chars = chars_of(s);
    let n: usize = chars.len();
    let mut from: usize = 0;
    assert(s@.skip(0) =~= s@);
    while from < n && white(chars[from])
        invariant
            n == chars@.len(),
            chars@ == s@,
            from <= n,
            trim_start(s@) == trim_start(s@.skip(from as int)),
        decreases n - from,
    {
        assert(s@.skip(from as int).skip(1) =~= s@.skip(from + 1));
        from = from + 1;
    }
    let ghost rest = s@.skip(from as int);
    assert(trim_start(s@) == rest);
    let mut to: usize = n;
    assert(rest.take(n - from) =~= rest);
    while from < to && white(chars[to - 1])
        invariant
            n == chars@.len(),
            chars@ == s@,
            from <= to <= n,
            rest == s@.skip(from as int),
            trim_end(rest) == trim_end(rest.take(to - from)),
        decreases to - from,
    {
        assert(rest.take(to - from).last() == s@[to - 1]);
        assert(rest.take(to - from).drop_last() =~= rest.take(to - 1 - from));
        to = to - 1;
    }
    assert(rest.take(to - from) =~= s@.subrange(from as int, to as int));
    s.substring_char(from, to)
}

/// Where the first `c` stands, or the length of `s`.
pub fn find(s: &str, c: char) -> (r: usize)
    ensures
        r == before(s@, c),
        r <= s@.len(),
{
    let chars = chars_of(s);
    let n: usize = chars.len();
    let mut i: usize = 0;
    while i < n && chars[i] != c
        invariant
            n == chars@.len(),
            chars@ == s@,
            i <= n,
            forall|j: int| 0 <= j < i ==> s@[j] != c,
        decreases n - i,
    {
        i = i + 1;
    }
    proof {
        lemma_before(s@, c, i as nat);
    }
    i
}

/// The two sides of the first `c` in `s`.
pub fn split_once(s: &str, c: char) -> (r: Option<(&str, &str)>)
    ensures
        match r {
            Some(p) => halves(s@, c) == Some((p.0@, p.1@)),
            None => halves(s@, c) is None,
        },
{
    let i: usize = find(s, c);
    let n: usize = s.unicode_len();
    if i < n {
        assert(s@.subrange(0, i as int) =~= s@.take(i as int));
        assert(s@.subrange(i + 1, n as int) =~= s@.skip(i + 1));
        Some((s.substring_char(0, i), s.substring_char(i + 1, n)))
    } else {
        None
    }
}

/// The part of `s` before its first `c`, or all of it.
pub fn until(s: &str, c: char) -> (r: &str)
    ensures
        r@ == s@.take(before(s@, c) as int),
{
    let i: usize = find(s, c);
    assert(s@.subrange(0, i as int) =~= s@.take(i as int));
    s.substring_char(0, i)
}

/// What a list of borrowed strings holds.
pub open spec fn views(v: Seq<&str>) -> Seq<Seq<char>> {
    v.map_values(|x: &str| x@)
}

/// The parts of `s` between its `c`s.
pub fn split(s: &str, c: char) -> (r: Vec<&str>)
    ensures
        views(r@) == parts(s@, c),
{
    let mut out: Vec<&str> = Vec::new();
    let mut rest: &str = s;
    assert(views(out@) =~= seq![]);
    assert(views(out@) + parts(rest@, c) =~= parts(s@, c));
    loop
        invariant
            views(out@) + parts(rest@, c) == parts(s@, c),
        decreases rest@.len(),
    {
        let ghost had = out@;
        match split_once(rest, c) {
            Some(p) => {
                out.push(p.0);
                proof {
                    assert(views(out@) =~= views(had).push(p.0@));
                    assert(views(had) + (seq![p.0@] + parts(p.1@, c)) =~= views(had).push(p.0@)
                        + parts(p.1@, c));
                }
                rest = p.1;
            },
            None => {
                out.push(rest);
                proof {
                    assert(views(out@) =~= views(had) + seq![rest@]);
                }
                return out;
            },
        }
    }
}

/// The lines of `s`.
pub fn lines(s: &str) -> (r: Vec<&str>)
    ensures
        views(r@) == lines_of(s@),
{
    let mut out: Vec<&str> = Vec::new();
    let mut rest: &str = s;
    assert(views(out@) =~= seq![]);
    assert(views(out@) + lines_of(rest@) =~= lines_of(s@));
    loop
        invariant
            views(out@) + lines_of(rest@) == lines_of(s@),
        decreases rest@.len(),
    {
        let ghost had = out@;
        match split_once(rest, '\n') {
            Some(p) => {
                let n: usize = p.0.unicode_len();
                let line: &str = if n > 0 && p.0.get_char(n - 1) == '\r' {
                    assert(p.0@.subrange(0, n - 1) =~= p.0@.drop_last());
                    p.0.substring_char(0, n - 1)
                } else {
                    p.0
                };
                out.push(line);
                proof {
                    assert(line@ == without_return(p.0@));
                    assert(views(out@) =~= views(had).push(line@));
                    assert(views(had) + (seq![line@] + lines_of(p.1@)) =~= views(had).push(line@)
                        + lines_of(p.1@));
                }
                rest = p.1;
            },
            None => {
                if rest.unicode_len() > 0 {
                    out.push(rest);
                    proof {
                        assert(views(out@) =~= views(had) + seq![rest@]);
                    }
                } else {
                    assert(views(had) + seq![] =~= views(had));
                }
                return out;
            },
        }
    }
}

/// Whether `s` starts with `prefix`.
pub fn starts_with(s: &str, prefix: &str) -> (r: bool)
    ensures
        r == prefix@.is_prefix_of(s@),
{
    let n: usize = prefix.unicode_len();
    if n > s.unicode_len() {
        return false;
    }
    assert(prefix@.is_prefix_of(s@) <==> s@.subrange(0, n as int) =~= prefix@);
    same(s.substring_char(0, n), prefix)
}

/// Whether `list` holds `s`.
pub fn one_of(s: &str, list: &[&str]) -> (r: bool)
    ensures
        r == views(list@).contains(s@),
{
    let mut i: usize = 0;
    while i < list.len()
        invariant
            i <= list@.len(),
            forall|j: int| 0 <= j < i ==> views(list@)[j] != s@,
        decreases list@.len() - i,
    {
        if same(list[i], s) {
            assert(views(list@)[i as int] == s@);
            return true;
        }
        i = i + 1;
    }
    false
}

/// Whether `s` has `part` somewhere in it.
pub open spec fn holds(s: Seq<char>, part: Seq<char>) -> bool {
    exists|i: int|
        0 <= i <= s.len() - part.len() && #[trigger] s.subrange(i, i + part.len()) == part
}

/// Whether `s` has `part` somewhere in it.
pub fn contains(s: &str, part: &str) -> (r: bool)
    ensures
        r == holds(s@, part@),
{
    let n: usize = s.unicode_len();
    let m: usize = part.unicode_len();
    if m > n {
        return false;
    }
    let mut i: usize = 0;
    while i <= n - m
        invariant
            n == s@.len(),
            m == part@.len(),
            m <= n,
            i <= n - m + 1,
            forall|j: int| 0 <= j < i ==> #[trigger] s@.subrange(j, j + m) != part@,
        decreases n - m + 1 - i,
    {
        if same(s.substring_char(i, i + m), part) {
            assert(s@.subrange(i as int, i + part@.len()) == part@);
            return true;
        }
        if i == n - m {
            return false;
        }
        i = i + 1;
    }
    false
}

/// How many characters of `s` come before the first white space.
pub open spec fn word_len(s: Seq<char>) -> nat
    decreases s.len(),
{
    if s.len() == 0 || is_white(s[0]) {
        0
    } else {
        1 + word_len(s.skip(1))
    }
}

/// The words of `s`: what stands between its white space.
pub open spec fn words_of(s: Seq<char>) -> Seq<Seq<char>>
    decreases s.len(),
    when true
    via words_of_decreases
{
    let t = trim_start(s);
    if t.len() == 0 {
        seq![]
    } else {
        seq![t.take(word_len(t) as int)] + words_of(t.skip(word_len(t) as int))
    }
}

#[via_fn]
proof fn words_of_decreases(s: Seq<char>) {
    lemma_trim_start(s);
    lemma_word_len(trim_start(s));
}

proof fn lemma_trim_start(s: Seq<char>)
    ensures
        trim_start(s).len() <= s.len(),
        trim_start(s).len() > 0 ==> !is_white(trim_start(s)[0]),
        trim_start(s) == s.skip(s.len() - trim_start(s).len()),
    decreases s.len(),
{
    if s.len() > 0 && is_white(s[0]) {
        lemma_trim_start(s.skip(1));
        assert(s.skip(s.len() - trim_start(s).len()) =~= s.skip(1).skip(
            s.len() - 1 - trim_start(s).len(),
        ));
    } else {
        assert(s.skip(0) =~= s);
    }
}

proof fn lemma_word_len(s: Seq<char>)
    ensures
        word_len(s) <= s.len(),
        s.len() > 0 && !is_white(s[0]) ==> word_len(s) > 0,
    decreases s.len(),
{
    if s.len() > 0 && !is_white(s[0]) {
        lemma_word_len(s.skip(1));
    }
}

proof fn lemma_word_len_is(s: Seq<char>, n: nat)
    requires
        n <= s.len(),
        forall|i: int| 0 <= i < n ==> !is_white(#[trigger] s[i]),
        n < s.len() ==> is_white(s[n as int]),
    ensures
        word_len(s) == n,
    decreases n,
{
    if n > 0 {
        let t = s.skip(1);
        assert(!is_white(s[0]));
        assert forall|i: int| 0 <= i < n - 1 implies !is_white(#[trigger] t[i]) by {
            assert(t[i] == s[i + 1]);
        }
        lemma_word_len_is(t, (n - 1) as nat);
    }
}

/// The words of `s`.
pub fn words(s: &str) -> (r: Vec<&str>)
    ensures
        views(r@) == words_of(s@),
{
    let chars = chars_of(s);
    let n: usize = chars.len();
    let mut out: Vec<&str> = Vec::new();
    let mut i: usize = 0;
    assert(s@.skip(0) =~= s@);
    assert(views(out@) =~= seq![]);
    assert(views(out@) + words_of(s@.skip(0)) =~= words_of(s@));
    loop
        invariant
            n == chars@.len(),
            chars@ == s@,
            i <= n,
            views(out@) + words_of(s@.skip(i as int)) == words_of(s@),
        decreases n - i,
    {
        let ghost rest = s@.skip(i as int);
        let ghost had = out@;
        let mut from: usize = i;
        assert(s@.skip(from as int) =~= rest);
        while from < n && white(chars[from])
            invariant
                n == chars@.len(),
                chars@ == s@,
                i <= from <= n,
                trim_start(rest) == trim_start(s@.skip(from as int)),
            decreases n - from,
        {
            assert(s@.skip(from as int).skip(1) =~= s@.skip(from + 1));
            from = from + 1;
        }
        let ghost t = s@.skip(from as int);
        assert(trim_start(rest) == t);
        if from == n {
            assert(views(had) + seq![] =~= views(had));
            return out;
        }
        let mut to: usize = from;
        while to < n && !white(chars[to])
            invariant
                n == chars@.len(),
                chars@ == s@,
                from <= to <= n,
                t == s@.skip(from as int),
                forall|k: int| 0 <= k < to - from ==> !is_white(#[trigger] t[k]),
            decreases n - to,
        {
            to = to + 1;
        }
        proof {
            lemma_word_len_is(t, (to - from) as nat);
            assert(s@.subrange(from as int, to as int) =~= t.take(to - from));
            assert(t.skip(to - from) =~= s@.skip(to as int));
            assert(!is_white(t[0]));
        }
        let word = s.substring_char(from, to);
        out.push(word);
        proof {
            assert(views(out@) =~= views(had).push(word@));
            assert(views(had) + (seq![word@] + words_of(s@.skip(to as int))) =~= views(had).push(
                word@,
            ) + words_of(s@.skip(to as int)));
        }
        i = to;
    }
}

/// How many characters of `s` come before its last `c`, if it has one.
pub open spec fn before_last(s: Seq<char>, c: char) -> Option<nat>
    decreases s.len(),
{
    if s.len() == 0 {
        None
    } else if s.last() == c {
        Some((s.len() - 1) as nat)
    } else {
        before_last(s.drop_last(), c)
    }
}

/// Where the last `c` stands.
pub fn find_last(s: &str, c: char) -> (r: Option<usize>)
    ensures
        match r {
            Some(i) => i < s@.len() && before_last(s@, c) == Some(i as nat),
            None => before_last(s@, c) is None,
        },
{
    let chars = chars_of(s);
    let mut n: usize = chars.len();
    assert(s@.take(n as int) =~= s@);
    while n > 0
        invariant
            n <= chars@.len(),
            chars@ == s@,
            before_last(s@, c) == before_last(s@.take(n as int), c),
        decreases n,
    {
        let ghost here = s@.take(n as int);
        assert(here.drop_last() =~= s@.take(n - 1));
        assert(here.last() == chars@[n - 1]);
        if chars[n - 1] == c {
            return Some(n - 1);
        }
        n = n - 1;
    }
    None
}

/// A text in lower case.
pub uninterp spec fn in_lower_case(s: Seq<char>) -> Seq<char>;

/// `s` in lower case, as std's `str::to_lowercase` gives it. Claimed of it is only that the
/// result depends on the text and nothing else; which character becomes which is Unicode's
/// to say and left unsaid.
#[verifier::external_body]
pub(crate) fn lowered(s: &str) -> (r: String)
    ensures
        r@ == in_lower_case(s@),
{
    s.to_lowercase()
}

/// What a text looks like in quotes, with escapes for what does not print as itself.
pub uninterp spec fn in_quotes(s: Seq<char>) -> Seq<char>;

/// `s` in quotes, as the `Debug` implementation of std's `str` writes it. Claimed of it is
/// only that the result depends on the text and nothing else; how it escapes characters is
/// left unsaid.
#[verifier::external_body]
pub(crate) fn quoted(s: &str) -> (r: String)
    ensures
        r@ == in_quotes(s@),
{
    format!("{:?}", s)
}

/// A word followed by white space is the first word, and the others are those of what follows.
/// White space before a word does not count, and text of nothing else has no words.
pub proof fn words_stand_between_white_space(w: Seq<char>, c: char, s: Seq<char>)
    requires
        forall|i: int| 0 <= i < w.len() ==> !is_white(w[i]),
        is_white(c),
    ensures
        w.len() > 0 ==> words_of(w + seq![c] + s) == seq![w] + words_of(s),
        w.len() > 0 ==> words_of(w) == seq![w],
        words_of(seq![c] + s) == words_of(s),
        words_of(seq![]) == Seq::<Seq<char>>::empty(),
{
    let none = Seq::<char>::empty();
    assert(words_of(none) =~= seq![]);
    let t = seq![c] + s;
    assert(t.skip(1) =~= s);
    assert(trim_start(t) == trim_start(s));
    if w.len() > 0 {
        let all = w + t;
        assert(w + seq![c] + s =~= all);
        assert(all[0] == w[0]);
        assert(trim_start(all) == all);
        lemma_word_len_is(all, w.len());
        assert(all.take(w.len() as int) =~= w);
        assert(all.skip(w.len() as int) =~= t);
        assert(words_of(all) == seq![w] + words_of(t));
        assert(trim_start(w) == w);
        lemma_word_len_is(w, w.len());
        assert(w.take(w.len() as int) =~= w);
        assert(w.skip(w.len() as int) =~= none);
        assert(words_of(w) =~= seq![w]);
    }
}

/// Up to the last character that a keyboard has, white space is the blank and what moves the
/// cursor on: the tab, the line feed and their like.
pub proof fn plain_white_space_is_blanks_and_line_ends(c: char)
    requires
        (c as u32) < 0x7F,
    ensures
        is_white(c) <==> c == ' ' || c == '\t' || c == '\n' || c == '\r' || c as u32 == 0xB || c as u32
            == 0xC,
{
}

/// A line ends at a line feed, and a carriage return before that does not belong to it. What
/// stands behind the last line feed is a line too, if anything does.
pub proof fn a_line_ends_at_a_line_feed(l: Seq<char>, s: Seq<char>)
    requires
        forall|i: int| 0 <= i < l.len() ==> l[i] != '\n' && l[i] != '\r',
    ensures
        lines_of(l + seq!['\n'] + s) == seq![l] + lines_of(s),
        lines_of(l + seq!['\r', '\n'] + s) == seq![l] + lines_of(s),
        l.len() > 0 ==> lines_of(l) == seq![l],
        lines_of(seq![]) == Seq::<Seq<char>>::empty(),
{
    let a = l + seq!['\n'] + s;
    lemma_before(a, '\n', l.len());
    assert(a.take(l.len() as int) =~= l);
    assert(a.skip(l.len() as int + 1) =~= s);
    let r = l.push('\r');
    let b = l + seq!['\r', '\n'] + s;
    lemma_before(b, '\n', r.len());
    assert(b.take(r.len() as int) =~= r);
    assert(b.skip(r.len() as int + 1) =~= s);
    assert(r.drop_last() =~= l);
    lemma_before(l, '\n', l.len());
    assert(lines_of(l).len() > 0 ==> lines_of(l) =~= seq![l]);
    lemma_before(seq![], '\n', 0);
    assert(lines_of(seq![]) =~= seq![]);
}

/// A text is split at the first of a character, into what stands on either side of it, and not at
/// all where it has none.
pub proof fn a_text_is_split_at_the_first(a: Seq<char>, c: char, b: Seq<char>)
    requires
        forall|i: int| 0 <= i < a.len() ==> a[i] != c,
    ensures
        halves(a + seq![c] + b, c) == Some((a, b)),
        halves(a, c) is None,
{
    lemma_halves(a, c, b);
    lemma_before(a, c, a.len());
}

}
