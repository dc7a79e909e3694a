//! Small operations on text, each stated over the sequence of its characters.

use vstd::prelude::*;

verus! {

/// The views of a vector of strings.
pub open spec fn texts(v: Seq<String>) -> Seq<Seq<char>> {
    Seq::new(v.len(), |i: int| v[i]@)
}

/// The views of a slice of string slices.
pub open spec fn slices(v: Seq<&str>) -> Seq<Seq<char>> {
    Seq::new(v.len(), |i: int| v[i]@)
}

/// Unicode's `White_Space` property.
pub open spec fn is_space(c: char) -> bool {
    let n = c as u32;
    ||| 9 <= n <= 13
    ||| n == 0x20
    ||| n == 0x85
    ||| n == 0xa0
    ||| n == 0x1680
    ||| 0x2000 <= n <= 0x200a
    ||| n == 0x2028
    ||| n == 0x2029
    ||| n == 0x202f
    ||| n == 0x205f
    ||| n == 0x3000
}

/// Whether a character is white space.
pub fn space(c: char) -> (r: bool)
    ensures
        r == is_space(c),
{
    let n: u32 = c as u32;
    (9 <= n && n <= 13) || n == 0x20 || n == 0x85 || n == 0xa0 || n == 0x1680 || (0x2000 <= n && n
        <= 0x200a) || n == 0x2028 || n == 0x2029 || n == 0x202f || n == 0x205f || n == 0x3000
}

/// The characters of a string.
pub fn chars_of(s: &str) -> (v: Vec<char>)
    ensures
        v@ == s@,
{
    let mut v: Vec<char> = Vec::new();
    for c in it: s.chars()
        invariant
            it.seq() == s@,
            v@ == s@.take(it.index()),
    {
        v.push(c);
    }
    assert(s@.take(s@.len() as int) == s@);
    v
}

/// Whether two strings hold the same characters.
pub fn same(a: &str, b: &str) -> (r: bool)
    ensures
        r == (a@ == b@),
{
    let x: String = a.to_owned();
    let y: String = b.to_owned();
    x == y
}

/// Being the character `c`.
pub open spec fn is(c: char) -> spec_fn(char) -> bool {
    |x: char| x == c
}

/// Not being the character `c`.
pub open spec fn is_not(c: char) -> spec_fn(char) -> bool {
    |x: char| x != c
}

/// Being white space.
pub open spec fn blank() -> spec_fn(char) -> bool {
    |x: char| is_space(x)
}

/// Not being white space.
pub open spec fn visible() -> spec_fn(char) -> bool {
    |x: char| !is_space(x)
}

/// The index of the first character that satisfies `p`, or the length of `s`.
pub open spec fn find(s: Seq<char>, p: spec_fn(char) -> bool) -> nat
    decreases s.len(),
{
    if s.len() == 0 || p(s[0]) {
        0
    } else {
        1 + find(s.skip(1), p)
    }
}

/// One past the index of the last character that satisfies `p`, or zero.
pub open spec fn end_of(s: Seq<char>, p: spec_fn(char) -> bool) -> nat
    decreases s.len(),
{
    if s.len() == 0 || p(s.last()) {
        s.len()
    } else {
        end_of(s.drop_last(), p)
    }
}

/// `find` is where the first match stands.
pub proof fn lemma_find(s: Seq<char>, p: spec_fn(char) -> bool)
    ensures
        find(s, p) <= s.len(),
        find(s, p) < s.len() ==> p(s[find(s, p) as int]),
        forall|i: int| 0 <= i < find(s, p) ==> !p(#[trigger] s[i]),
    decreases s.len(),
{
    if s.len() > 0 && !p(s[0]) {
        lemma_find(s.skip(1), p);
        assert forall|i: int| 0 <= i < find(s, p) implies !p(#[trigger] s[i]) by {
            if i > 0 {
                assert(s[i] == s.skip(1)[i - 1]);
            }
        }
    }
}

/// Only the place of the first match can be `find`.
pub proof fn lemma_find_is(s: Seq<char>, p: spec_fn(char) -> bool, k: int)
    requires
        0 <= k <= s.len(),
        k < s.len() ==> p(s[k]),
        forall|i: int| 0 <= i < k ==> !p(#[trigger] s[i]),
    ensures
        find(s, p) == k,
{
    lemma_find(s, p);
    let f = find(s, p) as int;
    if f < k {
        assert(!p(s[f]));
    }
    if k < f {
        assert(!p(s[k]));
    }
}

/// `end_of` is one past where the last match stands.
pub proof fn lemma_end_of(s: Seq<char>, p: spec_fn(char) -> bool)
    ensures
        end_of(s, p) <= s.len(),
        end_of(s, p) > 0 ==> p(s[end_of(s, p) - 1]),
        forall|i: int| end_of(s, p) <= i < s.len() ==> !p(#[trigger] s[i]),
    decreases s.len(),
{
    if s.len() > 0 && !p(s.last()) {
        lemma_end_of(s.drop_last(), p);
        assert forall|i: int| end_of(s, p) <= i < s.len() implies !p(#[trigger] s[i]) by {
            if i < s.len() - 1 {
                assert(s[i] == s.drop_last()[i]);
            }
        }
    }
}

/// Only one past the last match can be `end_of`.
pub proof fn lemma_end_of_is(s: Seq<char>, p: spec_fn(char) -> bool, k: int)
    requires
        0 <= k <= s.len(),
        k > 0 ==> p(s[k - 1]),
        forall|i: int| k <= i < s.len() ==> !p(#[trigger] s[i]),
    ensures
        end_of(s, p) == k,
{
    lemma_end_of(s, p);
    let f = end_of(s, p) as int;
    if f < k {
        assert(!p(s[k - 1]));
    }
    if k < f {
        assert(!p(s[f - 1]));
    }
}

/// `s` without its leading white space.
pub open spec fn trim_start(s: Seq<char>) -> Seq<char> {
    s.skip(find(s, visible()) as int)
}

/// `s` without its leading and trailing white space.
pub open spec fn trimmed(s: Seq<char>) -> Seq<char> {
    let t = trim_start(s);
    t.take(end_of(t, visible()) as int)
}

/// A text without white space around it is its own trimmed text.
pub proof fn lemma_trimmed_is(s: Seq<char>)
    requires
        s.len() > 0 ==> !is_space(s[0]) && !is_space(s.last()),
    ensures
        trimmed(s) == s,
{
    lemma_find_is(s, visible(), 0);
    assert(s.skip(0) == s);
    lemma_end_of_is(s, visible(), s.len() as int);
    assert(s.take(s.len() as int) == s);
}

/// White space at the end makes no difference to the trimmed text.
pub proof fn lemma_trim_appended_blank(s: Seq<char>, c: char)
    requires
        is_space(c),
    ensures
        trimmed(s.push(c)) == trimmed(s),
{
    let u = s.push(c);
    let k = find(s, visible()) as int;
    lemma_find(s, visible());
    if k < s.len() {
        assert(u[k] == s[k]);
        lemma_find_is(u, visible(), k);
        assert(trim_start(u) == trim_start(s).push(c));
    } else {
        lemma_find_is(u, visible(), k + 1);
        assert(trim_start(s) =~= Seq::<char>::empty());
        assert(trim_start(u) =~= Seq::<char>::empty());
    }
    let t = trim_start(s);
    if k < s.len() {
        let v = t.push(c);
        assert(v.drop_last() == t);
        assert(end_of(v, visible()) == end_of(t, visible()));
        lemma_end_of(t, visible());
        assert(v.take(end_of(v, visible()) as int) == t.take(end_of(t, visible()) as int));
    }
}

/// What trimming leaves has no white space around it, and so trimming once is
/// enough.
pub proof fn law_trim_once(s: Seq<char>)
    ensures
        trimmed(s).len() > 0 ==> !is_space(trimmed(s)[0]) && !is_space(trimmed(s).last()),
        trimmed(trimmed(s)) == trimmed(s),
{
    lemma_find(s, visible());
    let t = trim_start(s);
    lemma_end_of(t, visible());
    let r = trimmed(s);
    if r.len() > 0 {
        assert(r[0] == t[0]);
        assert(t[0] == s[find(s, visible()) as int]);
        assert(r.last() == t[end_of(t, visible()) - 1]);
    }
    lemma_trimmed_is(r);
}

/// The place of the first character at or after `from` that is not white
/// space.
fn skip_space(cs: &Vec<char>, from: usize) -> (k: usize)
    requires
        from <= cs@.len(),
    ensures
        from <= k <= cs@.len(),
        k == from + find(cs@.skip(from as int), visible()),
{
    let ghost rest = cs@.skip(from as int);
    let mut k: usize = from;
    while k < cs.len() && space(cs[k])
        invariant
            from <= k <= cs@.len(),
            rest == cs@.skip(from as int),
            forall|i: int| 0 <= i < k - from ==> is_space(#[trigger] rest[i]),
        decreases cs@.len() - k,
    {
        assert(rest[k - from] == cs@[k as int]);
        k += 1;
    }
    proof {
        if k < cs@.len() {
            assert(rest[k - from] == cs@[k as int]);
        }
        lemma_find_is(rest, visible(), k - from);
    }
    k
}

/// `s` without leading and trailing white space.
pub fn trim<'a>(s: &'a str) -> (r: &'a str)
    ensures
        r@ == trimmed(s@),
{
    let cs: Vec<char> = chars_of(s);
    let a: usize = skip_space(&cs, 0);
    let ghost t = trim_start(s@);
    assert(cs@.skip(0) == s@);
    let mut b: usize = cs.len();
    while b > a && space(cs[b - 1])
        invariant
            a <= b <= cs@.len(),
            cs@ == s@,
            t == s@.skip(a as int),
            forall|i: int| b - a <= i < t.len() ==> is_space(#[trigger] t[i]),
        decreases b,
    {
        assert(t[b - 1 - a] == cs@[b - 1]);
        b -= 1;
    }
    proof {
        if b > a {
            assert(t[b - 1 - a] == cs@[b - 1]);
        }
        lemma_end_of_is(t, visible(), b - a);
        assert(s@.subrange(a as int, b as int) == trimmed(s@));
    }
    s.substring_char(a, b)
}

/// The first index at or after `from` that holds `c`, or the length.
fn find_from(cs: &Vec<char>, from: usize, c: char) -> (k: usize)
    requires
        from <= cs@.len(),
    ensures
        from <= k <= cs@.len(),
        k == from + find(cs@.skip(from as int), is(c)),
{
    let ghost rest = cs@.skip(from as int);
    let mut k: usize = from;
    while k < cs.len() && cs[k] != c
        invariant
            from <= k <= cs@.len(),
            rest == cs@.skip(from as int),
            forall|i: int| 0 <= i < k - from ==> #[trigger] rest[i] != c,
        decreases cs@.len() - k,
    {
        assert(rest[k - from] == cs@[k as int]);
        k += 1;
    }
    proof {
        if k < cs@.len() {
            assert(rest[k - from] == cs@[k as int]);
        }
        lemma_find_is(rest, is(c), k - from);
    }
    k
}

/// A line without the carriage return that may close it.
pub open spec fn chomp(s: Seq<char>) -> Seq<char> {
    if s.len() > 0 && s.last() == '\r' {
        s.drop_last()
    } else {
        s
    }
}

/// The lines of a text: each ends at `\n` or `\r\n`, the last one may also end
/// with the text.
pub open spec fn line_seq(s: Seq<char>) -> Seq<Seq<char>>
    decreases s.len(),
{
    if s.len() == 0 {
        seq![]
    } else {
        let n = find(s, is('\n')) as int;
        if n >= s.len() {
            seq![s]
        } else {
            seq![chomp(s.take(n))] + line_seq(s.skip(n + 1))
        }
    }
}

/// The lines of a text, without their line endings.
pub fn lines(s: &str) -> (r: Vec<String>)
    ensures
        texts(r@) == line_seq(s@),
{
    let cs: Vec<char> = chars_of(s);
    let n: usize = cs.len();
    let mut out: Vec<String> = Vec::new();
    let mut start: usize = 0;
    assert(s@.skip(0) == s@);
    assert(texts(out@) + line_seq(s@) == line_seq(s@));
    while start < n
        invariant
            n == cs@.len(),
            cs@ == s@,
            start <= n,
            texts(out@) + line_seq(s@.skip(start as int)) == line_seq(s@),
        decreases n - start,
    {
        let ghost rest = s@.skip(start as int);
        let ghost before = out@;
        let stop: usize = find_from(&cs, start, '\n');
        if stop == n {
            out.push(s.substring_char(start, n).to_owned());
            proof {
                assert(s@.subrange(start as int, n as int) == rest);
                assert(texts(out@) == texts(before) + seq![rest]);
                assert(line_seq(rest) == seq![rest]);
                assert(line_seq(s@.skip(n as int)) == Seq::<Seq<char>>::empty());
                assert(texts(out@) + line_seq(s@.skip(n as int)) == texts(out@));
            }
            start = n;
        } else {
            let ghost len = stop - start;
            let mut end: usize = stop;
            if stop > start && cs[stop - 1] == '\r' {
                end = stop - 1;
            }
            out.push(s.substring_char(start, end).to_owned());
            proof {
                assert(rest.take(len).len() == len);
                if len > 0 {
                    assert(rest.take(len).last() == cs@[stop - 1]);
                }
                assert(s@.subrange(start as int, end as int) == chomp(rest.take(len)));
                assert(texts(out@) == texts(before) + seq![chomp(rest.take(len))]);
                assert(rest.skip(len + 1) == s@.skip(stop + 1));
                assert(line_seq(rest) == seq![chomp(rest.take(len))] + line_seq(
                    s@.skip(stop + 1),
                ));
                assert(texts(out@) + line_seq(s@.skip(stop + 1)) == texts(before) + line_seq(rest));
            }
            start = stop + 1;
        }
    }
    assert(texts(out@) + line_seq(s@.skip(n as int)) == texts(out@));
    out
}

/// Whether `s` begins with `prefix`.
pub fn starts_with(s: &str, prefix: &str) -> (r: bool)
    ensures
        r == prefix@.is_prefix_of(s@),
{
    let a: Vec<char> = chars_of(s);
    let b: Vec<char> = chars_of(prefix);
    if b.len() > a.len() {
        return false;
    }
    let mut i: usize = 0;
    while i < b.len()
        invariant
            i <= b@.len() <= a@.len(),
            a@ == s@,
            b@ == prefix@,
            forall|j: int| 0 <= j < i ==> a@[j] == b@[j],
        decreases b@.len() - i,
    {
        if a[i] != b[i] {
            assert(prefix@[i as int] != s@[i as int]);
            return false;
        }
        i += 1;
    }
    assert(prefix@ == s@.subrange(0, prefix@.len() as int));
    true
}

/// What follows `prefix` in `s`, if `s` begins with it.
pub open spec fn after_prefix(s: Seq<char>, prefix: Seq<char>) -> Option<Seq<char>> {
    if prefix.is_prefix_of(s) {
        Some(s.skip(prefix.len() as int))
    } else {
        None
    }
}

/// The view of an optional string slice.
pub open spec fn opt_text(o: Option<&str>) -> Option<Seq<char>> {
    match o {
        Some(t) => Some(t@),
        None => None,
    }
}

/// What follows `prefix` in `s`, if `s` begins with it.
pub fn strip_prefix<'a>(s: &'a str, prefix: &str) -> (r: Option<&'a str>)
    ensures
        opt_text(r) == after_prefix(s@, prefix@),
{
    if starts_with(s, prefix) {
        let n: usize = s.unicode_len();
        let k: usize = prefix.unicode_len();
        assert(s@.subrange(k as int, n as int) == s@.skip(k as int));
        Some(s.substring_char(k, n))
    } else {
        None
    }
}

/// Whether `part` occurs in `s`.
pub open spec fn occurs(s: Seq<char>, part: Seq<char>) -> bool {
    exists|i: int| 0 <= i <= s.len() && part.is_prefix_of(#[trigger] s.skip(i))
}

/// Whether `part` occurs in `s`.
pub fn contains(s: &str, part: &str) -> (r: bool)
    ensures
        r == occurs(s@, part@),
{
    let n: usize = s.unicode_len();
    let mut i: usize = 0;
    loop
        invariant
            i <= n,
            n == s@.len(),
            forall|j: int| 0 <= j < i ==> !part@.is_prefix_of(#[trigger] s@.skip(j)),
        decreases n - i,
    {
        assert(s@.subrange(i as int, n as int) == s@.skip(i as int));
        if starts_with(s.substring_char(i, n), part) {
            return true;
        }
        if i == n {
            return false;
        }
        i += 1;
    }
}

/// Whether the character `c` occurs in `s`.
pub fn has_char(s: &str, c: char) -> (r: bool)
    ensures
        r == s@.contains(c),
{
    let cs: Vec<char> = chars_of(s);
    let k: usize = find_from(&cs, 0, c);
    proof {
        assert(cs@.skip(0) == s@);
        lemma_find(s@, is(c));
        if k < s@.len() {
            assert(s@[k as int] == c);
        }
    }
    k < cs.len()
}

/// The two sides of the first `c` in `s`.
pub open spec fn halves(s: Seq<char>, c: char) -> Option<(Seq<char>, Seq<char>)> {
    let k = find(s, is(c)) as int;
    if k < s.len() {
        Some((s.take(k), s.skip(k + 1)))
    } else {
        None
    }
}

/// The view of an optional pair of string slices.
pub open spec fn opt_pair(o: Option<(&str, &str)>) -> Option<(Seq<char>, Seq<char>)> {
    match o {
        Some((a, b)) => Some((a@, b@)),
        None => None,
    }
}

/// The two sides of the first `c` in `s`.
pub fn split_once<'a>(s: &'a str, c: char) -> (r: Option<(&'a str, &'a str)>)
    ensures
        opt_pair(r) == halves(s@, c),
{
    let cs: Vec<char> = chars_of(s);
    let n: usize = cs.len();
    let k: usize = find_from(&cs, 0, c);
    assert(cs@.skip(0) == s@);
    if k < n {
        assert(s@.subrange(0, k as int) == s@.take(k as int));
        assert(s@.subrange(k + 1, n as int) == s@.skip(k + 1));
        Some((s.substring_char(0, k), s.substring_char(k + 1, n)))
    } else {
        None
    }
}

/// The first run of characters that are not white space.
pub open spec fn word(s: Seq<char>) -> Option<Seq<char>> {
    let t = trim_start(s);
    if t.len() == 0 {
        None
    } else {
        Some(t.take(find(t, blank()) as int))
    }
}

/// The first run of characters that are not white space.
pub fn first_word<'a>(s: &'a str) -> (r: Option<&'a str>)
    ensures
        opt_text(r) == word(s@),
{
    let cs: Vec<char> = chars_of(s);
    let a: usize = skip_space(&cs, 0);
    let ghost t = trim_start(s@);
    assert(cs@.skip(0) == s@);
    if a == cs.len() {
        return None;
    }
    let mut b: usize = a;
    while b < cs.len() && !space(cs[b])
        invariant
            a <= b <= cs@.len(),
            cs@ == s@,
            t == s@.skip(a as int),
            forall|i: int| 0 <= i < b - a ==> !is_space(#[trigger] t[i]),
        decreases cs@.len() - b,
    {
        assert(t[b - a] == cs@[b as int]);
        b += 1;
    }
    proof {
        if b < cs@.len() {
            assert(t[b - a] == cs@[b as int]);
        }
        lemma_find_is(t, blank(), b - a);
        assert(s@.subrange(a as int, b as int) == t.take(b - a));
    }
    Some(s.substring_char(a, b))
}

/// `s` without the `c`s that close it.
pub open spec fn without_trailing(s: Seq<char>, c: char) -> Seq<char> {
    s.take(end_of(s, is_not(c)) as int)
}

/// `s` without the `c`s that close it.
pub fn trim_end_matches<'a>(s: &'a str, c: char) -> (r: &'a str)
    ensures
        r@ == without_trailing(s@, c),
{
    let cs: Vec<char> = chars_of(s);
    let mut b: usize = cs.len();
    while b > 0 && cs[b - 1] == c
        invariant
            b <= cs@.len(),
            cs@ == s@,
            forall|i: int| b <= i < s@.len() ==> #[trigger] s@[i] == c,
        decreases b,
    {
        b -= 1;
    }
    proof {
        lemma_end_of_is(s@, is_not(c), b as int);
        assert(s@.subrange(0, b as int) == s@.take(b as int));
    }
    s.substring_char(0, b)
}

// ---- what these operations are for ------------------------------------------
/// Reading a vector of strings changes nothing about them.
pub proof fn law_texts_are_the_strings(v: Seq<String>, w: Seq<&str>, i: int)
    ensures
        texts(v).len() == v.len(),
        slices(w).len() == w.len(),
        0 <= i < v.len() ==> texts(v)[i] == v[i]@,
        0 <= i < w.len() ==> slices(w)[i] == w[i]@,
{
}

/// White space is exactly the characters with these codes.
pub proof fn law_white_space(c: char)
    ensures
        is_space(c) <==> seq![
            0x9int, 0xa, 0xb, 0xc, 0xd, 0x20, 0x85, 0xa0, 0x1680, 0x2000, 0x2001, 0x2002, 0x2003,
            0x2004, 0x2005, 0x2006, 0x2007, 0x2008, 0x2009, 0x200a, 0x2028, 0x2029, 0x202f, 0x205f,
            0x3000,
        ].contains(c as int),
{
    let codes = seq![
        0x9int, 0xa, 0xb, 0xc, 0xd, 0x20, 0x85, 0xa0, 0x1680, 0x2000, 0x2001, 0x2002, 0x2003,
        0x2004, 0x2005, 0x2006, 0x2007, 0x2008, 0x2009, 0x200a, 0x2028, 0x2029, 0x202f, 0x205f,
        0x3000,
    ];
    let n = c as int;
    let at: int = if n <= 0xd {
        n - 9
    } else if n == 0x20 {
        5
    } else if n == 0x85 {
        6
    } else if n == 0xa0 {
        7
    } else if n == 0x1680 {
        8
    } else if n <= 0x200a {
        n - 0x2000 + 9
    } else if n <= 0x2029 {
        n - 0x2028 + 20
    } else if n == 0x202f {
        22
    } else if n == 0x205f {
        23
    } else {
        24
    };
    if is_space(c) {
        assert(codes[at] == n);
    }
}

/// Trimming takes away the white space around a text, all of it and nothing
/// else.
pub proof fn law_trim_takes_the_blanks_around(before: Seq<char>, t: Seq<char>, after: Seq<char>)
    requires
        forall|i: int| 0 <= i < before.len() ==> is_space(#[trigger] before[i]),
        forall|i: int| 0 <= i < after.len() ==> is_space(#[trigger] after[i]),
        t.len() > 0 ==> !is_space(t[0]) && !is_space(t.last()),
    ensures
        trimmed(before + t + after) == t,
{
    let s = before + t + after;
    if t.len() > 0 {
        let a = before.len() as int;
        assert(s[a] == t[0]);
        assert forall|i: int| 0 <= i < a implies !visible()(#[trigger] s[i]) by {
            assert(s[i] == before[i]);
        }
        lemma_find_is(s, visible(), a);
        let u = trim_start(s);
        assert(u == t + after);
        assert forall|i: int| t.len() <= i < u.len() implies !visible()(#[trigger] u[i]) by {
            assert(u[i] == after[i - t.len()]);
        }
        assert(u[t.len() - 1] == t.last());
        lemma_end_of_is(u, visible(), t.len() as int);
        assert(u.take(t.len() as int) == t);
    } else {
        assert forall|i: int| 0 <= i < s.len() implies !visible()(#[trigger] s[i]) by {
            if i < before.len() {
                assert(s[i] == before[i]);
            } else {
                assert(s[i] == after[i - before.len()]);
            }
        }
        lemma_find_is(s, visible(), s.len() as int);
        assert(trim_start(s) == Seq::<char>::empty());
        assert(trimmed(s) == t);
    }
}

/// Every text is white space, then what trimming leaves, then white space.
pub proof fn law_trimmed_stands_in_the_text(s: Seq<char>)
    ensures
        exists|a: int, b: int|
            #![trigger s.subrange(a, b)]
            0 <= a <= b <= s.len() && trimmed(s) == s.subrange(a, b) && (forall|i: int|
                (0 <= i < a || b <= i < s.len()) ==> is_space(#[trigger] s[i])),
{
    lemma_find(s, visible());
    let t = trim_start(s);
    lemma_end_of(t, visible());
    let a = find(s, visible()) as int;
    let b = a + end_of(t, visible());
    assert forall|i: int| (0 <= i < a || b <= i < s.len()) implies is_space(#[trigger] s[i]) by {
        if i < a {
            assert(!visible()(s[i]));
        } else {
            assert(t[i - a] == s[i]);
            assert(!visible()(t[i - a]));
        }
    }
    assert(trimmed(s) == s.subrange(a, b));
}

/// Where what trimming leaves begins and ends.
pub proof fn lemma_where_trimmed(s: Seq<char>) -> (r: (int, int))
    ensures
        0 <= r.0 <= r.1 <= s.len(),
        trimmed(s) == s.subrange(r.0, r.1),
        forall|i: int| (0 <= i < r.0 || r.1 <= i < s.len()) ==> is_space(#[trigger] s[i]),
{
    law_trimmed_stands_in_the_text(s);
    choose|a: int, b: int|
        #![trigger s.subrange(a, b)]
        0 <= a <= b <= s.len() && trimmed(s) == s.subrange(a, b) && (forall|i: int|
            (0 <= i < a || b <= i < s.len()) ==> is_space(#[trigger] s[i]))
}

/// A text begins its lines with what stands before its first line end.
pub proof fn law_lines(line: Seq<char>, rest: Seq<char>)
    requires
        !line.contains('\n'),
    ensures
        line_seq(Seq::<char>::empty()) == Seq::<Seq<char>>::empty(),
        line.len() > 0 ==> line_seq(line) == seq![line],
        !(line.len() > 0 && line.last() == '\r') ==> line_seq(line + seq!['\n'] + rest) == seq![line]
            + line_seq(rest),
        line_seq(line + seq!['\r', '\n'] + rest) == seq![line] + line_seq(rest),
{
    lemma_find_is(line, is('\n'), line.len() as int);
    let n = line.len() as int;
    let a = line + seq!['\n'] + rest;
    assert(a[n] == '\n');
    assert forall|i: int| 0 <= i < n implies #[trigger] a[i] != '\n' by {
        assert(a[i] == line[i]);
    }
    lemma_find_is(a, is('\n'), n);
    assert(a.take(n) == line);
    assert(a.skip(n + 1) == rest);
    let b = line + seq!['\r', '\n'] + rest;
    assert(b[n + 1] == '\n');
    assert forall|i: int| 0 <= i < n + 1 implies #[trigger] b[i] != '\n' by {
        if i < n {
            assert(b[i] == line[i]);
        } else {
            assert(b[i] == '\r');
        }
    }
    lemma_find_is(b, is('\n'), n + 1);
    assert(b.take(n + 1) == line.push('\r'));
    assert(line.push('\r').drop_last() == line);
    assert(b.skip(n + 2) == rest);
}

/// What follows a prefix is the rest of the text, and there is something to give
/// only where the text begins with the prefix.
pub proof fn law_prefix(prefix: Seq<char>, rest: Seq<char>, s: Seq<char>)
    ensures
        after_prefix(prefix + rest, prefix) == Some(rest),
        after_prefix(s, prefix) is Some ==> s == prefix + after_prefix(s, prefix)->0,
        after_prefix(s, prefix) is None ==> !(s.len() >= prefix.len() && s.take(prefix.len() as int)
            == prefix),
{
    let u = prefix + rest;
    assert(u.subrange(0, prefix.len() as int) == prefix);
    assert(u.skip(prefix.len() as int) == rest);
    if prefix.is_prefix_of(s) {
        assert(prefix + s.skip(prefix.len() as int) == s);
    } else if s.len() >= prefix.len() {
        assert(s.take(prefix.len() as int) == s.subrange(0, prefix.len() as int));
    }
}

/// A part occurs in a text exactly where it can be cut out of it.
pub proof fn law_occurs(s: Seq<char>, part: Seq<char>)
    ensures
        occurs(s, part) <==> exists|i: int|
            0 <= i && i + part.len() <= s.len() && #[trigger] s.subrange(i, i + part.len()) == part,
{
    if occurs(s, part) {
        let i = choose|i: int| 0 <= i <= s.len() && part.is_prefix_of(#[trigger] s.skip(i));
        assert(s.subrange(i, i + part.len()) == s.skip(i).subrange(0, part.len() as int));
    }
    if exists|i: int|
        0 <= i && i + part.len() <= s.len() && #[trigger] s.subrange(i, i + part.len()) == part {
        let i = choose|i: int|
            0 <= i && i + part.len() <= s.len() && #[trigger] s.subrange(i, i + part.len()) == part;
        assert(s.skip(i).subrange(0, part.len() as int) == s.subrange(i, i + part.len()));
        assert(part.is_prefix_of(s.skip(i)));
    }
}

/// A text is split at the first of the characters that it is split at.
pub proof fn law_halves(a: Seq<char>, c: char, b: Seq<char>, s: Seq<char>)
    requires
        !a.contains(c),
    ensures
        halves(a + seq![c] + b, c) == Some((a, b)),
        halves(s, c) is None <==> !s.contains(c),
{
    let u = a + seq![c] + b;
    let n = a.len() as int;
    assert(u[n] == c);
    assert forall|i: int| 0 <= i < n implies #[trigger] u[i] != c by {
        assert(u[i] == a[i]);
    }
    lemma_find_is(u, is(c), n);
    assert(u.take(n) == a && u.skip(n + 1) == b);
    lemma_find(s, is(c));
    if s.contains(c) {
        let k = choose|k: int| 0 <= k < s.len() && s[k] == c;
        assert(is(c)(s[k]));
    } else {
        let k = find(s, is(c)) as int;
        if k < s.len() {
            assert(s[k] == c);
        }
    }
}

/// The first word of a text is what stands between its leading white space and
/// the next, and a text of white space has none.
pub proof fn law_word(before: Seq<char>, w: Seq<char>, after: Seq<char>)
    requires
        forall|i: int| 0 <= i < before.len() ==> is_space(#[trigger] before[i]),
        forall|i: int| 0 <= i < w.len() ==> !is_space(#[trigger] w[i]),
        after.len() > 0 ==> is_space(after[0]),
        w.len() > 0,
    ensures
        word(before + w + after) == Some(w),
        word(before) is None,
{
    let s = before + w + after;
    let a = before.len() as int;
    assert(s[a] == w[0]);
    assert forall|i: int| 0 <= i < a implies !visible()(#[trigger] s[i]) by {
        assert(s[i] == before[i]);
    }
    lemma_find_is(s, visible(), a);
    let t = trim_start(s);
    assert(t == w + after);
    let n = w.len() as int;
    if after.len() > 0 {
        assert(t[n] == after[0]);
    }
    assert forall|i: int| 0 <= i < n implies !blank()(#[trigger] t[i]) by {
        assert(t[i] == w[i]);
    }
    lemma_find_is(t, blank(), n);
    assert(t.take(n) == w);
    lemma_find_is(before, visible(), a);
}

/// Only the run of the character that closes a text is taken away.
pub proof fn law_trailing(t: Seq<char>, c: char, tail: Seq<char>)
    requires
        t.len() > 0 ==> t.last() != c,
        forall|i: int| 0 <= i < tail.len() ==> #[trigger] tail[i] == c,
    ensures
        without_trailing(t + tail, c) == t,
{
    let s = t + tail;
    let n = t.len() as int;
    if n > 0 {
        assert(s[n - 1] == t.last());
    }
    assert forall|i: int| n <= i < s.len() implies !is_not(c)(#[trigger] s[i]) by {
        assert(s[i] == tail[i - n]);
    }
    lemma_end_of_is(s, is_not(c), n);
    assert(s.take(n) == t);
}

} // verus!
