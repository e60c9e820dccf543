//! Text as sequences of characters: the operations that the parsers and
//! renderers of this crate are specified with.
use vstd::prelude::*;

verus! {

/// `String::push` puts one character behind the others.
pub assume_specification[ String::push ](s: &mut String, c: char)
    ensures
        final(s)@ == old(s)@.push(c),
;

/// The characters with the Unicode property `White_Space`.
pub open spec fn is_whitespace(c: char) -> bool {
    let n = c as u32;
    ||| 0x9 <= n <= 0xd
    ||| n == 0x20
    ||| n == 0x85
    ||| n == 0xa0
    ||| n == 0x1680
    ||| 0x2000 <= n <= 0x200a
    ||| n == 0x2028
    ||| n == 0x2029
    ||| n == 0x202f
    ||| n == 0x205f
    ||| n == 0x3000
}

pub fn char_is_whitespace(c: char) -> (r: bool)
    ensures
        r == is_whitespace(c),
{
    let n: u32 = c as u32;
    (0x9 <= n && n <= 0xd) || n == 0x20 || n == 0x85 || n == 0xa0 || n == 0x1680 || (0x2000 <= n
        && n <= 0x200a) || n == 0x2028 || n == 0x2029 || n == 0x202f || n == 0x205f || n == 0x3000
}

/// The views of a list of strings.
pub open spec fn texts(v: Seq<String>) -> Seq<Seq<char>> {
    Seq::new(v.len(), |i: int| v[i]@)
}

/// The views of a list of character vectors.
pub open spec fn pieces(v: Seq<Vec<char>>) -> Seq<Seq<char>> {
    Seq::new(v.len(), |i: int| v[i]@)
}

pub proof fn lemma_texts_push(v: Seq<String>, s: String)
    ensures
        texts(v.push(s)) == texts(v).push(s@),
{
    assert(texts(v.push(s)) =~= texts(v).push(s@));
}

pub proof fn lemma_pieces_push(v: Seq<Vec<char>>, s: Vec<char>)
    ensures
        pieces(v.push(s)) == pieces(v).push(s@),
{
    assert(pieces(v.push(s)) =~= pieces(v).push(s@));
}

/// The characters of a string.
pub fn chars_of(s: &str) -> (r: Vec<char>)
    ensures
        r@ == s@,
{
    let mut r: Vec<char> = Vec::new();
    for c in it: s.chars()
        invariant
            it.seq() == s@,
            r@ == s@.take(it.index() as int),
    {
        r.push(c);
    }
    r
}

/// The string of the characters from `from` up to but not including `to`.
pub fn string_of(v: &Vec<char>, from: usize, to: usize) -> (r: String)
    requires
        from <= to <= v@.len(),
    ensures
        r@ == v@.subrange(from as int, to as int),
{
    let mut r = String::new();
    let mut i: usize = from;
    while i < to
        invariant
            from <= i <= to <= v@.len(),
            r@ == v@.subrange(from as int, i as int),
        decreases to - i,
    {
        r.push(v[i]);
        i += 1;
        assert(v@.subrange(from as int, i as int) =~= v@.subrange(from as int, i - 1).push(
            v@[i - 1],
        ));
    }
    r
}

/// All characters of a vector as a string.
pub fn to_text(v: &Vec<char>) -> (r: String)
    ensures
        r@ == v@,
{
    let r = string_of(v, 0, v.len());
    assert(v@.subrange(0, v@.len() as int) =~= v@);
    r
}

/// The characters from `from` up to but not including `to`.
pub fn part(v: &Vec<char>, from: usize, to: usize) -> (r: Vec<char>)
    requires
        from <= to <= v@.len(),
    ensures
        r@ == v@.subrange(from as int, to as int),
{
    let mut r: Vec<char> = Vec::new();
    let mut i: usize = from;
    while i < to
        invariant
            from <= i <= to <= v@.len(),
            r@ == v@.subrange(from as int, i as int),
        decreases to - i,
    {
        r.push(v[i]);
        i += 1;
        assert(v@.subrange(from as int, i as int) =~= v@.subrange(from as int, i - 1).push(
            v@[i - 1],
        ));
    }
    r
}

/// Puts the characters of `tail` behind those of `v`.
pub fn extend(v: &mut Vec<char>, tail: &Vec<char>)
    ensures
        final(v)@ == old(v)@ + tail@,
{
    let mut i: usize = 0;
    while i < tail.len()
        invariant
            i <= tail@.len(),
            v@ == old(v)@ + tail@.take(i as int),
        decreases tail@.len() - i,
    {
        v.push(tail[i]);
        i += 1;
        assert(tail@.take(i as int) =~= tail@.take(i - 1).push(tail@[i - 1]));
    }
    assert(tail@.take(i as int) =~= tail@);
}

/// Puts the characters of `tail` behind those of `v`.
pub fn extend_str(v: &mut Vec<char>, tail: &str)
    ensures
        final(v)@ == old(v)@ + tail@,
{
    let t = chars_of(tail);
    extend(v, &t);
}

/// Whether two strings hold the same characters.
pub fn same(a: &str, b: &str) -> (r: bool)
    ensures
        r == (a@ == b@),
{
    a.to_owned() == b.to_owned()
}

/// Whether `list` holds the text `s`.
pub fn contains_text(list: &Vec<String>, s: &str) -> (r: bool)
    ensures
        r == texts(list@).contains(s@),
{
    let mut i: usize = 0;
    while i < list.len()
        invariant
            i <= list@.len(),
            forall|j: int| 0 <= j < i ==> texts(list@)[j] != s@,
        decreases list@.len() - i,
    {
        if same(list[i].as_str(), s) {
            assert(texts(list@)[i as int] == s@);
            return true;
        }
        i += 1;
    }
    false
}

// Trimming.

/// `s` without the characters `c` that it starts with.
pub open spec fn trim_start_char(s: Seq<char>, c: char) -> Seq<char>
    decreases s.len(),
{
    if s.len() > 0 && s[0] == c {
        trim_start_char(s.skip(1), c)
    } else {
        s
    }
}

/// `s` without the characters `c` that it ends with.
pub open spec fn trim_end_char(s: Seq<char>, c: char) -> Seq<char>
    decreases s.len(),
{
    if s.len() > 0 && s.last() == c {
        trim_end_char(s.drop_last(), c)
    } else {
        s
    }
}

/// `s` without the white space that it starts with.
pub open spec fn trim_start(s: Seq<char>) -> Seq<char>
    decreases s.len(),
{
    if s.len() > 0 && is_whitespace(s[0]) {
        trim_start(s.skip(1))
    } else {
        s
    }
}

/// `s` without the white space that it ends with.
pub open spec fn trim_end(s: Seq<char>) -> Seq<char>
    decreases s.len(),
{
    if s.len() > 0 && is_whitespace(s.last()) {
        trim_end(s.drop_last())
    } else {
        s
    }
}

/// `s` without the white space at either end.
pub open spec fn trim(s: Seq<char>) -> Seq<char> {
    trim_end(trim_start(s))
}

/// Whether all characters are white space.
pub open spec fn is_blank(s: Seq<char>) -> bool {
    forall|i: int| 0 <= i < s.len() ==> is_whitespace(#[trigger] s[i])
}

proof fn lemma_trim_start_blank(w: Seq<char>, s: Seq<char>)
    requires
        is_blank(w),
    ensures
        trim_start(w + s) == trim_start(s),
    decreases w.len(),
{
    if w.len() == 0 {
        assert(w + s =~= s);
    } else {
        assert((w + s)[0] == w[0]);
        assert((w + s).skip(1) =~= w.skip(1) + s);
        assert(is_blank(w.skip(1))) by {
            assert forall|i: int| 0 <= i < w.skip(1).len() implies is_whitespace(
                #[trigger] w.skip(1)[i],
            ) by {
                assert(w.skip(1)[i] == w[i + 1]);
            }
        }
        lemma_trim_start_blank(w.skip(1), s);
    }
}

proof fn lemma_trim_end_blank(s: Seq<char>, w: Seq<char>)
    requires
        is_blank(w),
    ensures
        trim_end(s + w) == trim_end(s),
    decreases w.len(),
{
    if w.len() == 0 {
        assert(s + w =~= s);
    } else {
        assert((s + w).last() == w.last());
        assert((s + w).drop_last() =~= s + w.drop_last());
        assert(is_blank(w.drop_last())) by {
            assert forall|i: int| 0 <= i < w.drop_last().len() implies is_whitespace(
                #[trigger] w.drop_last()[i],
            ) by {
                assert(w.drop_last()[i] == w[i]);
            }
        }
        lemma_trim_end_blank(s, w.drop_last());
    }
}

proof fn lemma_trim_start_before(s: Seq<char>, w: Seq<char>)
    requires
        is_blank(w),
    ensures
        trim_end(trim_start(s + w)) == trim_end(trim_start(s)),
    decreases s.len(),
{
    if s.len() == 0 {
        assert(s + w =~= w);
        assert(w + s =~= w);
        lemma_trim_start_blank(w, s);
    } else {
        assert((s + w)[0] == s[0]);
        if is_whitespace(s[0]) {
            assert((s + w).skip(1) =~= s.skip(1) + w);
            lemma_trim_start_before(s.skip(1), w);
        } else {
            lemma_trim_end_blank(s, w);
        }
    }
}

/// White space at either end makes no difference to a trimmed text.
pub proof fn lemma_trim_between_blanks(a: Seq<char>, s: Seq<char>, b: Seq<char>)
    requires
        is_blank(a),
        is_blank(b),
    ensures
        trim(a + s + b) == trim(s),
{
    assert(a + s + b =~= a + (s + b));
    lemma_trim_start_blank(a, s + b);
    lemma_trim_start_before(s, b);
}

/// Where the text without the white space at its start stands.
pub proof fn lemma_trim_start_at(s: Seq<char>) -> (p: int)
    ensures
        0 <= p <= s.len(),
        trim_start(s) == s.skip(p),
        is_blank(s.take(p)),
    decreases s.len(),
{
    if s.len() > 0 && is_whitespace(s[0]) {
        let p = lemma_trim_start_at(s.skip(1));
        assert(s.skip(1).skip(p) =~= s.skip(p + 1));
        assert forall|i: int| 0 <= i < s.take(p + 1).len() implies is_whitespace(
            #[trigger] s.take(p + 1)[i],
        ) by {
            if i > 0 {
                assert(s.take(p + 1)[i] == s.skip(1).take(p)[i - 1]);
            }
        }
        p + 1
    } else {
        assert(s.skip(0) =~= s);
        0
    }
}

proof fn lemma_trim_end_at(s: Seq<char>) -> (q: int)
    ensures
        0 <= q <= s.len(),
        trim_end(s) == s.take(q),
        is_blank(s.skip(q)),
    decreases s.len(),
{
    if s.len() > 0 && is_whitespace(s.last()) {
        let q = lemma_trim_end_at(s.drop_last());
        assert(s.drop_last().take(q) =~= s.take(q));
        assert forall|i: int| 0 <= i < s.skip(q).len() implies is_whitespace(
            #[trigger] s.skip(q)[i],
        ) by {
            if i < s.len() - 1 - q {
                assert(s.skip(q)[i] == s.drop_last().skip(q)[i]);
            }
        }
        q
    } else {
        assert(s.take(s.len() as int) =~= s);
        s.len() as int
    }
}

/// Where the trimmed text stands: from the first of two positions to the second.
pub proof fn lemma_trim_at(s: Seq<char>) -> (r: (int, int))
    ensures
        0 <= r.0 <= r.1 <= s.len(),
        trim(s) == s.subrange(r.0, r.1),
        is_blank(s.take(r.0)),
        is_blank(s.skip(r.1)),
{
    let p = lemma_trim_start_at(s);
    let q = lemma_trim_end_at(s.skip(p));
    assert(s.skip(p).take(q) =~= s.subrange(p, p + q));
    assert(s.skip(p).skip(q) =~= s.skip(p + q));
    (p, p + q)
}

/// A text that neither starts nor ends with white space stays as it is.
pub proof fn lemma_trim_stays(s: Seq<char>)
    requires
        s.len() > 0,
        !is_whitespace(s[0]),
        !is_whitespace(s.last()),
    ensures
        trim(s) == s,
{
}

/// The number of characters before the first that is not white space.
pub fn count_start(v: &Vec<char>) -> (n: usize)
    ensures
        n <= v@.len(),
        trim_start(v@) == v@.skip(n as int),
{
    let mut n: usize = 0;
    assert(v@.skip(0) =~= v@);
    while n < v.len() && char_is_whitespace(v[n])
        invariant
            n <= v@.len(),
            trim_start(v@) == trim_start(v@.skip(n as int)),
        decreases v@.len() - n,
    {
        assert(v@.skip(n as int).skip(1) =~= v@.skip(n + 1));
        n += 1;
    }
    n
}

/// The characters without the white space that they start with.
pub fn trimmed_start(v: &Vec<char>) -> (r: Vec<char>)
    ensures
        r@ == trim_start(v@),
{
    let n: usize = count_start(v);
    part(v, n, v.len())
}

/// The characters without the white space that they end with.
pub fn trimmed_end(v: &Vec<char>) -> (r: Vec<char>)
    ensures
        r@ == trim_end(v@),
{
    let mut n: usize = v.len();
    assert(v@.take(n as int) =~= v@);
    while n > 0 && char_is_whitespace(v[n - 1])
        invariant
            n <= v@.len(),
            trim_end(v@) == trim_end(v@.take(n as int)),
        decreases n,
    {
        assert(v@.take(n as int).drop_last() =~= v@.take(n - 1));
        n -= 1;
    }
    part(v, 0, n)
}

/// The characters without the white space at either end.
pub fn trimmed(v: &Vec<char>) -> (r: Vec<char>)
    ensures
        r@ == trim(v@),
{
    let s = trimmed_start(v);
    trimmed_end(&s)
}

/// The text without the white space at either end.
pub fn trimmed_str(s: &str) -> (r: String)
    ensures
        r@ == trim(s@),
{
    let v = chars_of(s);
    let t = trimmed(&v);
    to_text(&t)
}

/// The characters without the characters `c` that they start with.
pub fn trimmed_start_char(v: &Vec<char>, c: char) -> (r: Vec<char>)
    ensures
        r@ == trim_start_char(v@, c),
{
    let mut n: usize = 0;
    assert(v@.skip(0) =~= v@);
    while n < v.len() && v[n] == c
        invariant
            n <= v@.len(),
            trim_start_char(v@, c) == trim_start_char(v@.skip(n as int), c),
        decreases v@.len() - n,
    {
        assert(v@.skip(n as int).skip(1) =~= v@.skip(n + 1));
        n += 1;
    }
    part(v, n, v.len())
}

/// The characters without the characters `c` that they end with.
pub fn trimmed_end_char(v: &Vec<char>, c: char) -> (r: Vec<char>)
    ensures
        r@ == trim_end_char(v@, c),
{
    let mut n: usize = v.len();
    assert(v@.take(n as int) =~= v@);
    while n > 0 && v[n - 1] == c
        invariant
            n <= v@.len(),
            trim_end_char(v@, c) == trim_end_char(v@.take(n as int), c),
        decreases n,
    {
        assert(v@.take(n as int).drop_last() =~= v@.take(n - 1));
        n -= 1;
    }
    part(v, 0, n)
}

// Searching.

/// Whether `pat` stands in `s` at position `i`.
pub open spec fn matches_at(s: Seq<char>, pat: Seq<char>, i: int) -> bool {
    0 <= i && i + pat.len() <= s.len() && s.subrange(i, i + pat.len()) == pat
}

/// The first position at or after `i` at which `pat` stands in `s`.
pub open spec fn find_from(s: Seq<char>, pat: Seq<char>, i: int) -> Option<int>
    decreases s.len() + 1 - i,
{
    if i < 0 || i + pat.len() > s.len() {
        None
    } else if matches_at(s, pat, i) {
        Some(i)
    } else {
        find_from(s, pat, i + 1)
    }
}

/// The first position at or after `i` that holds the character `c`.
pub open spec fn find_char(s: Seq<char>, c: char, i: int) -> Option<int>
    decreases s.len() - i,
{
    if i < 0 || i >= s.len() {
        None
    } else if s[i] == c {
        Some(i)
    } else {
        find_char(s, c, i + 1)
    }
}

/// The last position before `i` that holds the character `c`.
pub open spec fn rfind_char(s: Seq<char>, c: char, i: int) -> Option<int>
    decreases i,
{
    if i <= 0 || i > s.len() {
        None
    } else if s[i - 1] == c {
        Some(i - 1)
    } else {
        rfind_char(s, c, i - 1)
    }
}

/// Whether `s` starts with `pat`.
pub open spec fn starts_with(s: Seq<char>, pat: Seq<char>) -> bool {
    matches_at(s, pat, 0)
}

pub proof fn lemma_find_from_bounds(s: Seq<char>, pat: Seq<char>, i: int)
    ensures
        find_from(s, pat, i) matches Some(k) ==> 0 <= i <= k && k + pat.len() <= s.len()
            && matches_at(s, pat, k) && forall|j: int| i <= j < k ==> !#[trigger] matches_at(
            s,
            pat,
            j,
        ),
        find_from(s, pat, i) is None && 0 <= i ==> forall|j: int|
            i <= j ==> !#[trigger] matches_at(s, pat, j),
    decreases s.len() + 1 - i,
{
    if 0 <= i && i + pat.len() <= s.len() && !matches_at(s, pat, i) {
        lemma_find_from_bounds(s, pat, i + 1);
    }
}

pub proof fn lemma_find_char_bounds(s: Seq<char>, c: char, i: int)
    ensures
        find_char(s, c, i) matches Some(k) ==> 0 <= i <= k < s.len() && s[k] == c && forall|j: int|
            i <= j < k ==> #[trigger] s[j] != c,
        find_char(s, c, i) is None && 0 <= i ==> forall|j: int|
            i <= j < s.len() ==> #[trigger] s[j] != c,
    decreases s.len() - i,
{
    if 0 <= i < s.len() && s[i] != c {
        lemma_find_char_bounds(s, c, i + 1);
    }
}

pub proof fn lemma_rfind_char_bounds(s: Seq<char>, c: char, i: int)
    ensures
        rfind_char(s, c, i) matches Some(k) ==> 0 <= k < i <= s.len() && s[k] == c,
    decreases i,
{
    if 0 < i <= s.len() && s[i - 1] != c {
        lemma_rfind_char_bounds(s, c, i - 1);
    }
}

/// Whether `pat` stands in `v` at position `i`.
pub fn stands_at(v: &Vec<char>, pat: &Vec<char>, i: usize) -> (r: bool)
    ensures
        r == matches_at(v@, pat@, i as int),
{
    if pat.len() > v.len() || i > v.len() - pat.len() {
        return false;
    }
    let mut k: usize = 0;
    while k < pat.len()
        invariant
            k <= pat@.len(),
            i + pat@.len() <= v@.len() == v.len(),
            forall|j: int| 0 <= j < k ==> v@[i + j] == pat@[j],
        decreases pat@.len() - k,
    {
        if v[i + k] != pat[k] {
            assert(v@.subrange(i as int, i + pat@.len())[k as int] == v@[i + k]);
            return false;
        }
        k += 1;
    }
    assert(v@.subrange(i as int, i + pat@.len()) =~= pat@);
    true
}

/// The first position at or after `i` at which `pat` stands in `v`.
pub fn find(v: &Vec<char>, pat: &Vec<char>, i: usize) -> (r: Option<usize>)
    ensures
        (match r {
            Some(k) => find_from(v@, pat@, i as int) == Some(k as int) && i <= k && k + pat@.len()
                <= v@.len(),
            None => find_from(v@, pat@, i as int) is None,
        }),
{
    if pat.len() > v.len() {
        return None;
    }
    let mut k: usize = i;
    while k <= v.len() - pat.len()
        invariant
            pat@.len() <= v@.len(),
            i <= k,
            find_from(v@, pat@, i as int) == find_from(v@, pat@, k as int),
        decreases v@.len() + 1 - k,
    {
        if stands_at(v, pat, k) {
            return Some(k);
        }
        if k == v.len() - pat.len() {
            assert(find_from(v@, pat@, k as int) == find_from(v@, pat@, k + 1));
            assert(find_from(v@, pat@, k + 1) is None);
            return None;
        }
        k += 1;
    }
    None
}

/// The first position at or after `i` that holds the character `c`.
pub fn position_of(v: &Vec<char>, c: char, i: usize) -> (r: Option<usize>)
    ensures
        (match r {
            Some(k) => find_char(v@, c, i as int) == Some(k as int) && i <= k < v@.len() && v@[k as int]
                == c,
            None => find_char(v@, c, i as int) is None,
        }),
{
    let mut k: usize = i;
    while k < v.len()
        invariant
            i <= k,
            find_char(v@, c, i as int) == find_char(v@, c, k as int),
        decreases v@.len() - k,
    {
        if v[k] == c {
            return Some(k);
        }
        k += 1;
    }
    None
}

/// The last position before `i` that holds the character `c`.
pub fn last_position_of(v: &Vec<char>, c: char, i: usize) -> (r: Option<usize>)
    requires
        i <= v@.len(),
    ensures
        (match r {
            Some(k) => rfind_char(v@, c, i as int) == Some(k as int) && k < i && v@[k as int] == c,
            None => rfind_char(v@, c, i as int) is None,
        }),
{
    let mut k: usize = i;
    while k > 0
        invariant
            k <= i <= v@.len(),
            rfind_char(v@, c, i as int) == rfind_char(v@, c, k as int),
        decreases k,
    {
        if v[k - 1] == c {
            return Some(k - 1);
        }
        k -= 1;
    }
    None
}

/// Whether `v` starts with the text `pat`.
pub fn has_prefix(v: &Vec<char>, pat: &str) -> (r: bool)
    ensures
        r == starts_with(v@, pat@),
{
    let p = chars_of(pat);
    stands_at(v, &p, 0)
}

/// Whether the text `pat` occurs in `v`.
pub fn has_text(v: &Vec<char>, pat: &str) -> (r: bool)
    ensures
        r == find_from(v@, pat@, 0) is Some,
{
    let p = chars_of(pat);
    find(v, &p, 0).is_some()
}

// Splitting and joining.

/// The pieces of `s` between the characters `c`.
pub open spec fn split_char(s: Seq<char>, c: char) -> Seq<Seq<char>>
    decreases s.len(),
    via split_char_decreases
{
    match find_char(s, c, 0) {
        None => seq![s],
        Some(i) => seq![s.take(i)] + split_char(s.skip(i + 1), c),
    }
}

#[via_fn]
proof fn split_char_decreases(s: Seq<char>, c: char) {
    lemma_find_char_bounds(s, c, 0);
}

/// A line without the carriage return before its end.
pub open spec fn strip_cr(s: Seq<char>) -> Seq<char> {
    if s.len() > 0 && s.last() == '\r' {
        s.drop_last()
    } else {
        s
    }
}

/// The lines of `s`: each ends at a line feed, with the carriage return before
/// it, or at the end of `s`; an empty last line is none.
pub open spec fn lines(s: Seq<char>) -> Seq<Seq<char>>
    decreases s.len(),
    via lines_decreases
{
    match find_char(s, '\n', 0) {
        None => if s.len() == 0 {
            Seq::empty()
        } else {
            seq![s]
        },
        Some(i) => seq![strip_cr(s.take(i))] + lines(s.skip(i + 1)),
    }
}

#[via_fn]
proof fn lines_decreases(s: Seq<char>) {
    lemma_find_char_bounds(s, '\n', 0);
}

/// No line holds a line feed.
pub proof fn lemma_lines_hold_no_breaks(s: Seq<char>)
    ensures
        forall|i: int, k: int|
            0 <= i < lines(s).len() && 0 <= k < lines(s)[i].len() ==> #[trigger] lines(s)[i][k]
                != '\n',
    decreases s.len(),
{
    lemma_find_char_bounds(s, '\n', 0);
    if let Some(j) = find_char(s, '\n', 0) {
        let rest = lines(s.skip(j + 1));
        lemma_lines_hold_no_breaks(s.skip(j + 1));
        assert forall|i: int, k: int| 0 <= i < lines(s).len() && 0 <= k < lines(s)[i].len() implies
            #[trigger] lines(s)[i][k] != '\n' by {
            if i == 0 {
                assert(lines(s)[0][k] == s[k]);
            } else {
                assert(lines(s)[i] == rest[i - 1]);
                assert(rest[i - 1][k] != '\n');
            }
        }
    }
}

/// The pieces with `sep` between each two of them.
pub open spec fn join(p: Seq<Seq<char>>, sep: Seq<char>) -> Seq<char>
    decreases p.len(),
{
    if p.len() == 0 {
        Seq::empty()
    } else if p.len() == 1 {
        p[0]
    } else {
        join(p.drop_last(), sep) + sep + p.last()
    }
}

proof fn lemma_join_head(a: Seq<char>, p: Seq<Seq<char>>, sep: Seq<char>)
    requires
        p.len() > 0,
    ensures
        join(seq![a] + p, sep) == a + sep + join(p, sep),
    decreases p.len(),
{
    let q = seq![a] + p;
    assert(q.last() == p.last());
    if p.len() == 1 {
        assert(q.drop_last() =~= seq![a]);
        assert(join(seq![a], sep) == a);
    } else {
        lemma_join_head(a, p.drop_last(), sep);
        assert(q.drop_last() =~= seq![a] + p.drop_last());
        assert(a + sep + join(p.drop_last(), sep) + sep + p.last() =~= a + sep + (join(
            p.drop_last(),
            sep,
        ) + sep + p.last()));
    }
}

/// A list is joined from its first piece on.
pub proof fn lemma_join_first(p: Seq<Seq<char>>, sep: Seq<char>)
    requires
        p.len() > 1,
    ensures
        join(p, sep) == p[0] + sep + join(p.skip(1), sep),
{
    assert(p =~= seq![p[0]] + p.skip(1));
    lemma_join_head(p[0], p.skip(1), sep);
}

/// The pieces of a text, joined again, are the text.
pub proof fn lemma_join_split(s: Seq<char>, c: char)
    ensures
        split_char(s, c).len() > 0,
        join(split_char(s, c), seq![c]) == s,
    decreases s.len(),
{
    lemma_find_char_bounds(s, c, 0);
    if let Some(i) = find_char(s, c, 0) {
        lemma_join_split(s.skip(i + 1), c);
        lemma_join_head(s.take(i), split_char(s.skip(i + 1), c), seq![c]);
        assert(s.take(i) + seq![c] + s.skip(i + 1) =~= s);
    }
}

/// Whether a text holds no character `c`.
pub open spec fn lacks(s: Seq<char>, c: char) -> bool {
    forall|i: int| 0 <= i < s.len() ==> #[trigger] s[i] != c
}

/// No piece of a text holds the character between the pieces.
pub proof fn lemma_pieces_lack(s: Seq<char>, c: char)
    ensures
        forall|i: int|
            0 <= i < split_char(s, c).len() ==> lacks(#[trigger] split_char(s, c)[i], c),
    decreases s.len(),
{
    lemma_find_char_bounds(s, c, 0);
    if let Some(k) = find_char(s, c, 0) {
        lemma_pieces_lack(s.skip(k + 1), c);
        let rest = split_char(s.skip(k + 1), c);
        assert forall|i: int| 0 <= i < split_char(s, c).len() implies lacks(
            #[trigger] split_char(s, c)[i],
            c,
        ) by {
            if i > 0 {
                assert(split_char(s, c)[i] == rest[i - 1]);
            }
        }
    }
}

/// Pieces that do not hold the character between them are found again in what they are
/// joined to.
pub proof fn lemma_split_join(p: Seq<Seq<char>>, c: char)
    requires
        p.len() > 0,
        forall|i: int| 0 <= i < p.len() ==> lacks(#[trigger] p[i], c),
    ensures
        split_char(join(p, seq![c]), c) == p,
    decreases p.len(),
{
    let s = join(p, seq![c]);
    assert(lacks(p[0], c));
    lemma_find_char_bounds(s, c, 0);
    if p.len() == 1 {
        assert(split_char(s, c) =~= p);
    } else {
        let rest = p.skip(1);
        assert forall|i: int| 0 <= i < rest.len() implies lacks(#[trigger] rest[i], c) by {
            assert(rest[i] == p[i + 1]);
        }
        lemma_split_join(rest, c);
        assert(p =~= seq![p[0]] + rest);
        lemma_join_head(p[0], rest, seq![c]);
        let n = p[0].len() as int;
        assert(s[n] == c);
        assert forall|i: int| 0 <= i < n implies #[trigger] s[i] != c by {
            assert(s[i] == p[0][i]);
        }
        assert(find_char(s, c, 0) == Some(n));
        assert(s.take(n) =~= p[0]);
        assert(s.skip(n + 1) =~= join(rest, seq![c]));
        assert(split_char(s, c) =~= p);
    }
}

/// What is left of a text without the white space before it starts with none.
pub proof fn lemma_trim_start_first(s: Seq<char>)
    ensures
        trim_start(s).len() > 0 ==> !is_whitespace(trim_start(s)[0]),
    decreases s.len(),
{
    if s.len() > 0 && is_whitespace(s[0]) {
        lemma_trim_start_first(s.skip(1));
    }
}

/// Searching behind the first `k` characters is searching the rest.
pub proof fn lemma_find_char_skip(s: Seq<char>, c: char, k: int, i: int)
    requires
        0 <= k <= s.len(),
        0 <= i,
    ensures
        find_char(s.skip(k), c, i) == (match find_char(s, c, k + i) {
            Some(j) => Some(j - k),
            None => None,
        }),
    decreases s.len() - k - i,
{
    if k + i < s.len() && s[k + i] != c {
        lemma_find_char_skip(s, c, k, i + 1);
    }
}

/// The pieces of `v` between the characters `c`.
pub fn split(v: &Vec<char>, c: char) -> (r: Vec<Vec<char>>)
    ensures
        pieces(r@) == split_char(v@, c),
{
    let mut r: Vec<Vec<char>> = Vec::new();
    let mut start: usize = 0;
    assert(v@.skip(0) =~= v@);
    assert(pieces(r@) + split_char(v@, c) =~= split_char(v@, c));
    loop
        invariant
            start <= v@.len() == v.len(),
            pieces(r@) + split_char(v@.skip(start as int), c) == split_char(v@, c),
        decreases v@.len() - start,
    {
        let found = position_of(v, c, start);
        proof {
            lemma_find_char_skip(v@, c, start as int, 0);
        }
        let ghost before = r@;
        let ghost rest = v@.skip(start as int);
        match found {
            None => {
                let last = part(v, start, v.len());
                proof {
                    lemma_pieces_push(r@, last);
                    assert(last@ =~= rest);
                    assert(pieces(before).push(rest) =~= pieces(before) + seq![rest]);
                }
                r.push(last);
                return r;
            },
            Some(i) => {
                let piece = part(v, start, i);
                proof {
                    lemma_pieces_push(r@, piece);
                    assert(piece@ =~= rest.take(i - start));
                    assert(rest.skip(i - start + 1) =~= v@.skip(i + 1));
                    assert(pieces(before) + (seq![piece@] + split_char(v@.skip(i + 1), c))
                        =~= pieces(before).push(piece@) + split_char(v@.skip(i + 1), c));
                }
                r.push(piece);
                start = i + 1;
            },
        }
    }
}

/// The lines of `v`.
pub fn lines_of(v: &Vec<char>) -> (r: Vec<Vec<char>>)
    ensures
        pieces(r@) == lines(v@),
{
    let mut r: Vec<Vec<char>> = Vec::new();
    let mut start: usize = 0;
    assert(v@.skip(0) =~= v@);
    assert(pieces(r@) + lines(v@) =~= lines(v@));
    loop
        invariant
            start <= v@.len() == v.len(),
            pieces(r@) + lines(v@.skip(start as int)) == lines(v@),
        decreases v@.len() - start,
    {
        let found = position_of(v, '\n', start);
        proof {
            lemma_find_char_skip(v@, '\n', start as int, 0);
        }
        let ghost before = r@;
        let ghost rest = v@.skip(start as int);
        match found {
            None => {
                if start < v.len() {
                    let last = part(v, start, v.len());
                    proof {
                        lemma_pieces_push(r@, last);
                        assert(last@ =~= rest);
                        assert(pieces(before).push(rest) =~= pieces(before) + seq![rest]);
                    }
                    r.push(last);
                } else {
                    assert(pieces(before) + Seq::<Seq<char>>::empty() =~= pieces(before));
                }
                return r;
            },
            Some(i) => {
                let end: usize = if i > start && v[i - 1] == '\r' {
                    i - 1
                } else {
                    i
                };
                let piece = part(v, start, end);
                proof {
                    lemma_pieces_push(r@, piece);
                    assert(piece@ =~= strip_cr(rest.take(i - start)));
                    assert(rest.skip(i - start + 1) =~= v@.skip(i + 1));
                    assert(pieces(before) + (seq![piece@] + lines(v@.skip(i + 1))) =~= pieces(
                        before,
                    ).push(piece@) + lines(v@.skip(i + 1)));
                }
                r.push(piece);
                start = i + 1;
            },
        }
    }
}

/// The pieces with the text `sep` between each two of them.
pub fn joined(p: &Vec<Vec<char>>, sep: &str) -> (r: Vec<char>)
    ensures
        r@ == join(pieces(p@), sep@),
{
    let mut r: Vec<char> = Vec::new();
    let mut i: usize = 0;
    while i < p.len()
        invariant
            i <= p@.len(),
            r@ == join(pieces(p@).take(i as int), sep@),
        decreases p@.len() - i,
    {
        let ghost before = pieces(p@).take(i as int);
        let ghost after = pieces(p@).take(i + 1);
        assert(after.drop_last() =~= before);
        if i > 0 {
            extend_str(&mut r, sep);
        }
        extend(&mut r, &p[i]);
        i += 1;
        proof {
            if i == 1 {
                assert(r@ =~= p@[0]@);
            } else {
                assert(r@ =~= join(before, sep@) + sep@ + p@[i - 1]@);
            }
        }
    }
    assert(pieces(p@).take(i as int) =~= pieces(p@));
    r
}

/// The texts with the text `sep` between each two of them.
pub fn joined_texts(p: &Vec<String>, sep: &str) -> (r: String)
    ensures
        r@ == join(texts(p@), sep@),
{
    let mut r = String::new();
    let mut i: usize = 0;
    while i < p.len()
        invariant
            i <= p@.len(),
            r@ == join(texts(p@).take(i as int), sep@),
        decreases p@.len() - i,
    {
        let ghost before = texts(p@).take(i as int);
        let ghost after = texts(p@).take(i + 1);
        assert(after.drop_last() =~= before);
        if i > 0 {
            r.append(sep);
        }
        r.append(p[i].as_str());
        i += 1;
        proof {
            if i == 1 {
                assert(r@ =~= p@[0]@);
            } else {
                assert(r@ =~= join(before, sep@) + sep@ + p@[i - 1]@);
            }
        }
    }
    assert(texts(p@).take(i as int) =~= texts(p@));
    r
}

/// The texts one after the other.
pub open spec fn concat(p: Seq<Seq<char>>) -> Seq<char>
    decreases p.len(),
{
    if p.len() == 0 {
        Seq::empty()
    } else {
        concat(p.drop_last()) + p.last()
    }
}

/// `s` from `i` on with `by` in place of each `pat`.
pub open spec fn replaced_from(s: Seq<char>, pat: Seq<char>, by: Seq<char>, i: int) -> Seq<char>
    decreases s.len() - i,
    via replaced_from_decreases
{
    match find_from(s, pat, i) {
        None => s.skip(i),
        Some(k) => if pat.len() == 0 {
            s.skip(i)
        } else {
            s.subrange(i, k) + by + replaced_from(s, pat, by, k + pat.len())
        },
    }
}

#[via_fn]
proof fn replaced_from_decreases(s: Seq<char>, pat: Seq<char>, by: Seq<char>, i: int) {
    lemma_find_from_bounds(s, pat, i);
}

/// `s` with `by` in place of each `pat`, from left to right.
pub open spec fn replaced(s: Seq<char>, pat: Seq<char>, by: Seq<char>) -> Seq<char> {
    replaced_from(s, pat, by, 0)
}

/// The characters with the text `by` in place of each `pat`.
pub fn replace_text(v: &Vec<char>, pat: &str, by: &str) -> (r: Vec<char>)
    requires
        pat@.len() > 0,
    ensures
        r@ == replaced(v@, pat@, by@),
{
    let p = chars_of(pat);
    let mut r: Vec<char> = Vec::new();
    let mut i: usize = 0;
    assert(r@ + replaced_from(v@, pat@, by@, 0) =~= replaced(v@, pat@, by@));
    loop
        invariant
            p@ == pat@,
            pat@.len() > 0,
            i <= v@.len(),
            r@ + replaced_from(v@, pat@, by@, i as int) == replaced(v@, pat@, by@),
        decreases v@.len() - i,
    {
        let ghost before = r@;
        match find(v, &p, i) {
            None => {
                let rest = part(v, i, v.len());
                assert(rest@ =~= v@.skip(i as int));
                extend(&mut r, &rest);
                return r;
            },
            Some(k) => {
                let n: usize = v.len();
                let head = part(v, i, k);
                extend(&mut r, &head);
                extend_str(&mut r, by);
                assert(before + (v@.subrange(i as int, k as int) + by@ + replaced_from(
                    v@,
                    pat@,
                    by@,
                    k + pat@.len(),
                )) =~= r@ + replaced_from(v@, pat@, by@, k + pat@.len()));
                i = k + p.len();
            },
        }
    }
}

/// Two texts one after the other.
pub fn cat(a: &str, b: &str) -> (r: String)
    ensures
        r@ == a@ + b@,
{
    let mut s = a.to_owned();
    s.append(b);
    s
}

/// Three texts one after the other.
pub fn cat3(a: &str, b: &str, c: &str) -> (r: String)
    ensures
        r@ == a@ + b@ + c@,
{
    let mut s = a.to_owned();
    s.append(b);
    s.append(c);
    s
}

/// Four texts one after the other.
pub fn cat4(a: &str, b: &str, c: &str, d: &str) -> (r: String)
    ensures
        r@ == a@ + b@ + c@ + d@,
{
    let mut s = a.to_owned();
    s.append(b);
    s.append(c);
    s.append(d);
    s
}

/// Five texts one after the other.
pub fn cat5(a: &str, b: &str, c: &str, d: &str, e: &str) -> (r: String)
    ensures
        r@ == a@ + b@ + c@ + d@ + e@,
{
    let mut s = a.to_owned();
    s.append(b);
    s.append(c);
    s.append(d);
    s.append(e);
    s
}

/// The view of an optional string.
pub open spec fn opt_text(o: Option<String>) -> Option<Seq<char>> {
    match o {
        Some(s) => Some(s@),
        None => None,
    }
}

/// The view of an optional string slice.
pub open spec fn opt_str(o: Option<&str>) -> Option<Seq<char>> {
    match o {
        Some(s) => Some(s@),
        None => None,
    }
}

/// The first `max` characters, with an ellipsis behind them where there are more.
pub open spec fn truncated(s: Seq<char>, max: int) -> Seq<char> {
    if s.len() <= max {
        s
    } else {
        s.take(max) + "…"@
    }
}

/// The first `max` characters, with an ellipsis behind them where there are more.
pub fn truncate_chars(s: &str, max: usize) -> (r: String)
    ensures
        r@ == truncated(s@, max as int),
{
    let v = chars_of(s);
    if v.len() <= max {
        s.to_owned()
    } else {
        let head = string_of(&v, 0, max);
        assert(v@.subrange(0, max as int) =~= v@.take(max as int));
        cat(head.as_str(), "…")
    }
}

// Numbers.

/// Whether a character is a decimal digit.
pub open spec fn is_digit(c: char) -> bool {
    '0' <= c <= '9'
}

/// The number that a sequence of decimal digits denotes.
pub open spec fn digits_value(s: Seq<char>) -> Option<int>
    decreases s.len(),
{
    if s.len() == 0 {
        Some(0)
    } else if is_digit(s.last()) {
        match digits_value(s.drop_last()) {
            Some(n) => Some(10 * n + (s.last() as int - '0' as int)),
            None => None,
        }
    } else {
        None
    }
}

/// The integer that a text denotes: an optional sign, and at least one digit.
pub open spec fn integer_value(s: Seq<char>) -> Option<int> {
    if s.len() > 0 && s[0] == '-' {
        if s.len() == 1 {
            None
        } else {
            match digits_value(s.skip(1)) {
                Some(n) => Some(-n),
                None => None,
            }
        }
    } else {
        let d = if s.len() > 0 && s[0] == '+' {
            s.skip(1)
        } else {
            s
        };
        if d.len() == 0 {
            None
        } else {
            digits_value(d)
        }
    }
}

/// The integer of 64 bits that a text denotes.
pub open spec fn i64_value(s: Seq<char>) -> Option<int> {
    match integer_value(s) {
        Some(n) => if i64::MIN <= n <= i64::MAX {
            Some(n)
        } else {
            None
        },
        None => None,
    }
}

/// The message with which `str::parse` refuses to make an `i64` of a text.
pub uninterp spec fn i64_parse_error(text: Seq<char>) -> Seq<char>;

/// `str::parse::<i64>`: the integer that the text denotes, an optional sign and
/// decimal digits, where an `i64` holds it; else the message of the error, which
/// the text alone decides.
#[verifier::external_body]
pub(crate) fn parse_i64(text: &str) -> (r: Result<i64, String>)
    ensures
        (match r {
            Ok(n) => i64_value(text@) == Some(n as int),
            Err(e) => i64_value(text@) is None && e@ == i64_parse_error(text@),
        }),
{
    text.parse::<i64>().map_err(|error| error.to_string())
}

/// The decimal digit of value `d`.
pub open spec fn digit(d: int) -> char {
    (('0' as u32) + d) as char
}

/// The decimal digits of `n`.
pub open spec fn decimal(n: nat) -> Seq<char>
    decreases n,
{
    if n < 10 {
        seq![digit(n as int)]
    } else {
        decimal(n / 10).push(digit((n % 10) as int))
    }
}

/// The decimal notation of an integer.
pub open spec fn int_text(n: int) -> Seq<char> {
    if n < 0 {
        seq!['-'] + decimal((-n) as nat)
    } else {
        decimal(n as nat)
    }
}

/// The decimal digit of value `d`.
pub fn digit_char(d: u64) -> (r: char)
    requires
        d < 10,
    ensures
        r == digit(d as int),
{
    match d {
        0 => '0',
        1 => '1',
        2 => '2',
        3 => '3',
        4 => '4',
        5 => '5',
        6 => '6',
        7 => '7',
        8 => '8',
        _ => '9',
    }
}

/// The decimal digits of `n`.
pub fn decimal_text(n: u64) -> (r: String)
    ensures
        r@ == decimal(n as nat),
    decreases n,
{
    if n < 10 {
        let mut s = String::new();
        s.push(digit_char(n));
        assert(s@ =~= seq![digit(n as int)]);
        s
    } else {
        let mut s = decimal_text(n / 10);
        s.push(digit_char(n % 10));
        s
    }
}

/// The decimal notation of an integer.
pub fn integer_text(n: i64) -> (r: String)
    ensures
        r@ == int_text(n as int),
{
    if n >= 0 {
        decimal_text(n as u64)
    } else {
        let m: u64 = if n == i64::MIN {
            9223372036854775808
        } else {
            (-n) as u64
        };
        let mut s = String::new();
        s.push('-');
        assert(s@ =~= seq!['-']);
        let d = decimal_text(m);
        s.append(d.as_str());
        s
    }
}

proof fn lemma_decimal_digits(n: nat)
    ensures
        decimal(n).len() > 0,
        forall|i: int| 0 <= i < decimal(n).len() ==> is_digit(#[trigger] decimal(n)[i]),
        digits_value(decimal(n)) == Some(n as int),
    decreases n,
{
    if n < 10 {
        let s = decimal(n);
        assert(s.drop_last() =~= Seq::empty());
        assert(digits_value(s.drop_last()) == Some(0int));
    } else {
        lemma_decimal_digits(n / 10);
        assert(decimal(n).drop_last() =~= decimal(n / 10));
        assert(decimal(n).last() == digit((n % 10) as int));
    }
}

/// The notation of an integer is read as that integer. It is made of digits behind at
/// most one sign, so that nothing is trimmed from it.
pub proof fn law_integers_are_read_back(n: int)
    requires
        i64::MIN <= n <= i64::MAX,
    ensures
        i64_value(int_text(n)) == Some(n),
        trim(int_text(n)) == int_text(n),
        int_text(n).len() > 0,
        forall|i: int|
            0 <= i < int_text(n).len() ==> is_digit(#[trigger] int_text(n)[i]) || int_text(n)[i]
                == '-',
{
    let s = int_text(n);
    if n < 0 {
        lemma_decimal_digits((-n) as nat);
        let d = decimal((-n) as nat);
        assert(s.skip(1) =~= d);
        assert(s.last() == d.last());
        assert(is_digit(d[d.len() - 1]));
        assert forall|i: int| 0 <= i < s.len() implies is_digit(#[trigger] s[i]) || s[i] == '-' by {
            if i > 0 {
                assert(s[i] == d[i - 1]);
            }
        }
    } else {
        lemma_decimal_digits(n as nat);
        assert(is_digit(s[0]) && is_digit(s[s.len() - 1]));
    }
    lemma_trim_stays(s);
}

/// Whether `a` comes before `b` in the order of their characters, or equals it.
pub open spec fn text_le(a: Seq<char>, b: Seq<char>) -> bool
    decreases a.len(),
{
    if a.len() == 0 {
        true
    } else if b.len() == 0 {
        false
    } else if a[0] != b[0] {
        a[0] < b[0]
    } else {
        text_le(a.skip(1), b.skip(1))
    }
}

/// Whether `a` comes before `b` in the order of their characters, or equals it.
pub fn is_text_le(a: &str, b: &str) -> (r: bool)
    ensures
        r == text_le(a@, b@),
{
    let x = chars_of(a);
    let y = chars_of(b);
    let mut i: usize = 0;
    assert(x@.skip(0) =~= x@);
    assert(y@.skip(0) =~= y@);
    while i < x.len() && i < y.len() && x[i] == y[i]
        invariant
            i <= x@.len(),
            i <= y@.len(),
            text_le(x@, y@) == text_le(x@.skip(i as int), y@.skip(i as int)),
        decreases x@.len() - i,
    {
        assert(x@.skip(i as int).skip(1) =~= x@.skip(i + 1));
        assert(y@.skip(i as int).skip(1) =~= y@.skip(i + 1));
        i += 1;
    }
    if i >= x.len() {
        true
    } else if i >= y.len() {
        false
    } else {
        x[i] < y[i]
    }
}

/// The order of texts is total.
pub proof fn lemma_text_le_total(a: Seq<char>, b: Seq<char>)
    ensures
        text_le(a, b) || text_le(b, a),
        text_le(a, b) && text_le(b, a) ==> a == b,
    decreases a.len(),
{
    if a.len() > 0 && b.len() > 0 && a[0] == b[0] {
        lemma_text_le_total(a.skip(1), b.skip(1));
        if a.skip(1) == b.skip(1) {
            assert(a =~= seq![a[0]] + a.skip(1));
            assert(b =~= seq![b[0]] + b.skip(1));
        }
    } else if a.len() == 0 && b.len() == 0 {
        assert(a =~= b);
    }
}

/// The order of texts is transitive.
pub proof fn lemma_text_le_transitive(a: Seq<char>, b: Seq<char>, c: Seq<char>)
    requires
        text_le(a, b),
        text_le(b, c),
    ensures
        text_le(a, c),
    decreases a.len(),
{
    if a.len() > 0 && b.len() > 0 && c.len() > 0 && a[0] == b[0] && b[0] == c[0] {
        lemma_text_le_transitive(a.skip(1), b.skip(1), c.skip(1));
    }
}

/// A text comes before another where they part at `k` and it has the lesser character
/// there or none.
pub proof fn lemma_text_lt_at(a: Seq<char>, b: Seq<char>, k: int)
    requires
        0 <= k <= a.len(),
        k < b.len(),
        forall|j: int| 0 <= j < k ==> a[j] == b[j],
        k == a.len() || a[k] < b[k],
    ensures
        text_le(a, b),
        a != b,
    decreases k,
{
    if k > 0 {
        assert forall|j: int| 0 <= j < k - 1 implies a.skip(1)[j] == b.skip(1)[j] by {
            assert(a[j + 1] == b[j + 1]);
        }
        lemma_text_lt_at(a.skip(1), b.skip(1), k - 1);
    }
}

/// A character with an ASCII letter in lower case.
pub open spec fn lower_char(c: char) -> char {
    if 'A' <= c <= 'Z' {
        (c as u32 + 32) as char
    } else {
        c
    }
}

/// A text with its ASCII letters in lower case.
pub open spec fn lower(s: Seq<char>) -> Seq<char> {
    s.map_values(|c: char| lower_char(c))
}

/// A text with its ASCII letters in lower case.
pub fn lower_text(s: &str) -> (r: String)
    ensures
        r@ == lower(s@),
{
    let v = chars_of(s);
    let mut r = String::new();
    let mut i: usize = 0;
    assert(r@ =~= lower(v@).take(0));
    while i < v.len()
        invariant
            i <= v@.len(),
            r@ == lower(v@).take(i as int),
        decreases v@.len() - i,
    {
        let c: char = v[i];
        let l: char = if 'A' <= c && c <= 'Z' {
            ((c as u8) + 32) as char
        } else {
            c
        };
        r.push(l);
        assert(lower(v@).take(i + 1) =~= lower(v@).take(i as int).push(lower(v@)[i as int]));
        i += 1;
    }
    assert(lower(v@).take(i as int) =~= lower(v@));
    r
}

/// The hexadecimal digit of value `d`, in lower case.
pub open spec fn hex_digit(d: int) -> char {
    if d < 10 {
        digit(d)
    } else {
        (('a' as u32) + (d - 10)) as char
    }
}

/// The last `width` hexadecimal digits of `n`.
pub open spec fn hex(n: nat, width: nat) -> Seq<char>
    decreases width,
{
    if width == 0 {
        Seq::empty()
    } else {
        hex(n / 16, (width - 1) as nat).push(hex_digit((n % 16) as int))
    }
}

fn hex_digit_char(d: u64) -> (r: char)
    requires
        d < 16,
    ensures
        r == hex_digit(d as int),
{
    match d {
        10 => 'a',
        11 => 'b',
        12 => 'c',
        13 => 'd',
        14 => 'e',
        15 => 'f',
        _ => digit_char(d),
    }
}

/// The last `width` hexadecimal digits of `n`.
pub fn hex_text(n: u64, width: u8) -> (r: String)
    ensures
        r@ == hex(n as nat, width as nat),
    decreases width,
{
    if width == 0 {
        String::new()
    } else {
        let mut s = hex_text(n / 16, width - 1);
        s.push(hex_digit_char(n % 16));
        s
    }
}

} // verus!
