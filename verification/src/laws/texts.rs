//! Texts, numbers and JSON values: what the rest of the library rests on.
use crate::json;
use crate::json::{Json, JsonView};
use crate::text;
use vstd::prelude::*;

verus! {

// White space.

/// A text without the white space round it is a part of the text, with nothing but white space
/// before and behind it, and with none at its own ends.
pub proof fn law_trimming_takes_white_space_only(s: Seq<char>) -> (r: (int, int))
    ensures
        0 <= r.0 <= r.1 <= s.len(),
        text::trim(s) == s.subrange(r.0, r.1),
        forall|i: int| 0 <= i < r.0 ==> text::is_whitespace(#[trigger] s[i]),
        forall|i: int| r.1 <= i < s.len() ==> text::is_whitespace(#[trigger] s[i]),
        text::trim(s).len() > 0 ==> !text::is_whitespace(text::trim(s)[0]) && !text::is_whitespace(
            text::trim(s).last(),
        ),
{
    let r = text::lemma_trim_at(s);
    assert forall|i: int| 0 <= i < r.0 implies text::is_whitespace(#[trigger] s[i]) by {
        assert(s.take(r.0)[i] == s[i]);
    }
    assert forall|i: int| r.1 <= i < s.len() implies text::is_whitespace(#[trigger] s[i]) by {
        assert(s.skip(r.1)[i - r.1] == s[i]);
    }
    let t = text::trim_start(s);
    text::lemma_trim_start_first(s);
    lemma_trim_end(t);
    r
}

proof fn lemma_trim_end(s: Seq<char>)
    ensures
        text::trim_end(s).len() > 0 ==> !text::is_whitespace(text::trim_end(s).last())
            && text::trim_end(s)[0] == s[0],
    decreases s.len(),
{
    if s.len() > 0 && text::is_whitespace(s.last()) {
        lemma_trim_end(s.drop_last());
    }
}

/// Spaces, tabs and line ends are white space; what can be seen is none.
pub proof fn law_white_space_cannot_be_seen(c: char)
    ensures
        text::is_whitespace(' '),
        text::is_whitespace('\t'),
        text::is_whitespace('\n'),
        text::is_whitespace('\r'),
        '!' <= c <= '~' ==> !text::is_whitespace(c),
{
}

// Lines and lists.

/// The lines of a text are what stands before its first line feed, without a carriage return,
/// and then the lines of the rest; a text without one is one line, an empty text none.
pub proof fn law_lines_end_at_line_feeds(a: Seq<char>, rest: Seq<char>)
    requires
        text::lacks(a, '\n'),
    ensures
        text::lines(a + seq!['\n'] + rest) == seq![
            if a.len() > 0 && a.last() == '\r' {
                a.drop_last()
            } else {
                a
            },
        ] + text::lines(rest),
        a.len() > 0 ==> text::lines(a) == seq![a],
        text::lines(Seq::empty()).len() == 0,
{
    let s = a + seq!['\n'] + rest;
    let n = a.len() as int;
    text::lemma_find_char_bounds(s, '\n', 0);
    assert(s[n] == '\n');
    assert forall|i: int| 0 <= i < n implies #[trigger] s[i] != '\n' by {
        assert(s[i] == a[i]);
    }
    assert(text::find_char(s, '\n', 0) == Some(n));
    assert(s.take(n) =~= a);
    assert(s.skip(n + 1) =~= rest);
    text::lemma_find_char_bounds(a, '\n', 0);
}

/// Texts are joined with what stands between them and nothing else.
pub proof fn law_joined_texts_keep_all(p: Seq<Seq<char>>, s: Seq<char>, sep: Seq<char>)
    ensures
        text::join(Seq::empty(), sep).len() == 0,
        text::join(seq![s], sep) == s,
        p.len() > 0 ==> text::join(p.push(s), sep) == text::join(p, sep) + sep + s,
        text::concat(p.push(s)) == text::concat(p) + s,
        text::concat(Seq::empty()).len() == 0,
{
    assert(p.push(s).drop_last() =~= p);
}

/// A text is split where the character stands: before it, and behind it again.
pub proof fn law_splits_are_at_the_character(a: Seq<char>, rest: Seq<char>, c: char)
    requires
        text::lacks(a, c),
    ensures
        text::split_char(a + seq![c] + rest, c) == seq![a] + text::split_char(rest, c),
        text::split_char(a, c) == seq![a],
{
    let s = a + seq![c] + rest;
    let n = a.len() as int;
    text::lemma_find_char_bounds(s, c, 0);
    assert(s[n] == c);
    assert forall|i: int| 0 <= i < n implies #[trigger] s[i] != c by {
        assert(s[i] == a[i]);
    }
    assert(text::find_char(s, c, 0) == Some(n));
    assert(s.take(n) =~= a);
    assert(s.skip(n + 1) =~= rest);
    text::lemma_find_char_bounds(a, c, 0);
}

/// A text that is cut keeps its first characters and says that it was cut.
pub proof fn law_cut_texts_keep_their_beginning(s: Seq<char>, max: int)
    requires
        max >= 0,
    ensures
        s.len() <= max ==> text::truncated(s, max) == s,
        s.len() > max ==> text::truncated(s, max) == s.take(max).push('…'),
{
    reveal_strlit("…");
    assert("…"@ =~= seq!['…']);
    if s.len() > max {
        assert(s.take(max) + "…"@ =~= s.take(max).push('…'));
    }
}

/// A text in which something does not occur stays when that is replaced; where it occurs first,
/// the other stands in its place, and the rest is replaced in the same way.
pub proof fn law_replacing_goes_from_left_to_right(
    s: Seq<char>,
    pat: Seq<char>,
    by: Seq<char>,
    i: int,
    k: int,
)
    requires
        0 <= i <= s.len(),
        pat.len() > 0,
    ensures
        (forall|j: int| i <= j ==> !#[trigger] text::matches_at(s, pat, j)) ==> text::replaced_from(
            s,
            pat,
            by,
            i,
        ) == s.skip(i),
        i <= k && text::matches_at(s, pat, k) && (forall|j: int|
            i <= j < k ==> !#[trigger] text::matches_at(s, pat, j)) ==> text::replaced_from(
            s,
            pat,
            by,
            i,
        ) == s.subrange(i, k) + by + text::replaced_from(s, pat, by, k + pat.len()),
        text::replaced(s, pat, by) == text::replaced_from(s, pat, by, 0),
{
    text::lemma_find_from_bounds(s, pat, i);
}

/// Capital letters become small ones, and everything else stays.
pub proof fn law_letters_become_small(s: Seq<char>, i: int)
    requires
        0 <= i < s.len(),
    ensures
        text::lower(s).len() == s.len(),
        'A' <= s[i] <= 'Z' ==> text::lower(s)[i] as u32 == s[i] as u32 + 32,
        !('A' <= s[i] <= 'Z') ==> text::lower(s)[i] == s[i],
{
}

// Numbers.

/// Numbers are written in the decimal system.
pub proof fn law_numbers_are_decimal(n: nat, d: nat)
    requires
        d < 10,
    ensures
        text::decimal(d).len() == 1,
        text::decimal(d)[0] as u32 == '0' as u32 + d,
        n > 0 ==> text::decimal(10 * n + d) == text::decimal(n) + text::decimal(d),
        n > 0 ==> text::int_text(-(n as int)) == seq!['-'] + text::decimal(n),
        text::int_text(n as int) == text::decimal(n),
{
    if n > 0 {
        assert((10 * n + d) / 10 == n);
        assert((10 * n + d) % 10 == d);
        assert(text::decimal(n).push(text::digit(d as int)) =~= text::decimal(n) + text::decimal(d));
    }
}

/// What reads as a number is digits with or without a sign, within sixty-four bits.
pub proof fn law_only_digits_are_numbers(s: Seq<char>, c: char)
    ensures
        !('0' <= c <= '9') ==> text::digits_value(s.push(c)) is None,
        '0' <= c <= '9' && text::digits_value(s) is Some ==> text::digits_value(s.push(c)) == Some(
            10 * text::digits_value(s)->0 + (c as int - '0' as int),
        ),
        text::i64_value(Seq::empty()) is None,
        text::i64_value(s) matches Some(n) ==> -0x8000_0000_0000_0000 <= n <= 0x7fff_ffff_ffff_ffff,
{
    assert(s.push(c).drop_last() =~= s);
}

/// A sign stands before the digits.
pub proof fn law_signs_stand_before_digits(d: Seq<char>)
    requires
        d.len() > 0,
        text::digits_value(d) is Some,
        d[0] != '-' && d[0] != '+',
    ensures
        text::integer_value(d) == text::digits_value(d),
        text::integer_value(seq!['+'] + d) == text::digits_value(d),
        text::integer_value(seq!['-'] + d) == Some(-(text::digits_value(d)->0)),
{
    assert((seq!['+'] + d).skip(1) =~= d);
    assert((seq!['-'] + d).skip(1) =~= d);
    assert((seq!['+'] + d)[0] == '+' && (seq!['-'] + d)[0] == '-');
}

/// A digest has as many digits as it is wide, each a digit to the base of sixteen.
pub proof fn law_digests_are_as_wide_as_asked(n: nat, width: nat)
    ensures
        text::hex(n, width).len() == width,
        forall|i: int|
            0 <= i < width ==> {
                let c = #[trigger] text::hex(n, width)[i];
                '0' <= c <= '9' || 'a' <= c <= 'f'
            },
    decreases width,
{
    if width > 0 {
        law_digests_are_as_wide_as_asked(n / 16, (width - 1) as nat);
        let before = text::hex(n / 16, (width - 1) as nat);
        assert forall|i: int| 0 <= i < width implies {
            let c = #[trigger] text::hex(n, width)[i];
            '0' <= c <= '9' || 'a' <= c <= 'f'
        } by {
            if i < width - 1 {
                assert(text::hex(n, width)[i] == before[i]);
            }
        }
    }
}

/// Different numbers have different digests, as long as they fit.
pub proof fn law_digests_tell_numbers_apart(a: nat, b: nat, width: nat)
    requires
        text::hex(a, width) == text::hex(b, width),
        a < sixteen_to(width),
        b < sixteen_to(width),
    ensures
        a == b,
    decreases width,
{
    if width > 0 {
        let x = text::hex(a, width);
        let y = text::hex(b, width);
        let w = (width - 1) as nat;
        assert(x.drop_last() =~= text::hex(a / 16, w));
        assert(y.drop_last() =~= text::hex(b / 16, w));
        assert(x.last() == y.last());
        assert(a / 16 < sixteen_to(w)) by (nonlinear_arith)
            requires
                a < 16 * sixteen_to(w),
        ;
        assert(b / 16 < sixteen_to(w)) by (nonlinear_arith)
            requires
                b < 16 * sixteen_to(w),
        ;
        law_digests_tell_numbers_apart(a / 16, b / 16, w);
        lemma_hex_digits_differ((a % 16) as int, (b % 16) as int);
    }
}

/// The number of numbers with so many digits to the base of sixteen.
pub open spec fn sixteen_to(width: nat) -> nat
    decreases width,
{
    if width == 0 {
        1
    } else {
        16 * sixteen_to((width - 1) as nat)
    }
}

proof fn lemma_hex_digits_differ(a: int, b: int)
    requires
        0 <= a < 16,
        0 <= b < 16,
        text::hex_digit(a) == text::hex_digit(b),
    ensures
        a == b,
{
    assert(text::hex_digit(a) as u32 == (if a < 10 {
        48 + a
    } else {
        87 + a
    }));
    assert(text::hex_digit(b) as u32 == (if b < 10 {
        48 + b
    } else {
        87 + b
    }));
}

// Values.

/// A JSON value is what it holds.
pub proof fn law_values_are_what_they_hold(b: bool, u: u64, n: i64, s: String, v: Vec<Json>, i: int)
    ensures
        Json::Null@ == JsonView::Null,
        Json::Bool(b)@ == JsonView::Bool(b),
        Json::Unsigned(u)@ == JsonView::Integer(u as int),
        Json::Signed(n)@ == JsonView::Integer(n as int),
        Json::Decimal(s)@ == JsonView::Decimal(s@),
        Json::Text(s)@ == JsonView::Text(s@),
        0 <= i < v@.len() ==> Json::Array(v)@->Array_0.len() == v@.len() && Json::Array(
            v,
        )@->Array_0[i] == v@[i]@,
{
    json::lemma_array_view(v);
}

/// Under a key stands the value of the first entry with that key; an object without such an
/// entry, and what is no object, has nothing there.
pub proof fn law_keys_find_their_first_value(
    e: Seq<(Seq<char>, JsonView)>,
    key: Seq<char>,
    i: int,
)
    ensures
        0 <= i < e.len() && e[i].0 == key && (forall|k: int|
            0 <= k < i ==> (#[trigger] e[k]).0 != key) ==> JsonView::Object(e).get(key) == Some(
            e[i].1,
        ),
        (forall|k: int| 0 <= k < e.len() ==> (#[trigger] e[k]).0 != key) ==> JsonView::Object(
            e,
        ).get(key) is None,
        JsonView::Null.get(key) is None,
    decreases e.len(),
{
    if e.len() > 0 && e[0].0 != key {
        law_keys_find_their_first_value(e.skip(1), key, i - 1);
        if 0 <= i < e.len() && e[i].0 == key && (forall|k: int|
            0 <= k < i ==> (#[trigger] e[k]).0 != key) {
            assert(i > 0);
            assert(e.skip(1)[i - 1] == e[i]);
            assert forall|k: int| 0 <= k < i - 1 implies (#[trigger] e.skip(1)[k]).0 != key by {
                assert(e.skip(1)[k] == e[k + 1]);
            }
        }
        if forall|k: int| 0 <= k < e.len() ==> (#[trigger] e[k]).0 != key {
            assert forall|k: int| 0 <= k < e.skip(1).len() implies (#[trigger] e.skip(1)[k]).0
                != key by {
                assert(e.skip(1)[k] == e[k + 1]);
            }
        }
    }
}

/// What stands under a key is read as what it is, and as nothing else.
pub proof fn law_values_are_read_as_what_they_are(value: JsonView, key: Seq<char>, s: Seq<char>, n: int, b: bool)
    ensures
        value.get(key) == Some(JsonView::Text(s)) ==> value.str_at(key) == Some(s),
        value.str_at(key) == Some(s) ==> value.get(key) == Some(JsonView::Text(s)),
        value.get(key) == Some(JsonView::Integer(n)) && i64::MIN <= n <= i64::MAX ==> value.i64_at(
            key,
        ) == Some(n),
        value.i64_at(key) == Some(n) ==> value.get(key) == Some(JsonView::Integer(n)),
        value.bool_at(key) == Some(b) <==> value.get(key) == Some(JsonView::Bool(b)),
{
}

/// Setting a value under a key changes what stands there and nothing else.
pub proof fn law_setting_a_key_changes_it_alone(
    e: Seq<(Seq<char>, JsonView)>,
    key: Seq<char>,
    value: JsonView,
    other: Seq<char>,
)
    ensures
        json::lookup(json::with_entry(e, key, value), key) == Some(value),
        other != key ==> json::lookup(json::with_entry(e, key, value), other) == json::lookup(
            e,
            other,
        ),
        json::lookup(e, key) is Some ==> json::with_entry(e, key, value).len() == e.len(),
        json::lookup(e, key) is None ==> json::with_entry(e, key, value).len() == e.len() + 1,
    decreases e.len(),
{
    let r = json::with_entry(e, key, value);
    if e.len() == 0 {
        assert(r.skip(1) =~= e);
    } else {
        law_setting_a_key_changes_it_alone(e.skip(1), key, value, other);
        if e[0].0 == key {
            assert(r.skip(1) =~= e.skip(1));
        } else {
            assert(r.skip(1) =~= json::with_entry(e.skip(1), key, value));
            assert(r[0] == e[0]);
        }
    }
}

} // verus!
