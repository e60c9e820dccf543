//! Markdown as Telegram's HTML: what becomes of the marks and of everything else.
use crate::channel::markdown;
use crate::text;
use vstd::prelude::*;

verus! {

/// The characters that HTML gives a meaning are written as entities, and all others stay.
pub proof fn law_special_characters_become_entities(c: char)
    ensures
        markdown::escape_char('&') == "&amp;"@,
        markdown::escape_char('<') == "&lt;"@,
        markdown::escape_char('>') == "&gt;"@,
        markdown::escape_char('"') == "&quot;"@,
        markdown::escape_char('\'') == "&#39;"@,
        c != '&' && c != '<' && c != '>' && c != '"' && c != '\'' ==> markdown::escape_char(c)
            == seq![c],
{
}

/// A text is escaped character by character.
pub proof fn law_texts_are_escaped_in_place(s: Seq<char>, c: char)
    ensures
        markdown::escaped(s.push(c)) == markdown::escaped(s) + markdown::escape_char(c),
        markdown::escaped(Seq::empty()).len() == 0,
{
    assert(s.push(c).drop_last() =~= s);
}

/// Where a mark of two characters begins and the next one ends it.
pub open spec fn is_doubled(line: Seq<char>, i: int, c: char, e: int) -> bool {
    &&& 0 <= i
    &&& i + 2 <= e
    &&& e + 2 <= line.len()
    &&& line[i] == c && line[i + 1] == c
    &&& line[e] == c && line[e + 1] == c
    &&& forall|k: int| i + 2 <= k < e ==> !(#[trigger] line[k] == c && line[k + 1] == c)
}

proof fn lemma_doubled(line: Seq<char>, i: int, c: char, e: int)
    requires
        is_doubled(line, i, c, e),
    ensures
        text::find_from(line, seq![c, c], i + 2) == Some(e),
{
    let pat = seq![c, c];
    text::lemma_find_from_bounds(line, pat, i + 2);
    assert(line.subrange(e, e + 2) =~= pat);
    assert(text::matches_at(line, pat, e));
    let k = text::find_from(line, pat, i + 2)->0;
    if k < e {
        assert(line.subrange(k, k + 2)[0] == line[k]);
        assert(line.subrange(k, k + 2)[1] == line[k + 1]);
        assert(line[k] == c);
    }
}

/// What stands between two double asterisks or two double underscores is bold, what stands
/// between two double tildes is struck out.
pub proof fn law_doubled_marks_are_bold_or_struck_out(line: Seq<char>, i: int, c: char, e: int)
    requires
        is_doubled(line, i, c, e),
        c == '*' || c == '_' || c == '~',
    ensures
        ({
            let inner = markdown::escaped(line.subrange(i + 2, e));
            let rest = markdown::inline_html(line, e + 2);
            markdown::inline_html(line, i) == (if c == '~' {
                "<s>"@ + inner + "</s>"@ + rest
            } else {
                "<b>"@ + inner + "</b>"@ + rest
            })
        }),
{
    lemma_doubled(line, i, c, e);
    markdown::lemma_span_advances(line, i);
}

/// Where a single mark begins, not behind another, and the next one ends it.
pub open spec fn is_single(line: Seq<char>, i: int, c: char, e: int) -> bool {
    &&& 0 <= i < e < line.len()
    &&& line[i] == c
    &&& i == 0 || line[i - 1] != c
    &&& line[e] == c
    &&& forall|k: int| i < k < e ==> #[trigger] line[k] != c
}

/// What stands between two single asterisks is italic, what stands between two backticks is
/// code.
pub proof fn law_single_marks_are_italic_or_code(line: Seq<char>, i: int, c: char, e: int)
    requires
        is_single(line, i, c, e),
        c == '*' && e > i + 1 || c == '`',
    ensures
        ({
            let inner = markdown::escaped(line.subrange(i + 1, e));
            let rest = markdown::inline_html(line, e + 1);
            markdown::inline_html(line, i) == (if c == '`' {
                "<code>"@ + inner + "</code>"@ + rest
            } else {
                "<i>"@ + inner + "</i>"@ + rest
            })
        }),
{
    text::lemma_find_char_bounds(line, c, i + 1);
    let k = text::find_char(line, c, i + 1)->0;
    assert(line[e] == c);
    assert(k == e);
    assert(c == '*' ==> line[i + 1] != '*');
    markdown::lemma_span_advances(line, i);
}

/// A link to the web becomes a link, with its address and its text.
pub proof fn law_links_become_links(line: Seq<char>, i: int, b: int, p: int)
    requires
        0 <= i < b,
        b + 1 < p < line.len(),
        line[i] == '[' && line[b] == ']' && line[b + 1] == '(' && line[p] == ')',
        forall|k: int| i < k < b ==> #[trigger] line[k] != ']',
        forall|k: int| b + 2 <= k < p ==> #[trigger] line[k] != ')',
        text::starts_with(line.subrange(b + 2, p), "http://"@) || text::starts_with(
            line.subrange(b + 2, p),
            "https://"@,
        ),
    ensures
        markdown::inline_html(line, i) == "<a href=\""@ + markdown::escaped(
            line.subrange(b + 2, p),
        ) + "\">"@ + markdown::escaped(line.subrange(i + 1, b)) + "</a>"@ + markdown::inline_html(
            line,
            p + 1,
        ),
{
    text::lemma_find_char_bounds(line, ']', i + 1);
    assert(text::find_char(line, ']', i + 1) == Some(b));
    text::lemma_find_char_bounds(line, ')', b + 2);
    assert(text::find_char(line, ')', b + 2) == Some(p));
    markdown::lemma_span_advances(line, i);
}

/// A character that is no mark stays, or becomes its entity, and what follows it is read on.
pub proof fn law_other_characters_stay(line: Seq<char>, i: int)
    requires
        0 <= i < line.len(),
        line[i] != '*' && line[i] != '_' && line[i] != '`' && line[i] != '[' && line[i] != '~',
    ensures
        markdown::inline_html(line, i) == markdown::escape_char(line[i]) + markdown::inline_html(
            line,
            i + 1,
        ),
        markdown::inline_html(line, line.len() as int).len() == 0,
{
}

/// A mark that nothing ends stays as it is.
pub proof fn law_marks_without_an_end_stay(line: Seq<char>, i: int)
    requires
        0 <= i < line.len(),
        line[i] == '*' || line[i] == '_' || line[i] == '`' || line[i] == '~',
        forall|k: int| i < k < line.len() ==> #[trigger] line[k] != line[i],
    ensures
        markdown::inline_html(line, i) == seq![line[i]] + markdown::inline_html(line, i + 1),
{
    let c = line[i];
    text::lemma_find_char_bounds(line, c, i + 1);
    if let Some(k) = text::find_char(line, c, i + 1) {
        assert(line[k] != c);
    }
}

/// A line of hashes, a space and a title is the title in bold; any other line is read mark by
/// mark.
pub proof fn law_headings_are_bold(hashes: Seq<char>, title: Seq<char>, line: Seq<char>)
    requires
        hashes.len() > 0,
        forall|i: int| 0 <= i < hashes.len() ==> #[trigger] hashes[i] == '#',
    ensures
        markdown::line_html(hashes + seq![' '] + title) == "<b>"@ + markdown::escaped(
            text::trim(seq![' '] + title),
        ) + "</b>"@,
        line.len() == 0 || line[0] != '#' ==> markdown::line_html(line) == markdown::inline_html(
            line,
            0,
        ),
{
    lemma_hashes_go(hashes, seq![' '] + title);
    assert(hashes + seq![' '] + title =~= hashes + (seq![' '] + title));
}

proof fn lemma_hashes_go(hashes: Seq<char>, rest: Seq<char>)
    requires
        rest.len() > 0,
        rest[0] != '#',
        forall|i: int| 0 <= i < hashes.len() ==> #[trigger] hashes[i] == '#',
    ensures
        text::trim_start_char(hashes + rest, '#') == rest,
    decreases hashes.len(),
{
    if hashes.len() == 0 {
        assert(hashes + rest =~= rest);
    } else {
        assert(hashes[0] == '#');
        assert((hashes + rest).skip(1) =~= hashes.skip(1) + rest);
        assert forall|i: int| 0 <= i < hashes.skip(1).len() implies #[trigger] hashes.skip(1)[i]
            == '#' by {
            assert(hashes.skip(1)[i] == hashes[i + 1]);
        }
        lemma_hashes_go(hashes.skip(1), rest);
    }
}

} // verus!
