//! The HTML subset of Telegram, made from Markdown.
use crate::text;
use crate::text::{
    chars_of, extend, extend_str, find, has_prefix, joined, part, position_of, split, to_text, trimmed,
    trimmed_end, trimmed_end_char, trimmed_start, trimmed_start_char,
};
use vstd::prelude::*;

verus! {

/// What stands in HTML for one character of text.
pub open spec fn escape_char(c: char) -> Seq<char> {
    if c == '&' {
        "&amp;"@
    } else if c == '<' {
        "&lt;"@
    } else if c == '>' {
        "&gt;"@
    } else if c == '"' {
        "&quot;"@
    } else if c == '\'' {
        "&#39;"@
    } else {
        seq![c]
    }
}

/// What stands in HTML for a text.
pub open spec fn escaped(s: Seq<char>) -> Seq<char>
    decreases s.len(),
{
    if s.len() == 0 {
        Seq::empty()
    } else {
        escaped(s.drop_last()) + escape_char(s.last())
    }
}

/// The text between two tags.
pub open spec fn tagged(open: Seq<char>, inner: Seq<char>, close: Seq<char>) -> Seq<char> {
    open + escaped(inner) + close
}

/// A piece of HTML, and the position behind the Markdown that it stands for.
pub struct SpanView {
    pub html: Seq<char>,
    pub next: int,
}

/// The text between two marks of two characters `c`, the first of them at `i`.
pub open spec fn doubled_at(
    line: Seq<char>,
    i: int,
    c: char,
    open: Seq<char>,
    close: Seq<char>,
) -> Option<SpanView> {
    if i + 1 < line.len() && line[i] == c && line[i + 1] == c {
        match text::find_from(line, seq![c, c], i + 2) {
            Some(e) => Some(SpanView { html: tagged(open, line.subrange(i + 2, e), close), next: e + 2 }),
            None => None,
        }
    } else {
        None
    }
}

/// The text between two single characters `c`, the first of them at `i` and not
/// behind another.
pub open spec fn single_at(
    line: Seq<char>,
    i: int,
    c: char,
    allow_empty: bool,
    open: Seq<char>,
    close: Seq<char>,
) -> Option<SpanView> {
    if line[i] == c && (i == 0 || line[i - 1] != c) {
        match text::find_char(line, c, i + 1) {
            Some(e) => if e > i + 1 || allow_empty {
                Some(SpanView { html: tagged(open, line.subrange(i + 1, e), close), next: e + 1 })
            } else {
                None
            },
            None => None,
        }
    } else {
        None
    }
}

/// Whether an address is one of the web.
pub open spec fn is_web_address(url: Seq<char>) -> bool {
    text::starts_with(url, "http://"@) || text::starts_with(url, "https://"@)
}

/// The link `[text](url)` that starts at `i`, where its address is one of the web.
pub open spec fn link_at(line: Seq<char>, i: int) -> Option<SpanView> {
    if line[i] == '[' {
        match text::find_char(line, ']', i + 1) {
            Some(b) => if b + 1 < line.len() && line[b + 1] == '(' {
                match text::find_char(line, ')', b + 2) {
                    Some(p) => {
                        let url = line.subrange(b + 2, p);
                        if is_web_address(url) {
                            Some(
                                SpanView {
                                    html: "<a href=\""@ + escaped(url) + "\">"@ + escaped(
                                        line.subrange(i + 1, b),
                                    ) + "</a>"@,
                                    next: p + 1,
                                },
                            )
                        } else {
                            None
                        }
                    },
                    None => None,
                }
            } else {
                None
            },
            None => None,
        }
    } else {
        None
    }
}

/// The marked span that starts at `i`: bold, italic, code, a link, or struck out.
pub open spec fn span_at(line: Seq<char>, i: int) -> Option<SpanView> {
    if doubled_at(line, i, '*', "<b>"@, "</b>"@) is Some {
        doubled_at(line, i, '*', "<b>"@, "</b>"@)
    } else if doubled_at(line, i, '_', "<b>"@, "</b>"@) is Some {
        doubled_at(line, i, '_', "<b>"@, "</b>"@)
    } else if single_at(line, i, '*', false, "<i>"@, "</i>"@) is Some {
        single_at(line, i, '*', false, "<i>"@, "</i>"@)
    } else if single_at(line, i, '`', true, "<code>"@, "</code>"@) is Some {
        single_at(line, i, '`', true, "<code>"@, "</code>"@)
    } else if link_at(line, i) is Some {
        link_at(line, i)
    } else {
        doubled_at(line, i, '~', "<s>"@, "</s>"@)
    }
}

/// The HTML of a line from position `i` on.
pub open spec fn inline_html(line: Seq<char>, i: int) -> Seq<char>
    decreases line.len() - i,
    via inline_html_decreases
{
    if i < 0 || i >= line.len() {
        Seq::empty()
    } else {
        match span_at(line, i) {
            Some(span) => span.html + inline_html(line, span.next),
            None => escape_char(line[i]) + inline_html(line, i + 1),
        }
    }
}

#[via_fn]
proof fn inline_html_decreases(line: Seq<char>, i: int) {
    if 0 <= i < line.len() {
        lemma_span_advances(line, i);
    }
}

/// A span ends behind its start and within the line.
pub proof fn lemma_span_advances(line: Seq<char>, i: int)
    requires
        0 <= i < line.len(),
    ensures
        span_at(line, i) matches Some(span) ==> i < span.next <= line.len(),
{
    text::lemma_find_from_bounds(line, seq!['*', '*'], i + 2);
    text::lemma_find_from_bounds(line, seq!['_', '_'], i + 2);
    text::lemma_find_from_bounds(line, seq!['~', '~'], i + 2);
    text::lemma_find_char_bounds(line, '*', i + 1);
    text::lemma_find_char_bounds(line, '`', i + 1);
    text::lemma_find_char_bounds(line, ']', i + 1);
    if let Some(b) = text::find_char(line, ']', i + 1) {
        text::lemma_find_char_bounds(line, ')', b + 2);
    }
}

/// The HTML of a line outside a code block: a heading in bold, or its spans.
pub open spec fn line_html(line: Seq<char>) -> Seq<char> {
    let stripped = text::trim_start_char(line, '#');
    if stripped.len() < line.len() && stripped.len() > 0 && stripped[0] == ' ' {
        tagged("<b>"@, text::trim(stripped), "</b>"@)
    } else {
        inline_html(line, 0)
    }
}

/// Whether a line opens or closes a code block.
pub open spec fn is_fence(line: Seq<char>) -> bool {
    text::starts_with(text::trim_start(line), "```"@)
}

/// The lines with everything outside the code blocks made HTML.
pub open spec fn lines_html(l: Seq<Seq<char>>, fenced: bool) -> Seq<Seq<char>>
    decreases l.len(),
{
    if l.len() == 0 {
        Seq::empty()
    } else if is_fence(l[0]) {
        seq![text::trim_start(l[0])] + lines_html(l.skip(1), !fenced)
    } else if fenced {
        seq![l[0]] + lines_html(l.skip(1), fenced)
    } else {
        seq![line_html(l[0])] + lines_html(l.skip(1), fenced)
    }
}

/// The lines with each code block, whose lines before these are `code`, between
/// its tags; `out` stands before them all.
pub open spec fn blocks_html(
    l: Seq<Seq<char>>,
    in_code: bool,
    code: Seq<char>,
    out: Seq<char>,
) -> Seq<char>
    decreases l.len(),
{
    if l.len() == 0 {
        if in_code && code.len() > 0 {
            out + "<pre><code>"@ + text::trim_end(code) + "</code></pre>\n"@
        } else {
            out
        }
    } else if text::starts_with(text::trim(l[0]), "```"@) {
        if in_code {
            blocks_html(
                l.skip(1),
                false,
                Seq::empty(),
                out + "<pre><code>"@ + text::trim_end_char(code, '\n') + "</code></pre>\n"@,
            )
        } else {
            blocks_html(l.skip(1), true, Seq::empty(), out)
        }
    } else if in_code {
        blocks_html(l.skip(1), in_code, code + l[0] + seq!['\n'], out)
    } else {
        blocks_html(l.skip(1), in_code, code, out + l[0] + seq!['\n'])
    }
}

/// The HTML of a Markdown text.
pub open spec fn telegram_html(s: Seq<char>) -> Seq<char> {
    let first = text::join(lines_html(text::split_char(s, '\n'), false), "\n"@);
    text::trim_end_char(
        blocks_html(text::split_char(first, '\n'), false, Seq::empty(), Seq::empty()),
        '\n',
    )
}

fn push_escaped_char(out: &mut Vec<char>, c: char)
    ensures
        final(out)@ == old(out)@ + escape_char(c),
{
    if c == '&' {
        extend_str(out, "&amp;");
    } else if c == '<' {
        extend_str(out, "&lt;");
    } else if c == '>' {
        extend_str(out, "&gt;");
    } else if c == '"' {
        extend_str(out, "&quot;");
    } else if c == '\'' {
        extend_str(out, "&#39;");
    } else {
        out.push(c);
        assert(out@ =~= old(out)@ + seq![c]);
    }
}

fn push_escaped(out: &mut Vec<char>, v: &Vec<char>, from: usize, to: usize)
    requires
        from <= to <= v@.len(),
    ensures
        final(out)@ == old(out)@ + escaped(v@.subrange(from as int, to as int)),
{
    let mut i: usize = from;
    assert(v@.subrange(from as int, from as int) =~= Seq::empty());
    assert(out@ =~= out@ + Seq::<char>::empty());
    while i < to
        invariant
            from <= i <= to <= v@.len(),
            out@ == old(out)@ + escaped(v@.subrange(from as int, i as int)),
        decreases to - i,
    {
        let ghost before = escaped(v@.subrange(from as int, i as int));
        push_escaped_char(out, v[i]);
        i += 1;
        proof {
            assert(v@.subrange(from as int, i as int).drop_last() =~= v@.subrange(
                from as int,
                i - 1,
            ));
            assert(old(out)@ + before + escape_char(v@[i - 1]) =~= old(out)@ + (before
                + escape_char(v@[i - 1])));
        }
    }
}

/// The text with the characters that HTML gives a meaning written as entities.
pub fn escape_html(s: &str) -> (r: String)
    ensures
        r@ == escaped(s@),
{
    let v = chars_of(s);
    let mut out: Vec<char> = Vec::new();
    push_escaped(&mut out, &v, 0, v.len());
    assert(v@.subrange(0, v@.len() as int) =~= v@);
    assert(out@ =~= escaped(s@));
    to_text(&out)
}

/// A piece of HTML, and the position behind the Markdown that it stands for.
struct Span {
    html: Vec<char>,
    next: usize,
}

impl Span {
    spec fn view(&self) -> SpanView {
        SpanView { html: self.html@, next: self.next as int }
    }
}

spec fn span_view(s: Option<Span>) -> Option<SpanView> {
    match s {
        Some(x) => Some(x.view()),
        None => None,
    }
}

fn tagged_part(line: &Vec<char>, from: usize, to: usize, open: &str, close: &str) -> (r: Vec<char>)
    requires
        from <= to <= line@.len(),
    ensures
        r@ == tagged(open@, line@.subrange(from as int, to as int), close@),
{
    let mut html = chars_of(open);
    push_escaped(&mut html, line, from, to);
    extend_str(&mut html, close);
    html
}

fn doubled(line: &Vec<char>, i: usize, c: char, open: &str, close: &str) -> (r: Option<Span>)
    requires
        i < line@.len(),
    ensures
        span_view(r) == doubled_at(line@, i as int, c, open@, close@),
{
    if line.len() - i > 1 && line[i] == c && line[i + 1] == c {
        let mut mark: Vec<char> = Vec::new();
        mark.push(c);
        mark.push(c);
        assert(mark@ =~= seq![c, c]);
        match find(line, &mark, i + 2) {
            Some(e) => {
                let html = tagged_part(line, i + 2, e, open, close);
                Some(Span { html, next: e + 2 })
            },
            None => None,
        }
    } else {
        None
    }
}

fn single(line: &Vec<char>, i: usize, c: char, allow_empty: bool, open: &str, close: &str) -> (r:
    Option<Span>)
    requires
        i < line@.len(),
    ensures
        span_view(r) == single_at(line@, i as int, c, allow_empty, open@, close@),
{
    let n: usize = line.len();
    if i < n && line[i] == c && (i == 0 || line[i - 1] != c) {
        match position_of(line, c, i + 1) {
            Some(e) => if e > i + 1 || allow_empty {
                let html = tagged_part(line, i + 1, e, open, close);
                Some(Span { html, next: e + 1 })
            } else {
                None
            },
            None => None,
        }
    } else {
        None
    }
}

fn link(line: &Vec<char>, i: usize) -> (r: Option<Span>)
    requires
        i < line@.len(),
    ensures
        span_view(r) == link_at(line@, i as int),
{
    let n: usize = line.len();
    if i >= n || line[i] != '[' {
        return None;
    }
    let b: usize = match position_of(line, ']', i + 1) {
        Some(b) => b,
        None => {
            return None;
        },
    };
    if n - b <= 1 || line[b + 1] != '(' {
        return None;
    }
    let p: usize = match position_of(line, ')', b + 2) {
        Some(p) => p,
        None => {
            return None;
        },
    };
    let url = part(line, b + 2, p);
    if has_prefix(&url, "http://") || has_prefix(&url, "https://") {
        let mut html = chars_of("<a href=\"");
        push_escaped(&mut html, line, b + 2, p);
        extend_str(&mut html, "\">");
        push_escaped(&mut html, line, i + 1, b);
        extend_str(&mut html, "</a>");
        Some(Span { html, next: p + 1 })
    } else {
        None
    }
}

fn span(line: &Vec<char>, i: usize) -> (r: Option<Span>)
    requires
        i < line@.len(),
    ensures
        span_view(r) == span_at(line@, i as int),
{
    let bold = doubled(line, i, '*', "<b>", "</b>");
    if bold.is_some() {
        return bold;
    }
    let strong = doubled(line, i, '_', "<b>", "</b>");
    if strong.is_some() {
        return strong;
    }
    let italic = single(line, i, '*', false, "<i>", "</i>");
    if italic.is_some() {
        return italic;
    }
    let code = single(line, i, '`', true, "<code>", "</code>");
    if code.is_some() {
        return code;
    }
    let anchor = link(line, i);
    if anchor.is_some() {
        return anchor;
    }
    doubled(line, i, '~', "<s>", "</s>")
}

fn render_inline(line: &Vec<char>) -> (r: Vec<char>)
    ensures
        r@ == inline_html(line@, 0),
{
    let mut out: Vec<char> = Vec::new();
    let mut i: usize = 0;
    assert(out@ + inline_html(line@, 0) =~= inline_html(line@, 0));
    while i < line.len()
        invariant
            i <= line@.len(),
            out@ + inline_html(line@, i as int) == inline_html(line@, 0),
        decreases line@.len() - i,
    {
        let ghost before = out@;
        proof {
            lemma_span_advances(line@, i as int);
        }
        match span(line, i) {
            Some(s) => {
                extend(&mut out, &s.html);
                assert(before + (s.html@ + inline_html(line@, s.next as int)) =~= out@
                    + inline_html(line@, s.next as int));
                i = s.next;
            },
            None => {
                push_escaped_char(&mut out, line[i]);
                assert(before + (escape_char(line@[i as int]) + inline_html(line@, i + 1)) =~= out@
                    + inline_html(line@, i + 1));
                i += 1;
            },
        }
    }
    assert(out@ + inline_html(line@, i as int) =~= out@);
    out
}

fn render_line(line: &Vec<char>) -> (r: Vec<char>)
    ensures
        r@ == line_html(line@),
{
    let stripped = trimmed_start_char(line, '#');
    if stripped.len() < line.len() && stripped.len() > 0 && stripped[0] == ' ' {
        let title = trimmed(&stripped);
        let r = tagged_part(&title, 0, title.len(), "<b>", "</b>");
        assert(title@.subrange(0, title@.len() as int) =~= title@);
        r
    } else {
        render_inline(line)
    }
}

fn render_lines(l: &Vec<Vec<char>>) -> (r: Vec<Vec<char>>)
    ensures
        text::pieces(r@) == lines_html(text::pieces(l@), false),
{
    let mut r: Vec<Vec<char>> = Vec::new();
    let mut fenced = false;
    let mut i: usize = 0;
    let ghost all = text::pieces(l@);
    assert(all.skip(0) =~= all);
    assert(text::pieces(r@) + lines_html(all, false) =~= lines_html(all, false));
    while i < l.len()
        invariant
            i <= l@.len(),
            all == text::pieces(l@),
            text::pieces(r@) + lines_html(all.skip(i as int), fenced) == lines_html(all, false),
        decreases l@.len() - i,
    {
        let ghost before = text::pieces(r@);
        let ghost rest = all.skip(i as int);
        assert(rest[0] == l@[i as int]@);
        assert(rest.skip(1) =~= all.skip(i + 1));
        let left = trimmed_start(&l[i]);
        let html;
        if has_prefix(&left, "```") {
            fenced = !fenced;
            html = left;
        } else if fenced {
            html = part(&l[i], 0, l[i].len());
            assert(html@ =~= l@[i as int]@);
        } else {
            html = render_line(&l[i]);
        }
        proof {
            text::lemma_pieces_push(r@, html);
            assert(before + (seq![html@] + lines_html(all.skip(i + 1), fenced)) =~= before.push(
                html@,
            ) + lines_html(all.skip(i + 1), fenced));
        }
        r.push(html);
        i += 1;
    }
    assert(text::pieces(r@) + lines_html(all.skip(i as int), fenced) =~= text::pieces(r@));
    r
}

fn render_blocks(l: &Vec<Vec<char>>) -> (r: Vec<char>)
    ensures
        r@ == blocks_html(text::pieces(l@), false, Seq::empty(), Seq::empty()),
{
    let mut out: Vec<char> = Vec::new();
    let mut code: Vec<char> = Vec::new();
    let mut in_code = false;
    let mut i: usize = 0;
    let ghost all = text::pieces(l@);
    assert(all.skip(0) =~= all);
    assert(out@ =~= Seq::empty());
    assert(code@ =~= Seq::empty());
    while i < l.len()
        invariant
            i <= l@.len(),
            all == text::pieces(l@),
            blocks_html(all.skip(i as int), in_code, code@, out@) == blocks_html(
                all,
                false,
                Seq::empty(),
                Seq::empty(),
            ),
        decreases l@.len() - i,
    {
        let ghost rest = all.skip(i as int);
        assert(rest[0] == l@[i as int]@);
        assert(rest.skip(1) =~= all.skip(i + 1));
        let body = trimmed(&l[i]);
        if has_prefix(&body, "```") {
            if in_code {
                in_code = false;
                let block = trimmed_end_char(&code, '\n');
                extend_str(&mut out, "<pre><code>");
                extend(&mut out, &block);
                extend_str(&mut out, "</code></pre>\n");
            } else {
                in_code = true;
            }
            code = Vec::new();
            assert(code@ =~= Seq::empty());
        } else if in_code {
            let ghost before = code@;
            extend(&mut code, &l[i]);
            code.push('\n');
            assert(code@ =~= before + l@[i as int]@ + seq!['\n']);
        } else {
            let ghost before = out@;
            extend(&mut out, &l[i]);
            out.push('\n');
            assert(out@ =~= before + l@[i as int]@ + seq!['\n']);
        }
        i += 1;
    }
    if in_code && code.len() > 0 {
        let block = trimmed_end(&code);
        extend_str(&mut out, "<pre><code>");
        extend(&mut out, &block);
        extend_str(&mut out, "</code></pre>\n");
    }
    out
}

/// The HTML of a Markdown text. Bold, italic, struck out and code spans, links to
/// the web, headings and code blocks become tags; every other character that HTML
/// gives a meaning is written as an entity, except inside code blocks.
pub fn markdown_to_telegram_html(text: &str) -> (r: String)
    ensures
        r@ == telegram_html(text@),
{
    let v = chars_of(text);
    let l = split(&v, '\n');
    let rendered = render_lines(&l);
    let first = joined(&rendered, "\n");
    let second = split(&first, '\n');
    let out = render_blocks(&second);
    let done = trimmed_end_char(&out, '\n');
    to_text(&done)
}

/// Whether a character opens or closes a tag or a quoted attribute of HTML.
pub open spec fn is_markup(c: char) -> bool {
    c == '<' || c == '>' || c == '"' || c == '\''
}

/// An escaped text holds none of the characters that open or close tags and
/// quoted attributes.
pub proof fn law_escaped_text_has_no_markup(s: Seq<char>)
    ensures
        forall|i: int| 0 <= i < escaped(s).len() ==> !is_markup(#[trigger] escaped(s)[i]),
    decreases s.len(),
{
    if s.len() > 0 {
        law_escaped_text_has_no_markup(s.drop_last());
        reveal_strlit("&amp;");
        reveal_strlit("&lt;");
        reveal_strlit("&gt;");
        reveal_strlit("&quot;");
        reveal_strlit("&#39;");
        let head = escaped(s.drop_last());
        assert forall|i: int| 0 <= i < escaped(s).len() implies !is_markup(#[trigger] escaped(s)[i]) by {
            if i < head.len() {
                assert(escaped(s)[i] == head[i]);
            } else {
                assert(escaped(s)[i] == escape_char(s.last())[i - head.len()]);
            }
        }
    }
}

/// The escapes of two texts one after the other are the escape of both together.
pub proof fn law_escaping_goes_piece_by_piece(a: Seq<char>, b: Seq<char>)
    ensures
        escaped(a + b) == escaped(a) + escaped(b),
    decreases b.len(),
{
    if b.len() == 0 {
        assert(a + b =~= a);
        assert(escaped(a) + escaped(b) =~= escaped(a));
    } else {
        law_escaping_goes_piece_by_piece(a, b.drop_last());
        assert((a + b).drop_last() =~= a + b.drop_last());
        assert(escaped(a) + escaped(b.drop_last()) + escape_char(b.last()) =~= escaped(a) + (
        escaped(b.drop_last()) + escape_char(b.last())));
    }
}

/// Whether a character may be part of Markdown, or has a meaning in HTML.
pub open spec fn is_mark(c: char) -> bool {
    c == '*' || c == '_' || c == '`' || c == '[' || c == '~' || c == '#' || c == '&' || is_markup(c)
}

/// Whether a text holds nothing that may be part of Markdown or has a meaning in HTML.
pub open spec fn is_plain(s: Seq<char>) -> bool {
    forall|i: int| 0 <= i < s.len() ==> !is_mark(#[trigger] s[i])
}

proof fn lemma_plain_inline(line: Seq<char>, i: int)
    requires
        is_plain(line),
        0 <= i <= line.len(),
    ensures
        inline_html(line, i) == line.skip(i),
    decreases line.len() - i,
{
    if i < line.len() {
        lemma_plain_inline(line, i + 1);
        assert(!is_mark(line[i]));
        assert(span_at(line, i) is None);
        assert(seq![line[i]] + line.skip(i + 1) =~= line.skip(i));
    } else {
        assert(line.skip(i) =~= Seq::empty());
    }
}

proof fn lemma_plain_line(line: Seq<char>)
    requires
        is_plain(line),
    ensures
        line_html(line) == line,
        !is_fence(line),
        !text::starts_with(text::trim(line), "```"@),
{
    reveal_strlit("```");
    lemma_plain_inline(line, 0);
    assert(line.skip(0) =~= line);
    assert(line.len() > 0 ==> !is_mark(line[0]));
    let p = text::lemma_trim_start_at(line);
    if is_fence(line) {
        assert(text::trim_start(line).subrange(0, 3)[0] == line[p]);
    }
    let (from, to) = text::lemma_trim_at(line);
    if text::starts_with(text::trim(line), "```"@) {
        assert(text::trim(line).subrange(0, 3)[0] == line[from]);
    }
}

proof fn lemma_plain_lines(l: Seq<Seq<char>>)
    requires
        forall|i: int| 0 <= i < l.len() ==> is_plain(#[trigger] l[i]),
    ensures
        lines_html(l, false) == l,
    decreases l.len(),
{
    if l.len() > 0 {
        lemma_plain_line(l[0]);
        lemma_plain_lines(l.skip(1));
        assert(seq![l[0]] + l.skip(1) =~= l);
    }
}

proof fn lemma_plain_pieces(s: Seq<char>)
    requires
        is_plain(s),
    ensures
        forall|i: int|
            0 <= i < text::split_char(s, '\n').len() ==> is_plain(
                #[trigger] text::split_char(s, '\n')[i],
            ),
    decreases s.len(),
{
    text::lemma_find_char_bounds(s, '\n', 0);
    if let Some(k) = text::find_char(s, '\n', 0) {
        lemma_plain_pieces(s.skip(k + 1));
        let rest = text::split_char(s.skip(k + 1), '\n');
        assert forall|i: int| 0 <= i < text::split_char(s, '\n').len() implies is_plain(
            #[trigger] text::split_char(s, '\n')[i],
        ) by {
            if i > 0 {
                assert(text::split_char(s, '\n')[i] == rest[i - 1]);
            }
        }
    }
}

proof fn lemma_plain_blocks(s: Seq<char>, out: Seq<char>)
    requires
        is_plain(s),
    ensures
        blocks_html(text::split_char(s, '\n'), false, Seq::empty(), out) == out + s + seq!['\n'],
    decreases s.len(),
{
    let l = text::split_char(s, '\n');
    text::lemma_find_char_bounds(s, '\n', 0);
    match text::find_char(s, '\n', 0) {
        Some(k) => {
            let next = out + s.take(k) + seq!['\n'];
            assert(l[0] == s.take(k));
            lemma_plain_line(s.take(k));
            lemma_plain_blocks(s.skip(k + 1), next);
            assert(l.skip(1) =~= text::split_char(s.skip(k + 1), '\n'));
            assert(next + s.skip(k + 1) + seq!['\n'] =~= out + s + seq!['\n']);
        },
        None => {
            lemma_plain_line(s);
            assert(blocks_html(l.skip(1), false, Seq::empty(), out + s + seq!['\n']) == out + s
                + seq!['\n']);
        },
    }
}

/// A text that holds nothing of Markdown or HTML stays as it is, but for the line feeds at
/// its end.
pub proof fn law_plain_text_is_kept(s: Seq<char>)
    requires
        is_plain(s),
    ensures
        telegram_html(s) == text::trim_end_char(s, '\n'),
{
    reveal_strlit("\n");
    assert("\n"@ =~= seq!['\n']);
    let l = text::split_char(s, '\n');
    lemma_plain_pieces(s);
    lemma_plain_lines(l);
    text::lemma_join_split(s, '\n');
    lemma_plain_blocks(s, Seq::empty());
    let all = Seq::<char>::empty() + s + seq!['\n'];
    assert(all.drop_last() =~= s);
}

/// Whatever stands between the marks of a span is escaped: the HTML of a span is its tags
/// round escaped text, and the address of a link is one of the web.
pub proof fn law_spans_hold_escaped_text(line: Seq<char>, i: int)
    requires
        0 <= i < line.len(),
        span_at(line, i) is Some,
    ensures
        exists|open: Seq<char>, inner: Seq<char>, close: Seq<char>|
            #[trigger] tagged(open, inner, close) == span_at(line, i)->0.html && (open == "<b>"@
                && close == "</b>"@ || open == "<i>"@ && close == "</i>"@ || open == "<s>"@ && close
                == "</s>"@ || open == "<code>"@ && close == "</code>"@ || close == "</a>"@ && exists|
                url: Seq<char>|
                is_web_address(url) && open == "<a href=\""@ + #[trigger] escaped(url) + "\">"@),
{
    if link_at(line, i) is Some && span_at(line, i) == link_at(line, i) {
        let b = text::find_char(line, ']', i + 1)->0;
        let p = text::find_char(line, ')', b + 2)->0;
        let url = line.subrange(b + 2, p);
        assert(tagged("<a href=\""@ + escaped(url) + "\">"@, line.subrange(i + 1, b), "</a>"@)
            == span_at(line, i)->0.html);
    }
}

// The tags of a whole text.

/// Whether a text is a tag of the converter, or the beginning of its link.
pub open spec fn is_tag(t: Seq<char>) -> bool {
    ||| t == "<b>"@
    ||| t == "</b>"@
    ||| t == "<i>"@
    ||| t == "</i>"@
    ||| t == "<s>"@
    ||| t == "</s>"@
    ||| t == "<code>"@
    ||| t == "</code>"@
    ||| t == "<a href=\""@ + "http://"@
    ||| t == "<a href=\""@ + "https://"@
    ||| t == "</a>"@
}

/// Whether one of the converter's tags stands at a position.
pub open spec fn opens_tag(html: Seq<char>, i: int) -> bool {
    exists|t: Seq<char>| is_tag(t) && #[trigger] text::matches_at(html, t, i)
}

/// Whether every `<` opens one of the converter's tags, and every link leads to the web.
pub open spec fn has_known_tags(html: Seq<char>) -> bool {
    forall|i: int| 0 <= i < html.len() && #[trigger] html[i] == '<' ==> opens_tag(html, i)
}

proof fn lemma_known_tags_join(a: Seq<char>, b: Seq<char>)
    requires
        has_known_tags(a),
        has_known_tags(b),
    ensures
        has_known_tags(a + b),
{
    let s = a + b;
    assert forall|i: int| 0 <= i < s.len() && #[trigger] s[i] == '<' implies opens_tag(s, i) by {
        if i < a.len() {
            assert(a[i] == '<');
            let t = choose|t: Seq<char>| is_tag(t) && #[trigger] text::matches_at(a, t, i);
            assert(s.subrange(i, i + t.len()) =~= a.subrange(i, i + t.len()));
            assert(text::matches_at(s, t, i));
        } else {
            let k = i - a.len();
            assert(b[k] == '<');
            let t = choose|t: Seq<char>| is_tag(t) && #[trigger] text::matches_at(b, t, k);
            assert(s.subrange(i, i + t.len()) =~= b.subrange(k, k + t.len()));
            assert(text::matches_at(s, t, i));
        }
    }
}

proof fn lemma_lacks_join(a: Seq<char>, b: Seq<char>, c: char)
    requires
        text::lacks(a, c),
        text::lacks(b, c),
    ensures
        text::lacks(a + b, c),
{
    assert forall|i: int| 0 <= i < (a + b).len() implies #[trigger] (a + b)[i] != c by {
        if i < a.len() {
            assert((a + b)[i] == a[i]);
        } else {
            assert((a + b)[i] == b[i - a.len()]);
        }
    }
}

/// The characters that no tag holds.
spec fn is_untagged(c: char) -> bool {
    c == '\n' || c == '`'
}

/// Whether a piece of HTML starts with a tag, has known tags only and holds no `c`.
spec fn is_marked(html: Seq<char>, c: char) -> bool {
    &&& has_known_tags(html)
    &&& text::lacks(html, c)
    &&& html.len() > 0
    &&& html[0] == '<'
}

proof fn lemma_tags(t: Seq<char>)
    requires
        is_tag(t),
    ensures
        t.len() > 0,
        t[0] == '<',
        has_known_tags(t),
        text::lacks(t, '\n'),
        text::lacks(t, '`'),
{
    reveal_strlit("<b>");
    reveal_strlit("</b>");
    reveal_strlit("<i>");
    reveal_strlit("</i>");
    reveal_strlit("<s>");
    reveal_strlit("</s>");
    reveal_strlit("<code>");
    reveal_strlit("</code>");
    reveal_strlit("<a href=\"");
    reveal_strlit("http://");
    reveal_strlit("https://");
    reveal_strlit("</a>");
    assert(text::matches_at(t, t, 0)) by {
        assert(t.subrange(0, t.len() as int) =~= t);
    }
    assert(opens_tag(t, 0));
    assert forall|i: int| 0 < i < t.len() implies #[trigger] t[i] != '<' by {}
}

proof fn lemma_escaped_lacks(s: Seq<char>, c: char)
    requires
        is_untagged(c),
        text::lacks(s, c),
    ensures
        text::lacks(escaped(s), c),
    decreases s.len(),
{
    if s.len() > 0 {
        reveal_strlit("&amp;");
        reveal_strlit("&lt;");
        reveal_strlit("&gt;");
        reveal_strlit("&quot;");
        reveal_strlit("&#39;");
        assert forall|i: int| 0 <= i < s.drop_last().len() implies #[trigger] s.drop_last()[i]
            != c by {
            assert(s.drop_last()[i] == s[i]);
        }
        lemma_escaped_lacks(s.drop_last(), c);
        assert(s[s.len() - 1] != c);
        lemma_lacks_join(escaped(s.drop_last()), escape_char(s.last()), c);
    }
}

proof fn lemma_escaped_has_known_tags(s: Seq<char>)
    ensures
        has_known_tags(escaped(s)),
{
    law_escaped_text_has_no_markup(s);
    assert forall|i: int| 0 <= i < escaped(s).len() implies #[trigger] escaped(s)[i] != '<' by {
        assert(!is_markup(escaped(s)[i]));
    }
}

proof fn lemma_tagged(open: Seq<char>, inner: Seq<char>, close: Seq<char>)
    requires
        is_tag(open),
        is_tag(close),
    ensures
        has_known_tags(tagged(open, inner, close)),
        tagged(open, inner, close).len() > 0,
        tagged(open, inner, close)[0] == '<',
        forall|c: char|
            is_untagged(c) && #[trigger] text::lacks(inner, c) ==> text::lacks(
                tagged(open, inner, close),
                c,
            ),
{
    lemma_tags(open);
    lemma_tags(close);
    lemma_escaped_has_known_tags(inner);
    lemma_known_tags_join(open, escaped(inner));
    lemma_known_tags_join(open + escaped(inner), close);
    assert forall|c: char| is_untagged(c) && #[trigger] text::lacks(inner, c) implies text::lacks(
        tagged(open, inner, close),
        c,
    ) by {
        lemma_escaped_lacks(inner, c);
        lemma_lacks_join(open, escaped(inner), c);
        lemma_lacks_join(open + escaped(inner), close, c);
    }
}

/// A text without special characters is its own escape.
proof fn lemma_escaped_plain(s: Seq<char>)
    requires
        forall|i: int| 0 <= i < s.len() ==> escape_char(#[trigger] s[i]) == seq![s[i]],
    ensures
        escaped(s) == s,
    decreases s.len(),
{
    if s.len() > 0 {
        assert forall|i: int| 0 <= i < s.drop_last().len() implies escape_char(
            #[trigger] s.drop_last()[i],
        ) == seq![s.drop_last()[i]] by {
            assert(s.drop_last()[i] == s[i]);
        }
        lemma_escaped_plain(s.drop_last());
        assert(escape_char(s[s.len() - 1]) == seq![s.last()]);
        assert(s.drop_last() + seq![s.last()] =~= s);
    } else {
        assert(escaped(s) =~= s);
    }
}

proof fn lemma_address_begins(url: Seq<char>, scheme: Seq<char>)
    requires
        scheme == "http://"@ || scheme == "https://"@,
        text::starts_with(url, scheme),
    ensures
        has_known_tags("<a href=\""@ + escaped(url)),
{
    reveal_strlit("http://");
    reveal_strlit("https://");
    reveal_strlit("<a href=\"");
    let n = scheme.len() as int;
    assert forall|i: int| 0 <= i < scheme.len() implies escape_char(#[trigger] scheme[i])
        == seq![scheme[i]] by {}
    lemma_escaped_plain(scheme);
    assert(url =~= scheme + url.skip(n));
    law_escaping_goes_piece_by_piece(scheme, url.skip(n));
    lemma_escaped_has_known_tags(url.skip(n));
    let head = "<a href=\""@ + scheme;
    assert(is_tag(head));
    lemma_tags(head);
    lemma_known_tags_join(head, escaped(url.skip(n)));
    assert("<a href=\""@ + escaped(url) =~= head + escaped(url.skip(n)));
}

proof fn lemma_link(line: Seq<char>, i: int, c: char)
    requires
        0 <= i < line.len(),
        link_at(line, i) is Some,
        is_untagged(c),
        forall|k: int| i <= k < line.len() ==> #[trigger] line[k] != c,
    ensures
        is_marked(link_at(line, i)->0.html, c),
{
    text::lemma_find_char_bounds(line, ']', i + 1);
    let b = text::find_char(line, ']', i + 1)->0;
    text::lemma_find_char_bounds(line, ')', b + 2);
    let p = text::find_char(line, ')', b + 2)->0;
    let url = line.subrange(b + 2, p);
    let inner = line.subrange(i + 1, b);
    reveal_strlit("<a href=\"");
    reveal_strlit("\">");
    if text::starts_with(url, "http://"@) {
        lemma_address_begins(url, "http://"@);
    } else {
        lemma_address_begins(url, "https://"@);
    }
    lemma_tags("</a>"@);
    lemma_escaped_has_known_tags(inner);
    let one = "<a href=\""@ + escaped(url);
    let two = one + "\">"@;
    let three = two + escaped(inner);
    lemma_known_tags_join(one, "\">"@);
    lemma_known_tags_join(two, escaped(inner));
    lemma_known_tags_join(three, "</a>"@);
    assert(text::lacks(url, c));
    assert(text::lacks(inner, c));
    lemma_escaped_lacks(url, c);
    lemma_escaped_lacks(inner, c);
    lemma_lacks_join("<a href=\""@, escaped(url), c);
    lemma_lacks_join(one, "\">"@, c);
    lemma_lacks_join(two, escaped(inner), c);
    lemma_lacks_join(three, "</a>"@, c);
}

proof fn lemma_doubled(line: Seq<char>, i: int, mark: char, open: Seq<char>, close: Seq<char>, c: char)
    requires
        0 <= i < line.len(),
        doubled_at(line, i, mark, open, close) is Some,
        is_tag(open),
        is_tag(close),
        is_untagged(c),
        forall|k: int| i <= k < line.len() ==> #[trigger] line[k] != c,
    ensures
        is_marked(doubled_at(line, i, mark, open, close)->0.html, c),
{
    text::lemma_find_from_bounds(line, seq![mark, mark], i + 2);
    let e = text::find_from(line, seq![mark, mark], i + 2)->0;
    let inner = line.subrange(i + 2, e);
    assert(text::lacks(inner, c));
    lemma_tagged(open, inner, close);
}

proof fn lemma_single(
    line: Seq<char>,
    i: int,
    mark: char,
    allow_empty: bool,
    open: Seq<char>,
    close: Seq<char>,
    c: char,
)
    requires
        0 <= i < line.len(),
        single_at(line, i, mark, allow_empty, open, close) is Some,
        is_tag(open),
        is_tag(close),
        is_untagged(c),
        forall|k: int| i <= k < line.len() ==> #[trigger] line[k] != c,
    ensures
        is_marked(single_at(line, i, mark, allow_empty, open, close)->0.html, c),
{
    text::lemma_find_char_bounds(line, mark, i + 1);
    let e = text::find_char(line, mark, i + 1)->0;
    let inner = line.subrange(i + 1, e);
    assert(text::lacks(inner, c));
    lemma_tagged(open, inner, close);
}

proof fn lemma_span(line: Seq<char>, i: int, c: char)
    requires
        0 <= i < line.len(),
        span_at(line, i) is Some,
        is_untagged(c),
        forall|k: int| i <= k < line.len() ==> #[trigger] line[k] != c,
    ensures
        is_marked(span_at(line, i)->0.html, c),
{
    if doubled_at(line, i, '*', "<b>"@, "</b>"@) is Some {
        lemma_doubled(line, i, '*', "<b>"@, "</b>"@, c);
    } else if doubled_at(line, i, '_', "<b>"@, "</b>"@) is Some {
        lemma_doubled(line, i, '_', "<b>"@, "</b>"@, c);
    } else if single_at(line, i, '*', false, "<i>"@, "</i>"@) is Some {
        lemma_single(line, i, '*', false, "<i>"@, "</i>"@, c);
    } else if single_at(line, i, '`', true, "<code>"@, "</code>"@) is Some {
        lemma_single(line, i, '`', true, "<code>"@, "</code>"@, c);
    } else if link_at(line, i) is Some {
        lemma_link(line, i, c);
    } else {
        lemma_doubled(line, i, '~', "<s>"@, "</s>"@, c);
    }
}

proof fn lemma_inline(line: Seq<char>, i: int, c: char)
    requires
        0 <= i <= line.len(),
        is_untagged(c),
        forall|k: int| i <= k < line.len() ==> #[trigger] line[k] != c,
    ensures
        has_known_tags(inline_html(line, i)),
        text::lacks(inline_html(line, i), c),
    decreases line.len() - i,
{
    if i < line.len() {
        lemma_span_advances(line, i);
        match span_at(line, i) {
            Some(span) => {
                lemma_span(line, i, c);
                lemma_inline(line, span.next, c);
                lemma_known_tags_join(span.html, inline_html(line, span.next));
                lemma_lacks_join(span.html, inline_html(line, span.next), c);
            },
            None => {
                let one = seq![line[i]];
                assert(escaped(one) =~= escape_char(line[i])) by {
                    assert(one.drop_last() =~= Seq::empty());
                    assert(escaped(Seq::empty()) =~= Seq::empty());
                }
                lemma_escaped_has_known_tags(one);
                lemma_escaped_lacks(one, c);
                lemma_inline(line, i + 1, c);
                lemma_known_tags_join(escape_char(line[i]), inline_html(line, i + 1));
                lemma_lacks_join(escape_char(line[i]), inline_html(line, i + 1), c);
            },
        }
    }
}

proof fn lemma_heading(line: Seq<char>)
    requires
        text::lacks(line, '\n'),
    ensures
        is_marked(tagged("<b>"@, text::trim(text::trim_start_char(line, '#')), "</b>"@), '\n'),
{
    let p = lemma_trim_start_char_at(line, '#');
    let stripped = text::trim_start_char(line, '#');
    let (from, to) = text::lemma_trim_at(stripped);
    let title = text::trim(stripped);
    assert forall|i: int| 0 <= i < title.len() implies #[trigger] title[i] != '\n' by {
        assert(title[i] == line[p + from + i]);
    }
    assert(text::lacks(title, '\n'));
    lemma_tagged("<b>"@, title, "</b>"@);
}

proof fn lemma_trim_start_char_at(s: Seq<char>, c: char) -> (p: int)
    ensures
        0 <= p <= s.len(),
        text::trim_start_char(s, c) == s.skip(p),
    decreases s.len(),
{
    if s.len() > 0 && s[0] == c {
        let p = lemma_trim_start_char_at(s.skip(1), c);
        assert(s.skip(1).skip(p) =~= s.skip(p + 1));
        p + 1
    } else {
        assert(s.skip(0) =~= s);
        0
    }
}

/// The white space before a line stays before its HTML.
proof fn lemma_inline_after_blanks(line: Seq<char>, i: int, p: int)
    requires
        0 <= i <= p <= line.len(),
        text::is_blank(line.take(p)),
    ensures
        inline_html(line, i) == line.subrange(i, p) + inline_html(line, p),
    decreases p - i,
{
    if i < p {
        assert(text::is_whitespace(line.take(p)[i]));
        assert(span_at(line, i) is None);
        lemma_inline_after_blanks(line, i + 1, p);
        assert(seq![line[i]] + (line.subrange(i + 1, p) + inline_html(line, p))
            =~= line.subrange(i, p) + inline_html(line, p));
    } else {
        assert(line.subrange(i, p) + inline_html(line, p) =~= inline_html(line, p));
    }
}

/// A line that is no fence does not become one.
proof fn lemma_no_fence_comes_up(line: Seq<char>)
    requires
        !is_fence(line),
        text::lacks(line, '\n'),
    ensures
        !text::starts_with(text::trim(line_html(line)), "```"@),
{
    reveal_strlit("```");
    let html = line_html(line);
    let stripped = text::trim_start_char(line, '#');
    let (f, t) = text::lemma_trim_at(html);
    if text::starts_with(text::trim(html), "```"@) {
        let start = text::trim(html).subrange(0, 3);
        assert(start[0] == html[f] && start[1] == html[f + 1]);
        assert(html[f] == '`' && html[f + 1] == '`');
        if stripped.len() < line.len() && stripped.len() > 0 && stripped[0] == ' ' {
            lemma_heading(line);
            assert(f > 0 ==> text::is_whitespace(html.take(f)[0]));
        } else {
            let p = text::lemma_trim_start_at(line);
            text::lemma_trim_start_first(line);
            lemma_inline_after_blanks(line, 0, p);
            let rest = inline_html(line, p);
            assert(html =~= line.take(p) + rest);
            if f < p {
                assert(html[f] == line.take(p)[f]);
                assert(text::is_whitespace(html[f]));
            }
            assert(p < line.len());
            assert(line[p] == text::trim_start(line)[0]);
            assert(!text::is_whitespace(line[p]));
            if p > 0 {
                assert(text::is_whitespace(line.take(p)[p - 1]));
            }
            lemma_first_of_inline(line, p);
            assert(html[p] == rest[0]);
            if f > p {
                assert(html.take(f)[p] == html[p]);
            }
            assert(f == p);
            assert(rest[1] == html[p + 1]);
        }
    }
}

/// The HTML from a position on starts with a tag, an entity, or the character there, and
/// two backticks do not come first unless one stands before them.
proof fn lemma_first_of_inline(line: Seq<char>, p: int)
    requires
        0 <= p < line.len(),
        p == 0 || line[p - 1] != '`',
    ensures
        ({
            let html = inline_html(line, p);
            &&& html.len() > 0
            &&& html[0] == '<' || html[0] == '&' || html[0] == line[p]
            &&& html[0] == '`' && html.len() > 1 ==> html[1] != '`'
        }),
{
    reveal_strlit("&amp;");
    reveal_strlit("&lt;");
    reveal_strlit("&gt;");
    reveal_strlit("&quot;");
    reveal_strlit("&#39;");
    match span_at(line, p) {
        Some(span) => {
            lemma_span_first(line, p);
            assert(inline_html(line, p)[0] == span.html[0]);
        },
        None => {
            let html = inline_html(line, p);
            assert(html[0] == escape_char(line[p])[0]);
            if line[p] == '`' {
                assert(single_at(line, p, '`', true, "<code>"@, "</code>"@) is None);
                text::lemma_find_char_bounds(line, '`', p + 1);
                lemma_inline(line, p + 1, '`');
                if html.len() > 1 {
                    assert(html[1] == inline_html(line, p + 1)[0]);
                }
            }
        },
    }
}

proof fn lemma_span_first(line: Seq<char>, i: int)
    requires
        0 <= i < line.len(),
        span_at(line, i) is Some,
    ensures
        span_at(line, i)->0.html.len() > 0,
        span_at(line, i)->0.html[0] == '<',
{
    reveal_strlit("<b>");
    reveal_strlit("<i>");
    reveal_strlit("<s>");
    reveal_strlit("<code>");
    reveal_strlit("<a href=\"");
}

proof fn lemma_lines_have_known_tags(l: Seq<Seq<char>>)
    requires
        forall|i: int| 0 <= i < l.len() ==> !is_fence(#[trigger] l[i]) && text::lacks(l[i], '\n'),
    ensures
        lines_html(l, false).len() == l.len(),
        forall|i: int|
            0 <= i < l.len() ==> is_tame_line(#[trigger] lines_html(l, false)[i]),
    decreases l.len(),
{
    if l.len() > 0 {
        let rest = l.skip(1);
        assert forall|i: int| 0 <= i < rest.len() implies !is_fence(#[trigger] rest[i])
            && text::lacks(rest[i], '\n') by {
            assert(rest[i] == l[i + 1]);
        }
        lemma_lines_have_known_tags(rest);
        assert(!is_fence(l[0]) && text::lacks(l[0], '\n'));
        lemma_heading(l[0]);
        lemma_inline(l[0], 0, '\n');
        lemma_no_fence_comes_up(l[0]);
        let done = lines_html(l, false);
        assert forall|i: int| 0 <= i < l.len() implies is_tame_line(#[trigger] done[i]) by {
            if i > 0 {
                assert(done[i] == lines_html(rest, false)[i - 1]);
            } else {
                assert(done[0] == line_html(l[0]));
            }
        }
    }
}

/// Whether a line of HTML has known tags only, and is one line and no fence.
spec fn is_tame_line(html: Seq<char>) -> bool {
    &&& has_known_tags(html)
    &&& text::lacks(html, '\n')
    &&& !text::starts_with(text::trim(html), "```"@)
}

proof fn lemma_blocks_have_known_tags(l: Seq<Seq<char>>, out: Seq<char>)
    requires
        forall|i: int| 0 <= i < l.len() ==> is_tame_line(#[trigger] l[i]),
        has_known_tags(out),
    ensures
        has_known_tags(blocks_html(l, false, Seq::empty(), out)),
    decreases l.len(),
{
    if l.len() > 0 {
        assert(is_tame_line(l[0]));
        assert forall|i: int| 0 <= i < l.skip(1).len() implies is_tame_line(
            #[trigger] l.skip(1)[i],
        ) by {
            assert(l.skip(1)[i] == l[i + 1]);
        }
        lemma_known_tags_join(out, l[0]);
        assert(has_known_tags(seq!['\n']));
        lemma_known_tags_join(out + l[0], seq!['\n']);
        lemma_blocks_have_known_tags(l.skip(1), out + l[0] + seq!['\n']);
    }
}

proof fn lemma_trimmed_has_known_tags(s: Seq<char>)
    requires
        has_known_tags(s),
    ensures
        has_known_tags(text::trim_end_char(s, '\n')),
    decreases s.len(),
{
    if s.len() > 0 && s.last() == '\n' {
        let rest = s.drop_last();
        assert forall|i: int| 0 <= i < rest.len() && #[trigger] rest[i] == '<' implies opens_tag(
            rest,
            i,
        ) by {
            assert(s[i] == '<');
            let t = choose|t: Seq<char>| is_tag(t) && #[trigger] text::matches_at(s, t, i);
            lemma_tags(t);
            if i + t.len() == s.len() {
                assert(t[t.len() - 1] == s.subrange(i, i + t.len())[t.len() - 1]);
            }
            assert(rest.subrange(i, i + t.len()) =~= s.subrange(i, i + t.len()));
            assert(text::matches_at(rest, t, i));
        }
        lemma_trimmed_has_known_tags(rest);
    }
}

/// In the HTML of a text without fences every `<` opens one of the converter's tags, and
/// the address of every link begins with `http://` or `https://`.
pub proof fn law_only_known_tags_come_out(s: Seq<char>)
    requires
        forall|i: int|
            0 <= i < text::split_char(s, '\n').len() ==> !is_fence(
                #[trigger] text::split_char(s, '\n')[i],
            ),
    ensures
        has_known_tags(telegram_html(s)),
{
    reveal_strlit("\n");
    assert("\n"@ =~= seq!['\n']);
    let l = text::split_char(s, '\n');
    text::lemma_pieces_lack(s, '\n');
    text::lemma_join_split(s, '\n');
    assert forall|i: int| 0 <= i < l.len() implies !is_fence(#[trigger] l[i]) && text::lacks(
        l[i],
        '\n',
    ) by {}
    lemma_lines_have_known_tags(l);
    let done = lines_html(l, false);
    assert forall|i: int| 0 <= i < done.len() implies text::lacks(#[trigger] done[i], '\n') by {
        assert(is_tame_line(done[i]));
    }
    text::lemma_split_join(done, '\n');
    lemma_blocks_have_known_tags(done, Seq::empty());
    lemma_trimmed_has_known_tags(blocks_html(done, false, Seq::empty(), Seq::empty()));
}

/// A text without fences is rendered line by line, each line in its place, but for the line
/// feeds at its end.
pub proof fn law_lines_are_rendered_in_place(s: Seq<char>)
    requires
        forall|i: int|
            0 <= i < text::split_char(s, '\n').len() ==> !is_fence(
                #[trigger] text::split_char(s, '\n')[i],
            ),
    ensures
        ({
            let l = text::split_char(s, '\n');
            let done = Seq::new(l.len(), |i: int| line_html(l[i]));
            telegram_html(s) == text::trim_end_char(text::join(done, seq!['\n']), '\n')
        }),
{
    reveal_strlit("\n");
    assert("\n"@ =~= seq!['\n']);
    let l = text::split_char(s, '\n');
    text::lemma_pieces_lack(s, '\n');
    text::lemma_join_split(s, '\n');
    assert forall|i: int| 0 <= i < l.len() implies !is_fence(#[trigger] l[i]) && text::lacks(
        l[i],
        '\n',
    ) by {}
    lemma_lines_have_known_tags(l);
    lemma_lines_are_line_by_line(l);
    let done = Seq::new(l.len(), |i: int| line_html(l[i]));
    assert forall|i: int| 0 <= i < done.len() implies is_tame_line(#[trigger] done[i])
        && text::lacks(done[i], '\n') by {
        assert(done[i] == lines_html(l, false)[i]);
    }
    text::lemma_split_join(done, '\n');
    lemma_tame_blocks(done, Seq::empty());
    let all = text::join(done, seq!['\n']);
    assert(Seq::<char>::empty() + all + seq!['\n'] =~= all.push('\n'));
    assert(all.push('\n').drop_last() =~= all);
}

proof fn lemma_lines_are_line_by_line(l: Seq<Seq<char>>)
    requires
        forall|i: int| 0 <= i < l.len() ==> !is_fence(#[trigger] l[i]),
    ensures
        lines_html(l, false) == Seq::new(l.len(), |i: int| line_html(l[i])),
    decreases l.len(),
{
    if l.len() > 0 {
        assert(!is_fence(l[0]));
        assert forall|i: int| 0 <= i < l.skip(1).len() implies !is_fence(#[trigger] l.skip(1)[i]) by {
            assert(l.skip(1)[i] == l[i + 1]);
        }
        lemma_lines_are_line_by_line(l.skip(1));
    }
    assert(lines_html(l, false) =~= Seq::new(l.len(), |i: int| line_html(l[i])));
}

proof fn lemma_tame_blocks(l: Seq<Seq<char>>, out: Seq<char>)
    requires
        l.len() > 0,
        forall|i: int| 0 <= i < l.len() ==> is_tame_line(#[trigger] l[i]),
    ensures
        blocks_html(l, false, Seq::empty(), out) == out + text::join(l, seq!['\n']) + seq!['\n'],
    decreases l.len(),
{
    assert(is_tame_line(l[0]));
    let rest = l.skip(1);
    let next = out + l[0] + seq!['\n'];
    if l.len() == 1 {
        assert(blocks_html(rest, false, Seq::empty(), next) == next);
    } else {
        assert forall|i: int| 0 <= i < rest.len() implies is_tame_line(#[trigger] rest[i]) by {
            assert(rest[i] == l[i + 1]);
        }
        lemma_tame_blocks(rest, next);
        text::lemma_join_first(l, seq!['\n']);
        assert(next + text::join(rest, seq!['\n']) + seq!['\n'] =~= out + (l[0] + seq!['\n']
            + text::join(rest, seq!['\n'])) + seq!['\n']);
    }
}

/// The lines of a code block, each with its line feed.
pub open spec fn code_text(code: Seq<Seq<char>>) -> Seq<char>
    decreases code.len(),
{
    if code.len() == 0 {
        Seq::empty()
    } else {
        code_text(code.drop_last()) + code.last() + seq!['\n']
    }
}

/// Lines between two fences are a code block, as they are.
pub proof fn law_fenced_lines_are_code(s: Seq<char>, open: Seq<char>, code: Seq<Seq<char>>, close: Seq<char>)
    requires
        text::split_char(s, '\n') == seq![open] + code + seq![close],
        is_fence(open),
        is_fence(close),
        forall|i: int|
            0 <= i < code.len() ==> !is_fence(#[trigger] code[i]) && !text::starts_with(
                text::trim(code[i]),
                "```"@,
            ),
    ensures
        telegram_html(s) == text::trim_end_char(
            "<pre><code>"@ + text::trim_end_char(code_text(code), '\n') + "</code></pre>\n"@,
            '\n',
        ),
{
    reveal_strlit("\n");
    assert("\n"@ =~= seq!['\n']);
    let l = text::split_char(s, '\n');
    text::lemma_pieces_lack(s, '\n');
    let done = seq![text::trim_start(open)] + code + seq![text::trim_start(close)];
    assert(l[0] == open && l[l.len() - 1] == close);
    lemma_lines_in_fence(code, close);
    assert(l.skip(1) =~= code + seq![close]);
    assert(lines_html(l, false) =~= done);
    let p = text::lemma_trim_start_at(open);
    let q = text::lemma_trim_start_at(close);
    assert forall|i: int| 0 <= i < done.len() implies text::lacks(#[trigger] done[i], '\n') by {
        assert(text::lacks(l[i], '\n'));
        if i == 0 {
            assert forall|k: int| 0 <= k < done[0].len() implies #[trigger] done[0][k] != '\n' by {
                assert(done[0][k] == open[p + k]);
            }
        } else if i == done.len() - 1 {
            assert forall|k: int| 0 <= k < done[i].len() implies #[trigger] done[i][k] != '\n' by {
                assert(done[i][k] == close[q + k]);
            }
        } else {
            assert(done[i] == l[i]);
        }
    }
    text::lemma_split_join(done, '\n');
    lemma_fence_is_seen(open);
    lemma_fence_is_seen(close);
    assert(done[0] == text::trim_start(open));
    assert(done.skip(1) =~= code + seq![text::trim_start(close)]);
    lemma_code_is_gathered(code, text::trim_start(close), Seq::empty());
    assert(Seq::<char>::empty() + code_text(code) =~= code_text(code));
    assert(Seq::<char>::empty() + "<pre><code>"@ =~= "<pre><code>"@);
}

/// Lines behind a fence that nothing closes are a code block, without the white space at its
/// end.
pub proof fn law_lines_behind_an_open_fence_are_code(
    s: Seq<char>,
    open: Seq<char>,
    code: Seq<Seq<char>>,
)
    requires
        text::split_char(s, '\n') == seq![open] + code,
        code.len() > 0,
        is_fence(open),
        forall|i: int|
            0 <= i < code.len() ==> !is_fence(#[trigger] code[i]) && !text::starts_with(
                text::trim(code[i]),
                "```"@,
            ),
    ensures
        telegram_html(s) == text::trim_end_char(
            "<pre><code>"@ + text::trim_end(code_text(code)) + "</code></pre>\n"@,
            '\n',
        ),
{
    reveal_strlit("\n");
    assert("\n"@ =~= seq!['\n']);
    let l = text::split_char(s, '\n');
    text::lemma_pieces_lack(s, '\n');
    let done = seq![text::trim_start(open)] + code;
    assert(l[0] == open);
    lemma_lines_stay_in_fence(code);
    assert(l.skip(1) =~= code);
    assert(lines_html(l, false) =~= done);
    let p = text::lemma_trim_start_at(open);
    assert forall|i: int| 0 <= i < done.len() implies text::lacks(#[trigger] done[i], '\n') by {
        assert(text::lacks(l[i], '\n'));
        if i == 0 {
            assert forall|k: int| 0 <= k < done[0].len() implies #[trigger] done[0][k] != '\n' by {
                assert(done[0][k] == open[p + k]);
            }
        } else {
            assert(done[i] == l[i]);
        }
    }
    text::lemma_split_join(done, '\n');
    lemma_fence_is_seen(open);
    assert(done[0] == text::trim_start(open));
    assert(done.skip(1) =~= code);
    lemma_open_code_is_gathered(code, Seq::empty());
    lemma_code_text_first(code);
    assert(code_text(code).len() > 0);
    assert(Seq::<char>::empty() + code_text(code) =~= code_text(code));
    assert(Seq::<char>::empty() + "<pre><code>"@ =~= "<pre><code>"@);
}

proof fn lemma_lines_stay_in_fence(code: Seq<Seq<char>>)
    requires
        forall|i: int| 0 <= i < code.len() ==> !is_fence(#[trigger] code[i]),
    ensures
        lines_html(code, true) == code,
    decreases code.len(),
{
    if code.len() > 0 {
        assert(!is_fence(code[0]));
        assert forall|i: int| 0 <= i < code.skip(1).len() implies !is_fence(
            #[trigger] code.skip(1)[i],
        ) by {
            assert(code.skip(1)[i] == code[i + 1]);
        }
        lemma_lines_stay_in_fence(code.skip(1));
    }
    assert(lines_html(code, true) =~= code);
}

proof fn lemma_open_code_is_gathered(code: Seq<Seq<char>>, before: Seq<char>)
    requires
        before.len() + code.len() > 0,
        forall|i: int|
            0 <= i < code.len() ==> !text::starts_with(text::trim(#[trigger] code[i]), "```"@),
    ensures
        blocks_html(code, true, before, Seq::empty()) == Seq::empty() + "<pre><code>"@
            + text::trim_end(before + code_text(code)) + "</code></pre>\n"@,
    decreases code.len(),
{
    if code.len() == 0 {
        assert(before + code_text(code) =~= before);
    } else {
        assert(!text::starts_with(text::trim(code[0]), "```"@));
        assert forall|i: int| 0 <= i < code.skip(1).len() implies !text::starts_with(
            text::trim(#[trigger] code.skip(1)[i]),
            "```"@,
        ) by {
            assert(code.skip(1)[i] == code[i + 1]);
        }
        let more = before + code[0] + seq!['\n'];
        assert(more.len() > 0);
        lemma_open_code_is_gathered(code.skip(1), more);
        lemma_code_text_first(code);
        assert(more + code_text(code.skip(1)) =~= before + code_text(code));
    }
}

proof fn lemma_lines_in_fence(code: Seq<Seq<char>>, close: Seq<char>)
    requires
        is_fence(close),
        forall|i: int| 0 <= i < code.len() ==> !is_fence(#[trigger] code[i]),
    ensures
        lines_html(code + seq![close], true) == code + seq![text::trim_start(close)],
    decreases code.len(),
{
    let l = code + seq![close];
    if code.len() == 0 {
        assert(l[0] == close);
        assert(l.skip(1).len() == 0);
        assert(lines_html(l.skip(1), false).len() == 0);
    } else {
        assert(l[0] == code[0]);
        assert(!is_fence(code[0]));
        assert(l.skip(1) =~= code.skip(1) + seq![close]);
        assert forall|i: int| 0 <= i < code.skip(1).len() implies !is_fence(
            #[trigger] code.skip(1)[i],
        ) by {
            assert(code.skip(1)[i] == code[i + 1]);
        }
        lemma_lines_in_fence(code.skip(1), close);
    }
    assert(lines_html(l, true) =~= code + seq![text::trim_start(close)]);
}

/// A fence is one without the white space round it.
proof fn lemma_fence_is_seen(line: Seq<char>)
    requires
        is_fence(line),
    ensures
        text::starts_with(text::trim(text::trim_start(line)), "```"@),
{
    reveal_strlit("```");
    let t = text::trim_start(line);
    text::lemma_trim_start_first(line);
    assert(text::trim_start(t) == t);
    let (f, e) = text::lemma_trim_at(t);
    assert(t.subrange(0, 3)[0] == t[0] && t.subrange(0, 3)[1] == t[1] && t.subrange(0, 3)[2]
        == t[2]);
    assert(t[2] == '`' && t[0] == '`');
    if f > 0 {
        assert(text::is_whitespace(t.take(f)[0]));
    }
    if e <= 2 {
        assert(text::is_whitespace(t.skip(e)[2 - e]));
    }
    assert(text::trim(t).subrange(0, 3) =~= t.subrange(0, 3));
}

proof fn lemma_code_is_gathered(code: Seq<Seq<char>>, close: Seq<char>, before: Seq<char>)
    requires
        text::starts_with(text::trim(close), "```"@),
        forall|i: int|
            0 <= i < code.len() ==> !text::starts_with(text::trim(#[trigger] code[i]), "```"@),
    ensures
        blocks_html(code + seq![close], true, before, Seq::empty()) == Seq::empty()
            + "<pre><code>"@ + text::trim_end_char(before + code_text(code), '\n')
            + "</code></pre>\n"@,
    decreases code.len(),
{
    let l = code + seq![close];
    if code.len() == 0 {
        assert(l[0] == close);
        assert(before + code_text(code) =~= before);
        let out = Seq::<char>::empty() + "<pre><code>"@ + text::trim_end_char(before, '\n')
            + "</code></pre>\n"@;
        assert(l.skip(1).len() == 0);
        assert(blocks_html(l.skip(1), false, Seq::empty(), out) == out);
    } else {
        assert(l[0] == code[0]);
        assert(!text::starts_with(text::trim(code[0]), "```"@));
        assert(l.skip(1) =~= code.skip(1) + seq![close]);
        assert forall|i: int| 0 <= i < code.skip(1).len() implies !text::starts_with(
            text::trim(#[trigger] code.skip(1)[i]),
            "```"@,
        ) by {
            assert(code.skip(1)[i] == code[i + 1]);
        }
        let more = before + code[0] + seq!['\n'];
        lemma_code_is_gathered(code.skip(1), close, more);
        lemma_code_text_first(code);
        assert(more + code_text(code.skip(1)) =~= before + code_text(code));
    }
}

proof fn lemma_code_text_first(code: Seq<Seq<char>>)
    requires
        code.len() > 0,
    ensures
        code_text(code) == code[0] + seq!['\n'] + code_text(code.skip(1)),
    decreases code.len(),
{
    if code.len() > 1 {
        lemma_code_text_first(code.drop_last());
        assert(code.drop_last().skip(1) =~= code.skip(1).drop_last());
        assert(code.skip(1).last() == code.last());
        assert(code_text(code.skip(1)) == code_text(code.skip(1).drop_last()) + code.last()
            + seq!['\n']);
    } else {
        assert(code_text(code.drop_last()).len() == 0);
        assert(code_text(code.skip(1)).len() == 0);
    }
    assert(code_text(code) =~= code[0] + seq!['\n'] + code_text(code.skip(1)));
}

} // verus!
