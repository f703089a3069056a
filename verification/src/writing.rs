use vstd::prelude::*;

use crate::dates::{is_iso_date, is_iso_date_text};
use crate::djot::{djot_html, render_djot};
use crate::layout::{layout_page, render_layout};
use crate::posts::PostSummary;
use crate::text::{
    chars_of, find_from, find_text, index_of_char, join_lines, lemma_find_from,
    lemma_find_from_skip, lemma_index_of_char_at, occurs_at, same_text, split_lines, text_lines,
    texts,
};

verus! {

/// What precedes a field's value in a writing's meta line: `field="`.
pub open spec fn meta_pattern(field: Seq<char>) -> Seq<char> {
    field + "=\""@
}

/// The text up to the first double quote, or all of it.
pub open spec fn before_quote(s: Seq<char>) -> Seq<char> {
    s.take(index_of_char(s, '"') as int)
}

/// The value of `field` in a meta line: what follows the first `field="`, up
/// to the next double quote.
pub open spec fn meta_value(line: Seq<char>, field: Seq<char>) -> Option<Seq<char>> {
    match find_from(line, meta_pattern(field), 0) {
        Some(k) => Some(before_quote(line.skip(k + meta_pattern(field).len()))),
        None => None,
    }
}

/// Reads `field="value"` from a writing's meta line.
pub fn writing_meta_value<'a>(meta_line: &'a str, field: &str) -> (r: Option<&'a str>)
    ensures
        r is Some <==> meta_value(meta_line@, field@) is Some,
        r matches Some(v) ==> meta_value(meta_line@, field@) == Some(v@),
{
    let mut pattern = String::from_str(field);
    pattern.append("=\"");
    match find_text(meta_line, pattern.as_str()) {
        None => None,
        Some(k) => {
            proof {
                lemma_find_from(meta_line@, pattern@, 0);
            }
            let v = chars_of(meta_line);
            let plen = pattern.as_str().unicode_len();
            assert(find_from(meta_line@, pattern@, 0) == Some(k as int));
            assert(occurs_at(meta_line@, pattern@, k as int));
            assert(plen == pattern@.len());
            assert(k + plen <= v.len());
            let start = k + plen;
            let mut j = start;
            while j < v.len() && v[j] != '"'
                invariant
                    v@ == meta_line@,
                    start <= j <= v.len(),
                    forall|t: int| start <= t < j ==> meta_line@[t] != '"',
                decreases v.len() - j,
            {
                j = j + 1;
            }
            proof {
                let rest = meta_line@.skip(start as int);
                assert forall|t: int| 0 <= t < j - start implies rest[t] != '"' by {
                    assert(rest[t] == meta_line@[start + t]);
                }
                lemma_index_of_char_at(rest, '"', j - start);
            }
            let value = meta_line.substring_char(start, j);
            assert(value@ =~= before_quote(meta_line@.skip(start as int)));
            Some(value)
        },
    }
}

/// A field's value is found wherever the field stands in the meta line: when
/// `field="value"` is the first occurrence of `field="`, its value is read,
/// whatever comes before or after it (for a field name and a value without
/// double quotes).
pub proof fn law_meta_value_found_anywhere(
    before: Seq<char>,
    field: Seq<char>,
    value: Seq<char>,
    after: Seq<char>,
)
    requires
        find_from(before, meta_pattern(field), 0) is None,
        !field.contains('"'),
        !value.contains('"'),
    ensures
        meta_value(before + meta_pattern(field) + value + seq!['"'] + after, field) == Some(value),
{
    reveal_strlit("=\"");
    let pat = meta_pattern(field);
    let s = before + pat + value + seq!['"'] + after;
    let l = before.len() as int;
    let n = pat.len() as int;
    assert(n == field.len() + 2);
    assert(pat[n - 1] == '"');
    assert(pat[n - 2] == '=');
    lemma_find_from(before, pat, 0);
    assert forall|j: int| 0 <= j < l implies !#[trigger] occurs_at(s, pat, j) by {
        if j + n <= l {
            assert(s.subrange(j, j + n) =~= before.subrange(j, j + n));
            assert(!occurs_at(before, pat, j));
        } else if occurs_at(s, pat, j) {
            let t = j + n - 1;
            let o = t - l;
            assert(s.subrange(j, j + n)[n - 1] == s[t]);
            assert(s[t] == pat[o]);
            if o < field.len() {
                assert(pat[o] == field[o]);
                assert(field.contains('"'));
            }
        }
    }
    assert(s.subrange(l, l + n) =~= pat);
    lemma_find_from_skip(s, pat, 0, l);
    let rest = s.skip(l + n);
    assert(rest =~= value + seq!['"'] + after);
    assert forall|t: int| 0 <= t < value.len() implies rest[t] != '"' by {
        assert(rest[t] == value[t]);
        if rest[t] == '"' {
            assert(value.contains('"'));
        }
    }
    lemma_index_of_char_at(rest, '"', value.len() as int);
    assert(before_quote(rest) =~= value);
}

/// The line begins a heading of the second level: `## `.
pub open spec fn starts_heading(line: Seq<char>) -> bool {
    line.len() >= 3 && line.subrange(0, 3) == "## "@
}

/// The text of the first second-level heading among the lines.
pub open spec fn heading_title(ls: Seq<Seq<char>>) -> Option<Seq<char>>
    decreases ls.len(),
{
    if ls.len() == 0 {
        None
    } else if starts_heading(ls[0]) {
        Some(ls[0].skip(3))
    } else {
        heading_title(ls.drop_first())
    }
}

fn find_heading(lines: &Vec<String>) -> (r: Option<String>)
    ensures
        r is Some <==> heading_title(texts(lines@)) is Some,
        r matches Some(t) ==> heading_title(texts(lines@)) == Some(t@),
{
    let mut i: usize = 0;
    assert(texts(lines@).skip(0) =~= texts(lines@));
    while i < lines.len()
        invariant
            i <= lines@.len(),
            heading_title(texts(lines@)) == heading_title(texts(lines@).skip(i as int)),
        decreases lines@.len() - i,
    {
        let line = lines[i].as_str();
        let n = line.unicode_len();
        assert(texts(lines@).skip(i as int)[0] == line@);
        if n >= 3 && same_text(line.substring_char(0, 3), "## ") {
            return Some(String::from_str(line.substring_char(3, n)));
        }
        assert(texts(lines@).skip(i as int).drop_first() =~= texts(lines@).skip(i + 1));
        i = i + 1;
    }
    None
}

fn join_lines_from(lines: &Vec<String>, from: usize) -> (r: String)
    requires
        from <= lines@.len(),
    ensures
        r@ == join_lines(texts(lines@).skip(from as int)),
{
    let mut out = String::new();
    let mut i = from;
    assert(texts(lines@).subrange(from as int, from as int) =~= Seq::<Seq<char>>::empty());
    while i < lines.len()
        invariant
            from <= i <= lines@.len(),
            out@ == join_lines(texts(lines@).subrange(from as int, i as int)),
        decreases lines@.len() - i,
    {
        let ghost before = texts(lines@).subrange(from as int, i as int);
        let ghost after = texts(lines@).subrange(from as int, i + 1);
        assert(after.drop_last() =~= before);
        assert(after.last() == lines@[i as int]@);
        if i > from {
            out.append("\n");
            proof {
                reveal_strlit("\n");
                assert("\n"@ =~= seq!['\n']);
            }
        }
        out.append(lines[i].as_str());
        i = i + 1;
    }
    assert(texts(lines@).subrange(from as int, lines@.len() as int) =~= texts(lines@).skip(
        from as int,
    ));
    out
}

/// Why a writing's source cannot be published.
#[derive(Clone, Copy, Debug, PartialEq, Eq, Structural)]
pub enum WritingError {
    MissingMetaLine,
    MissingSlug,
    MissingDatePublished,
    InvalidDatePublished,
    MissingTitle,
}

impl WritingError {
    /// The message that reports the error.
    pub fn message(&self) -> (r: &'static str)
        ensures
            r@ == writing_error_message(*self),
    {
        match self {
            WritingError::MissingMetaLine => "writing missing meta line",
            WritingError::MissingSlug => "writing missing slug identifier",
            WritingError::MissingDatePublished => "writing missing datePublished identifier",
            WritingError::InvalidDatePublished =>
                "writing datePublished must be a valid YYYY-MM-DD date",
            WritingError::MissingTitle => "writing missing title heading",
        }
    }
}

/// The message of each error.
pub open spec fn writing_error_message(e: WritingError) -> Seq<char> {
    match e {
        WritingError::MissingMetaLine => "writing missing meta line"@,
        WritingError::MissingSlug => "writing missing slug identifier"@,
        WritingError::MissingDatePublished => "writing missing datePublished identifier"@,
        WritingError::InvalidDatePublished =>
            "writing datePublished must be a valid YYYY-MM-DD date"@,
        WritingError::MissingTitle => "writing missing title heading"@,
    }
}

/// What a writing's source holds: its first line is the meta line, with
/// `slug` and `datePublished`; the rest is the Djot body, whose first `## `
/// heading is the title. Gives (slug, date, title, body).
pub open spec fn writing_fields(source: Seq<char>) -> Result<
    (Seq<char>, Seq<char>, Seq<char>, Seq<char>),
    WritingError,
> {
    let ls = text_lines(source);
    if ls.len() == 0 {
        Err(WritingError::MissingMetaLine)
    } else {
        let meta = ls[0];
        let body = join_lines(ls.skip(1));
        match meta_value(meta, "slug"@) {
            None => Err(WritingError::MissingSlug),
            Some(slug) => match meta_value(meta, "datePublished"@) {
                None => Err(WritingError::MissingDatePublished),
                Some(date) => if !is_iso_date_text(date) {
                    Err(WritingError::InvalidDatePublished)
                } else {
                    match heading_title(text_lines(body)) {
                        None => Err(WritingError::MissingTitle),
                        Some(title) => Ok((slug, date, title, body)),
                    }
                },
            },
        }
    }
}

/// Opens a writing's article.
pub const WRITING_OPEN: &'static str = "<article class=\"writings\">\n        ";

/// Closes a writing's article.
pub const WRITING_CLOSE: &'static str = "\n        </article>\n       ";

/// A writing's page around its rendered body.
pub open spec fn writing_page(title: Seq<char>, body_html: Seq<char>) -> Seq<char> {
    layout_page(title, WRITING_OPEN@ + body_html + WRITING_CLOSE@, None)
}

/// Where a writing's page is published.
pub open spec fn writing_path(slug: Seq<char>) -> Seq<char> {
    "public/writings/"@ + slug + ".html"@
}

/// The page of a writing, given the HTML of its body.
pub fn writing_page_html(title: &str, body_html: &str) -> (r: String)
    ensures
        r@ == writing_page(title@, body_html@),
{
    let mut body = String::from_str(WRITING_OPEN);
    body.append(body_html);
    body.append(WRITING_CLOSE);
    render_layout(title, body.as_str(), None)
}

/// The file that a writing's page is published to.
pub fn writing_html_path(slug: &str) -> (r: String)
    ensures
        r@ == writing_path(slug@),
{
    let mut out = String::from_str("public/writings/");
    out.append(slug);
    out.append(".html");
    out
}

/// A writing ready to publish.
pub struct WritingPage {
    pub summary: PostSummary,
    pub html_path: String,
    pub html: String,
}

/// Reads a writing's source and makes its page: the meta line gives the slug
/// and the publication date, which must be a valid date; the first `## `
/// heading of the body gives the title; the body is rendered from Djot.
pub fn build_writing(source: &str) -> (r: Result<WritingPage, WritingError>)
    ensures
        match writing_fields(source@) {
            Err(e) => r == Err::<WritingPage, WritingError>(e),
            Ok((slug, date, title, body)) => {
                &&& r is Ok
                &&& r->Ok_0.summary.slug@ == slug
                &&& r->Ok_0.summary.date_published@ == date
                &&& r->Ok_0.summary.title@ == title
                &&& r->Ok_0.html_path@ == writing_path(slug)
                &&& r->Ok_0.html@ == writing_page(title, djot_html(body))
            },
        },
{
    let lines = split_lines(source);
    if lines.len() == 0 {
        return Err(WritingError::MissingMetaLine);
    }
    let meta_line = lines[0].as_str();
    assert(texts(lines@)[0] == meta_line@);
    let body_src = join_lines_from(&lines, 1);
    let slug = match writing_meta_value(meta_line, "slug") {
        Some(s) => String::from_str(s),
        None => {
            return Err(WritingError::MissingSlug);
        },
    };
    let date_published = match writing_meta_value(meta_line, "datePublished") {
        Some(d) => String::from_str(d),
        None => {
            return Err(WritingError::MissingDatePublished);
        },
    };
    if !is_iso_date(date_published.as_str()) {
        return Err(WritingError::InvalidDatePublished);
    }
    let body_lines = split_lines(body_src.as_str());
    let title = match find_heading(&body_lines) {
        Some(t) => t,
        None => {
            return Err(WritingError::MissingTitle);
        },
    };
    let body_html = render_djot(body_src.as_str());
    let html = writing_page_html(title.as_str(), body_html.as_str());
    let html_path = writing_html_path(slug.as_str());
    Ok(WritingPage { summary: PostSummary { slug, title, date_published }, html_path, html })
}

/// The title is taken from the first line that begins with `## `, without
/// those three characters; later headings never change it.
pub proof fn law_title_is_first_heading(ls: Seq<Seq<char>>, i: int)
    requires
        0 <= i < ls.len(),
        ls[i].len() >= 3 && ls[i][0] == '#' && ls[i][1] == '#' && ls[i][2] == ' ',
        forall|j: int|
            0 <= j < i ==> !(#[trigger] ls[j].len() >= 3 && ls[j][0] == '#' && ls[j][1] == '#'
                && ls[j][2] == ' '),
    ensures
        heading_title(ls) == Some(ls[i].skip(3)),
    decreases i,
{
    reveal_strlit("## ");
    if i == 0 {
        assert(ls[0].subrange(0, 3) =~= "## "@);
    } else {
        assert(!(ls[0].len() >= 3 && ls[0][0] == '#' && ls[0][1] == '#' && ls[0][2] == ' '));
        if ls[0].len() >= 3 && ls[0].subrange(0, 3) == "## "@ {
            assert(ls[0].subrange(0, 3)[0] == ls[0][0]);
            assert(ls[0].subrange(0, 3)[1] == ls[0][1]);
            assert(ls[0].subrange(0, 3)[2] == ls[0][2]);
        }
        let rest = ls.drop_first();
        assert forall|j: int| 0 <= j < i - 1 implies !(#[trigger] rest[j].len() >= 3 && rest[j][0]
            == '#' && rest[j][1] == '#' && rest[j][2] == ' ') by {
            assert(rest[j] == ls[j + 1]);
        }
        law_title_is_first_heading(rest, i - 1);
    }
}

/// Without a line that begins with `## ` there is no title.
pub proof fn law_no_heading_no_title(ls: Seq<Seq<char>>)
    requires
        forall|j: int|
            0 <= j < ls.len() ==> !(#[trigger] ls[j].len() >= 3 && ls[j][0] == '#' && ls[j][1]
                == '#' && ls[j][2] == ' '),
    ensures
        heading_title(ls) is None,
    decreases ls.len(),
{
    reveal_strlit("## ");
    if ls.len() > 0 {
        assert(!(ls[0].len() >= 3 && ls[0][0] == '#' && ls[0][1] == '#' && ls[0][2] == ' '));
        if ls[0].len() >= 3 && ls[0].subrange(0, 3) == "## "@ {
            assert(ls[0].subrange(0, 3)[0] == ls[0][0]);
            assert(ls[0].subrange(0, 3)[1] == ls[0][1]);
            assert(ls[0].subrange(0, 3)[2] == ls[0][2]);
        }
        let rest = ls.drop_first();
        assert forall|j: int| 0 <= j < rest.len() implies !(#[trigger] rest[j].len() >= 3
            && rest[j][0] == '#' && rest[j][1] == '#' && rest[j][2] == ' ') by {
            assert(rest[j] == ls[j + 1]);
        }
        law_no_heading_no_title(rest);
    }
}

} // verus!
