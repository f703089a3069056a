use vstd::prelude::*;

verus! {

/// The address of the published site.
pub const SITE_URL: &'static str = "https://xizhang.page";

/// The site's name.
pub const SITE_NAME: &'static str = "Field Bobbin";

/// One sentence that says what the site holds.
pub const SITE_DESCRIPTION: &'static str =
    "Personal site by Xi Zhang with recipes, readings, writings, and an about me page.";

/// The page up to the title.
pub const LAYOUT_HEAD: &'static str = "<!doctype html>\n  <html lang=\"en-US\">\n  <head>\n    <meta charset=\"utf-8\">\n    <meta name=\"viewport\" content=\"width=device-width, initial-scale=1\">\n    <title>";

/// From the title to the structured data.
pub const LAYOUT_AFTER_TITLE: &'static str = "</title>\n    <link rel=\"stylesheet\" type=\"text/css\" href=\"/style.css\">\n    ";

/// From the structured data to the body: the header and the navigation.
pub const LAYOUT_BEFORE_BODY: &'static str = "\n  </head>\n  <body>\n    <header>\n      <h1>\n      <a class=\"site-title\" href=\"/index.html\" aria-label=\"Field Bobbin Home\">\n        <span class=\"field\">Field</span> <span class=\"accent\">Bobbin</span>\n      </a>\n      </h1>\n    </header>\n    <nav>\n      <ul>\n        <li><a href=\"/readings\">Readings</a></li>\n        <li><a href=\"/writings\">Writings</a></li>\n        <li><a href=\"/recipes\">Recipes</a></li>\n        <li><a href=\"/forms/\">Forms</a></li>\n        <li><a href=\"/about\">About</a></li>\n      </ul>\n    </nav>\n    <main>\n  ";

/// The page after the body.
pub const LAYOUT_TAIL: &'static str = "\n    </main>\n  </body>\n  </html>\n  ";

/// Opens the element that carries structured data.
pub const JSONLD_OPEN: &'static str = "<script type=\"application/ld+json\"> ";

/// Closes the element that carries structured data.
pub const JSONLD_CLOSE: &'static str = "</script>";

/// The structured-data element for `jsonld`, or nothing.
pub open spec fn jsonld_script(jsonld: Option<Seq<char>>) -> Seq<char> {
    match jsonld {
        Some(j) => JSONLD_OPEN@ + j + JSONLD_CLOSE@,
        None => Seq::empty(),
    }
}

/// The text of an optional string.
pub open spec fn opt_text(s: Option<&str>) -> Option<Seq<char>> {
    match s {
        Some(t) => Some(t@),
        None => None,
    }
}

/// A whole page of the site: `body` inside the shared header and navigation.
pub open spec fn layout_page(title: Seq<char>, body: Seq<char>, jsonld: Option<Seq<char>>) -> Seq<
    char,
> {
    LAYOUT_HEAD@ + title + LAYOUT_AFTER_TITLE@ + jsonld_script(jsonld) + LAYOUT_BEFORE_BODY@
        + body + LAYOUT_TAIL@
}

/// Wraps `body` in the site's page layout, with `jsonld` as structured data
/// when there is some.
pub fn render_layout(title: &str, body: &str, jsonld: Option<&str>) -> (r: String)
    ensures
        r@ == layout_page(title@, body@, opt_text(jsonld)),
{
    let mut out = String::from_str(LAYOUT_HEAD);
    out.append(title);
    out.append(LAYOUT_AFTER_TITLE);
    match jsonld {
        Some(j) => {
            out.append(JSONLD_OPEN);
            out.append(j);
            out.append(JSONLD_CLOSE);
        },
        None => {},
    }
    out.append(LAYOUT_BEFORE_BODY);
    out.append(body);
    out.append(LAYOUT_TAIL);
    out
}

} // verus!
