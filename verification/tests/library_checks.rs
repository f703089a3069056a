use field_bobbin::dates::{
    display_writing_date, full_writing_date, is_iso_date, is_leap_year, writing_date_parts,
    MonthNameStyle,
};
use field_bobbin::json::{decimal, JsonValue};
use field_bobbin::layout::render_layout;
use field_bobbin::posts::{render_writings_index, sort_posts_chronologically, PostSummary};
use field_bobbin::recipe_page::{build_recipe, finish_recipe, prepare_recipe, RecipeError};
use field_bobbin::recipes::{
    recipes_index_jsonld, render_recipes_index, render_recipes_index_jsonld,
    sort_recipes_by_name, RecipeSummary,
};
use field_bobbin::site::render_llms_txt;
use field_bobbin::text::{compare_text, split_lines, TextOrder};
use field_bobbin::writing::{build_writing, writing_meta_value, writing_page_html, WritingError};

fn post(slug: &str, title: &str, date: &str) -> PostSummary {
    PostSummary {
        slug: slug.to_string(),
        title: title.to_string(),
        date_published: date.to_string(),
    }
}

fn recipe(slug: &str, name: &str) -> RecipeSummary {
    RecipeSummary {
        slug: slug.to_string(),
        name: name.to_string(),
    }
}

fn text(s: &str) -> JsonValue {
    JsonValue::String(s.to_string())
}

fn object(entries: Vec<(&str, JsonValue)>) -> JsonValue {
    JsonValue::Object(entries.into_iter().map(|(k, v)| (k.to_string(), v)).collect())
}

// The page layout as the site writes it.
fn expected_layout(title: &str, body: &str, jsonld: Option<&str>) -> String {
    let jsonld_script = match jsonld {
        Some(jsonld) => format!(r#"<script type="application/ld+json"> {jsonld}</script>"#),
        None => String::new(),
    };
    format!(
        r#"<!doctype html>
  <html lang="en-US">
  <head>
    <meta charset="utf-8">
    <meta name="viewport" content="width=device-width, initial-scale=1">
    <title>{title}</title>
    <link rel="stylesheet" type="text/css" href="/style.css">
    {jsonld_script}
  </head>
  <body>
    <header>
      <h1>
      <a class="site-title" href="/index.html" aria-label="Field Bobbin Home">
        <span class="field">Field</span> <span class="accent">Bobbin</span>
      </a>
      </h1>
    </header>
    <nav>
      <ul>
        <li><a href="/readings">Readings</a></li>
        <li><a href="/writings">Writings</a></li>
        <li><a href="/recipes">Recipes</a></li>
        <li><a href="/forms/">Forms</a></li>
        <li><a href="/about">About</a></li>
      </ul>
    </nav>
    <main>
  {body}
    </main>
  </body>
  </html>
  "#
    )
}

#[test]
fn leap_years_follow_the_gregorian_rule() {
    assert!(is_leap_year(2024));
    assert!(is_leap_year(2000));
    assert!(!is_leap_year(1900));
    assert!(!is_leap_year(2023));
}

#[test]
fn iso_dates_respect_month_lengths() {
    assert!(is_iso_date("2026-04-30"));
    assert!(!is_iso_date("2026-04-31"));
    assert!(is_iso_date("2026-12-31"));
    assert!(!is_iso_date("2026-00-10"));
    assert!(!is_iso_date("2026-01-00"));
    assert!(!is_iso_date("2026-01-32"));
    assert!(is_iso_date("2000-02-29"));
    assert!(!is_iso_date("1900-02-29"));
    assert!(!is_iso_date(""));
    assert!(!is_iso_date("2026/01/01"));
    assert!(!is_iso_date("2026-01-01 "));
    assert!(!is_iso_date("２026-01-01"));
}

#[test]
fn date_parts_split_valid_dates_only() {
    assert_eq!(
        writing_date_parts("2026-03-07", MonthNameStyle::Long),
        Some(("March", "7", "2026"))
    );
    assert_eq!(
        writing_date_parts("2026-11-20", MonthNameStyle::Short),
        Some(("Nov", "20", "2026"))
    );
    assert_eq!(writing_date_parts("2026-02-30", MonthNameStyle::Short), None);
}

#[test]
fn invalid_dates_are_shown_unchanged() {
    assert_eq!(display_writing_date("soon"), "soon");
    assert_eq!(full_writing_date("2026-02-30"), "2026-02-30");
    assert_eq!(full_writing_date("2026-10-10"), "October 10, 2026");
    assert_eq!(display_writing_date("1999-12-31"), "Dec 1999");
}

#[test]
fn meta_values_are_read_from_their_first_occurrence() {
    let meta = r#"{slug="first" title="x" slug="second"}"#;
    assert_eq!(writing_meta_value(meta, "slug"), Some("first"));
    assert_eq!(writing_meta_value(meta, "missing"), None);
    assert_eq!(writing_meta_value(r#"slug="open"#, "slug"), Some("open"));
    assert_eq!(writing_meta_value(r#"slug="""#, "slug"), Some(""));
}

#[test]
fn meta_values_are_found_wherever_the_field_stands() {
    for meta in [
        r#"slug="here" datePublished="2026-01-02""#,
        r#"datePublished="2026-01-02" slug="here""#,
        r#"{a="1" slug="here" b="2"}"#,
    ] {
        assert_eq!(writing_meta_value(meta, "slug"), Some("here"));
    }
}

#[test]
fn texts_compare_character_by_character() {
    assert_eq!(compare_text("a", "b"), TextOrder::Less);
    assert_eq!(compare_text("ab", "a"), TextOrder::Greater);
    assert_eq!(compare_text("", ""), TextOrder::Equal);
    assert_eq!(compare_text("Z", "a"), TextOrder::Less);
    assert_eq!(compare_text("é", "z"), TextOrder::Greater);
}

#[test]
fn lines_split_like_str_lines() {
    for source in ["", "a", "a\n", "a\r\nb", "a\n\nb\n", "\n", "x\r", "x\r\r\ny", "\r\n"] {
        let expected: Vec<String> = source.lines().map(|l| l.to_string()).collect();
        assert_eq!(split_lines(source), expected, "source {:?}", source);
    }
}

#[test]
fn sorting_keeps_the_order_of_equal_posts() {
    let mut posts = vec![
        post("first", "Same", "2026-01-01"),
        post("newest", "Z", "2026-05-01"),
        post("second", "Same", "2026-01-01"),
        post("early-title", "A", "2026-01-01"),
        post("undated", "Q", "someday"),
    ];
    sort_posts_chronologically(&mut posts);
    let slugs: Vec<&str> = posts.iter().map(|p| p.slug.as_str()).collect();
    assert_eq!(slugs, ["undated", "newest", "early-title", "first", "second"]);

    let mut empty: Vec<PostSummary> = Vec::new();
    sort_posts_chronologically(&mut empty);
    assert!(empty.is_empty());
}

#[test]
fn recipes_sort_by_name_stably() {
    let mut recipes = vec![
        recipe("b1", "Bread"),
        recipe("a", "Apple pie"),
        recipe("b2", "Bread"),
        recipe("c", "Cake"),
    ];
    sort_recipes_by_name(&mut recipes);
    let slugs: Vec<&str> = recipes.iter().map(|r| r.slug.as_str()).collect();
    assert_eq!(slugs, ["a", "b1", "b2", "c"]);
}

#[test]
fn layout_wraps_the_body() {
    assert_eq!(
        render_layout("Xi", "<p>hi</p>", None),
        expected_layout("Xi", "<p>hi</p>", None)
    );
    assert_eq!(
        render_layout("Soup", "body", Some("{}")),
        expected_layout("Soup", "body", Some("{}"))
    );
}

#[test]
fn writings_index_lists_every_post() {
    let html = render_writings_index(&[
        post("a", "Alpha", "2026-01-05"),
        post("b", "Beta", "later"),
    ]);
    let expected = "    <article class=\"writings\">\n    <section>\n      <h2>Writings</h2>\n      <ul class=\"writing-list\">\n        <li><a href=\"./a.html\">Alpha</a><time class=\"writing-date\" datetime=\"2026-01-05\" aria-label=\"January 5, 2026\" title=\"January 5, 2026\">Jan 2026</time></li>\n        <li><a href=\"./b.html\">Beta</a><time class=\"writing-date\" datetime=\"later\" aria-label=\"later\" title=\"later\">later</time></li>\n        </ul>\n    </section>\n  </article>";
    assert_eq!(html, expected);
}

#[test]
fn recipes_index_links_every_recipe() {
    let html = render_recipes_index(&[recipe("soup", "Soup")]);
    let expected = "\n            <article class=\"recipes\">\n            <section>\n            <h2>Recipes</h2>\n            <ul>\n            \n                <li><a href=\"./soup.html\">Soup</a></li>\n            \n            </ul>\n            </section>\n            </article>\n        ";
    assert_eq!(html, expected);
}

#[test]
fn recipes_index_structured_data_numbers_items_from_one() {
    let doc = recipes_index_jsonld(&[recipe("soup", "Soup"), recipe("tea", "Tea")]);
    let entries = match doc {
        JsonValue::Object(entries) => entries,
        _ => panic!("not an object"),
    };
    assert_eq!(entries[0].0, "@context");
    assert!(matches!(&entries[0].1, JsonValue::String(s) if s == "https://schema.org"));
    assert!(matches!(&entries[1].1, JsonValue::String(s) if s == "ItemList"));
    assert!(matches!(&entries[2].1, JsonValue::String(s) if s == "Recipes"));
    let items = match &entries[3].1 {
        JsonValue::Array(items) => items,
        _ => panic!("no items"),
    };
    assert_eq!(items.len(), 2);
    match &items[1] {
        JsonValue::Object(item) => {
            assert!(matches!(&item[0].1, JsonValue::String(s) if s == "ListItem"));
            assert!(matches!(&item[1].1, JsonValue::Number(n) if n == "2"));
            assert!(matches!(&item[2].1, JsonValue::String(s) if s == "./tea.html"));
            assert!(matches!(&item[3].1, JsonValue::String(s) if s == "Tea"));
        }
        _ => panic!("item is not an object"),
    }
}

#[test]
fn numbers_are_written_in_decimal() {
    assert_eq!(decimal(0), "0");
    assert_eq!(decimal(7), "7");
    assert_eq!(decimal(10), "10");
    assert_eq!(decimal(12345), "12345");
}

#[test]
fn llms_text_lists_recipes_and_writings() {
    let recipes = [recipe("soup", "Soup")];
    let posts = [post("hello", "Hello", "2026-01-01")];
    let site_url = "https://xizhang.page";
    let recipe_lines = format!(
        "- [{}]({}/recipes/{}.html) - [JSON-LD]({}/recipes/{}.jsonld)\n",
        "Soup", site_url, "soup", site_url, "soup"
    );
    let post_lines = format!("- [{}]({}/writings/{}.html)\n", "Hello", site_url, "hello");
    let expected = format!(
        "# Field Bobbin\n\nPersonal site by Xi Zhang with recipes, readings, writings, and an about me page.\n            \n## Pages\n\n- [About]({site_url}/about)\n- [Recipes]({site_url}/recipes/)\n- [Writings]({site_url}/writings/)\n- [Readings]({site_url}/readings/index.html)\n\n## Recipes\n\nRecipe pages include embedded Schema.org JSON-LD. Sidecar JSON-LD files are available next to each recipe page.\n\n{recipe_lines}\n\n## Writings\n\n{post_lines}\n\n## Readings\n\n- [Readings]({site_url}/readings/index.html)\n        "
    );
    assert_eq!(render_llms_txt(&recipes, &posts), expected);
}

fn full_recipe() -> JsonValue {
    object(vec![
        ("@type", text("Recipe")),
        ("image", object(vec![("url", text("/images/soup.jpg")), ("caption", text("A bowl"))])),
        ("name", text("Soup")),
        ("recipeIngredient", JsonValue::Array(vec![text("water"), text("salt")])),
        (
            "recipeInstructions",
            JsonValue::Array(vec![
                object(vec![("@type", text("HowToStep")), ("text", text("Boil."))]),
                object(vec![("@type", text("HowToTip")), ("text", text("Taste it."))]),
                object(vec![
                    ("@type", text("HowToStep")),
                    ("text", text("Serve.")),
                    ("image", object(vec![("contentUrl", text("/images/bowl.jpg"))])),
                ]),
                object(vec![("@type", text("HowToSection"))]),
            ]),
        ),
        ("slug", text("soup")),
    ])
}

#[test]
fn recipe_pages_are_built_from_their_structured_data() {
    let draft = prepare_recipe(full_recipe()).unwrap();
    assert_eq!(draft.slug, "soup");
    assert_eq!(draft.name, "Soup");
    assert_eq!(draft.jsonld_path, "public/recipes/soup.jsonld");
    assert_eq!(draft.ingredients_html, "  <li>water</li>\n  <li>salt</li>\n");
    let step_image = r#"
      <figure class="step-photo">
        <img src="/images/bowl.jpg" alt="" loading="lazy">
        <figcaption></figcaption>
      </figure>"#;
    assert_eq!(
        draft.steps_html,
        format!("    <li><p>Boil.</p></li>\n    <li><p>Serve.</p>{step_image}</li>\n")
    );
    let notes_html = "    <p>Taste it.</p>\n";
    assert_eq!(
        draft.notes_section,
        format!(
            r#"    <section class="recipe-notes">
            <h3>Notes</h3>
            {notes_html} </section>
            "#
        )
    );
    match &draft.public_doc {
        JsonValue::Object(entries) => {
            assert_eq!(entries.len(), 5);
            assert!(entries.iter().all(|(k, _)| k != "slug"));
        }
        _ => panic!("the published data is not an object"),
    }

    let page = finish_recipe(&draft, "{\"@type\": \"Recipe\"}").unwrap();
    assert_eq!(page.summary.slug, "soup");
    assert_eq!(page.summary.name, "Soup");
    assert_eq!(page.html_path, "public/recipes/soup.html");
    let hero_html = r#"    <figure class="recipe-hero">
      <img src="/images/soup.jpg" alt="A bowl" loading="lazy">
    </figure>
"#;
    let name = "Soup";
    let ingredients_html = &draft.ingredients_html;
    let steps_html = &draft.steps_html;
    let notes_section = &draft.notes_section;
    let body = format!(
        r#"   <article class="recipes">
        <section>
    <h2>{name}</h2>
    {hero_html}
    <h3>Ingredients</h3>
    <ul>
    {ingredients_html}    </ul>
    <h3>Steps</h3>
    <ol>
    {steps_html} </ol>
    </section>
    {notes_section} </article>"#
    );
    assert_eq!(page.html, expected_layout("Soup", &body, Some("{\"@type\": \"Recipe\"}")));
}

#[test]
fn recipes_without_notes_or_images_leave_them_out() {
    let doc = object(vec![
        ("name", text("Tea")),
        ("recipeIngredient", JsonValue::Array(vec![])),
        ("recipeInstructions", JsonValue::Array(vec![])),
        ("slug", text("tea")),
    ]);
    let draft = prepare_recipe(doc).unwrap();
    assert_eq!(draft.notes_section, "");
    assert_eq!(draft.steps_html, "");
    let page = finish_recipe(&draft, "{}").unwrap();
    assert!(page.html.contains("<h2>Tea</h2>\n    \n    <h3>Ingredients</h3>"));
}

fn without(key: &str) -> JsonValue {
    match full_recipe() {
        JsonValue::Object(entries) => {
            JsonValue::Object(entries.into_iter().filter(|(k, _)| k != key).collect())
        }
        _ => unreachable!(),
    }
}

fn with(key: &str, value: JsonValue) -> JsonValue {
    match without(key) {
        JsonValue::Object(mut entries) => {
            entries.push((key.to_string(), value));
            JsonValue::Object(entries)
        }
        _ => unreachable!(),
    }
}

fn prepare_error(doc: JsonValue) -> RecipeError {
    match prepare_recipe(doc) {
        Err(e) => e,
        Ok(_) => panic!("the recipe was accepted"),
    }
}

#[test]
fn recipe_errors_name_what_is_missing() {
    assert_eq!(prepare_error(without("slug")), RecipeError::MissingSlug);
    assert_eq!(prepare_error(with("name", JsonValue::Null)), RecipeError::MissingName);
    assert_eq!(prepare_error(text("not an object")), RecipeError::MissingSlug);
    assert_eq!(prepare_error(without("recipeIngredient")), RecipeError::MissingIngredients);
    assert_eq!(
        prepare_error(with("recipeIngredient", JsonValue::Array(vec![JsonValue::Bool(true)]))),
        RecipeError::IngredientNotString
    );
    assert_eq!(
        prepare_error(with("recipeInstructions", text("boil"))),
        RecipeError::MissingInstructions
    );
    assert_eq!(
        prepare_error(with(
            "recipeInstructions",
            JsonValue::Array(vec![object(vec![("text", text("x"))])])
        )),
        RecipeError::InstructionMissingType
    );
    assert_eq!(
        prepare_error(with(
            "recipeInstructions",
            JsonValue::Array(vec![object(vec![("@type", text("HowToTip"))])])
        )),
        RecipeError::InstructionMissingText
    );
    assert_eq!(
        prepare_error(with(
            "recipeInstructions",
            JsonValue::Array(vec![
                object(vec![("@type", text("HowToTip"))]),
                object(vec![
                    ("@type", text("HowToStep")),
                    ("text", text("x")),
                    ("image", JsonValue::Null),
                ]),
            ])
        )),
        RecipeError::StepImageMissingUrl
    );
    let draft = prepare_recipe(with("image", text("/soup.jpg"))).unwrap();
    assert_eq!(finish_recipe(&draft, "{}").err(), Some(RecipeError::ImageMissingUrl));
    assert_eq!(RecipeError::MissingSlug.message(), "recipe missing string field: slug");
    assert_eq!(
        RecipeError::StepImageMissingUrl.message(),
        "step image missing string field: contentUrl"
    );
    assert_eq!(RecipeError::NotObject.message(), "recipe JSON-LD must be an object");
}

#[test]
fn writings_are_built_from_their_source() {
    let source = "{slug=\"hello\" datePublished=\"2026-06-12\"}\r\n## Hello there\r\n\r\nA first paragraph.\n";
    let page = build_writing(source).unwrap();
    assert_eq!(page.summary.slug, "hello");
    assert_eq!(page.summary.title, "Hello there");
    assert_eq!(page.summary.date_published, "2026-06-12");
    assert_eq!(page.html_path, "public/writings/hello.html");
    assert!(page.html.contains("<p>A first paragraph.</p>"));
    assert!(page.html.contains("<title>Hello there</title>"));
    assert!(!page.html.contains("## Hello there"));
    let body_html = jotdown::html::render_to_string(jotdown::Parser::new(
        "## Hello there\n\nA first paragraph.",
    ));
    assert_eq!(page.html, writing_page_html("Hello there", &body_html));
}

#[test]
fn writing_pages_wrap_the_rendered_body() {
    let body_html = "<p>x</p>\n";
    let post_body = format!(
        r#"<article class="writings">
        {body_html}
        </article>
       "#
    );
    assert_eq!(
        writing_page_html("T", body_html),
        expected_layout("T", &post_body, None)
    );
}

#[test]
fn writing_errors_name_what_is_missing() {
    assert_eq!(build_writing("").err(), Some(WritingError::MissingMetaLine));
    assert_eq!(
        build_writing("{datePublished=\"2026-01-01\"}\n## T").err(),
        Some(WritingError::MissingSlug)
    );
    assert_eq!(
        build_writing("{slug=\"a\"}\n## T").err(),
        Some(WritingError::MissingDatePublished)
    );
    assert_eq!(
        build_writing("{slug=\"a\" datePublished=\"2026-02-30\"}\n## T").err(),
        Some(WritingError::InvalidDatePublished)
    );
    assert_eq!(
        build_writing("{slug=\"a\" datePublished=\"2026-02-03\"}\n# T\nno heading").err(),
        Some(WritingError::MissingTitle)
    );
    assert_eq!(
        WritingError::InvalidDatePublished.message(),
        "writing datePublished must be a valid YYYY-MM-DD date"
    );
}

#[test]
fn navigation_links_the_site_structure() {
    let html = render_layout("Any", "", None);
    assert!(html.contains(r#"<a href="/about">About</a>"#));
    assert!(html.contains(r#"<a href="/recipes">Recipes</a>"#));
    assert!(html.contains(r#"<a href="/writings">Writings</a>"#));
    assert!(!html.contains(r#"<a href="/index.html">About</a>"#));
    let llms = render_llms_txt(&[], &[]);
    assert!(llms.contains("- [About](https://xizhang.page/about)"));
}

#[test]
fn recipes_index_structured_data_prints_like_serde_json() {
    let text = render_recipes_index_jsonld(&[recipe("soup", "Soup")]).unwrap();
    let expected = "{\n  \"@context\": \"https://schema.org\",\n  \"@type\": \"ItemList\",\n  \"itemListElement\": [\n    {\n      \"@type\": \"ListItem\",\n      \"name\": \"Soup\",\n      \"position\": 1,\n      \"url\": \"./soup.html\"\n    }\n  ],\n  \"name\": \"Recipes\"\n}";
    assert_eq!(text, expected);
}

const SOUP_JSONLD: &str = r#"{
  "@type": "Recipe",
  "slug": "soup",
  "name": "Soup",
  "recipeYield": 4,
  "cookTime": 1.5,
  "image": {"url": "/images/soup.jpg", "caption": "A bowl"},
  "recipeIngredient": ["water", "salt"],
  "recipeInstructions": [
    {"@type": "HowToStep", "text": "Boil."},
    {"@type": "HowToTip", "text": "Taste it."}
  ]
}"#;

#[test]
fn recipe_files_are_built_from_the_recipe_text() {
    let files = build_recipe(SOUP_JSONLD).unwrap();
    assert_eq!(files.jsonld_path, "public/recipes/soup.jsonld");

    let mut value: serde_json::Value = serde_json::from_str(SOUP_JSONLD).unwrap();
    value.as_object_mut().unwrap().remove("slug");
    let expected_jsonld = serde_json::to_string_pretty(&value).unwrap();
    assert_eq!(files.jsonld, expected_jsonld);
    assert!(!files.jsonld.contains("slug"));
    assert!(files.jsonld.contains("\"recipeYield\": 4"));
    assert!(files.jsonld.contains("\"cookTime\": 1.5"));

    let page = files.page.unwrap();
    assert_eq!(page.summary.slug, "soup");
    assert_eq!(page.html_path, "public/recipes/soup.html");
    assert!(page.html.contains(&format!(
        r#"<script type="application/ld+json"> {expected_jsonld}</script>"#
    )));
    assert!(page.html.contains("<li><p>Boil.</p></li>"));
    assert!(page.html.contains("<p>Taste it.</p>"));
    assert!(page.html.contains(r#"<img src="/images/soup.jpg" alt="A bowl" loading="lazy">"#));
}

#[test]
fn recipe_text_that_is_not_json_is_refused() {
    let raw = "{ not json";
    let message = serde_json::from_str::<serde_json::Value>(raw)
        .unwrap_err()
        .to_string();
    match build_recipe(raw) {
        Err(e) => {
            assert_eq!(e, RecipeError::InvalidJson(message.clone()));
            assert_eq!(e.message(), message);
        }
        Ok(_) => panic!("the text was accepted"),
    }
    assert_eq!(
        build_recipe("[1, 2]").err(),
        Some(RecipeError::MissingSlug)
    );
}

#[test]
fn the_sidecar_is_written_even_when_the_hero_image_has_no_url() {
    let raw = r#"{"slug": "tea", "name": "Tea", "image": "/tea.jpg",
                  "recipeIngredient": [], "recipeInstructions": []}"#;
    let files = build_recipe(raw).unwrap();
    assert_eq!(files.jsonld_path, "public/recipes/tea.jsonld");
    assert!(files.jsonld.contains("\"image\": \"/tea.jpg\""));
    assert_eq!(files.page.err(), Some(RecipeError::ImageMissingUrl));
}
