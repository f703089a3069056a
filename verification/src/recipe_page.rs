use vstd::prelude::*;

use crate::json::{
    as_items, as_text, data_of, data_of_entries, data_of_items, entry_value, get, json_get,
    json_items, json_text, lemma_data_of_entries, lemma_data_of_items, parse_json, parsed_json,
    pretty_json, print_pretty_json, JsonData, JsonValue,
};
use crate::layout::{layout_page, render_layout};
use crate::recipes::RecipeSummary;
use crate::text::same_text;

verus! {

/// Why a recipe cannot be published.
#[derive(Clone, Debug, PartialEq, Eq)]
pub enum RecipeError {
    InvalidJson(String),
    MissingSlug,
    MissingName,
    NotObject,
    MissingIngredients,
    IngredientNotString,
    MissingInstructions,
    InstructionMissingType,
    InstructionMissingText,
    StepImageMissingUrl,
    ImageMissingUrl,
    Unprintable,
}

/// The message of each error.
pub open spec fn recipe_error_message(e: RecipeError) -> Seq<char> {
    match e {
        RecipeError::InvalidJson(m) => m@,
        RecipeError::MissingSlug => "recipe missing string field: slug"@,
        RecipeError::MissingName => "recipe missing string field: name"@,
        RecipeError::NotObject => "recipe JSON-LD must be an object"@,
        RecipeError::MissingIngredients => "recipe missing array field: recipeIngredient"@,
        RecipeError::IngredientNotString => "recipeIngredient must only contain strings"@,
        RecipeError::MissingInstructions => "recipe missing array field: recipeInstructions"@,
        RecipeError::InstructionMissingType => "recipe instruction missing string field: @type"@,
        RecipeError::InstructionMissingText => "recipe instruction missing string field: text"@,
        RecipeError::StepImageMissingUrl => "step image missing string field: contentUrl"@,
        RecipeError::ImageMissingUrl => "recipe image missing string field: url"@,
        RecipeError::Unprintable => "recipe JSON-LD could not be printed"@,
    }
}

impl RecipeError {
    /// The message that reports the error.
    pub fn message(&self) -> (r: String)
        ensures
            r@ == recipe_error_message(*self),
    {
        let text = match self {
            RecipeError::InvalidJson(m) => {
                return m.clone();
            },
            RecipeError::MissingSlug => "recipe missing string field: slug",
            RecipeError::MissingName => "recipe missing string field: name",
            RecipeError::NotObject => "recipe JSON-LD must be an object",
            RecipeError::MissingIngredients => "recipe missing array field: recipeIngredient",
            RecipeError::IngredientNotString => "recipeIngredient must only contain strings",
            RecipeError::MissingInstructions => "recipe missing array field: recipeInstructions",
            RecipeError::InstructionMissingType =>
                "recipe instruction missing string field: @type",
            RecipeError::InstructionMissingText =>
                "recipe instruction missing string field: text",
            RecipeError::StepImageMissingUrl => "step image missing string field: contentUrl",
            RecipeError::ImageMissingUrl => "recipe image missing string field: url",
            RecipeError::Unprintable => "recipe JSON-LD could not be printed",
        };
        String::from_str(text)
    }
}

/// The lists a recipe page is made of.
#[derive(Clone, Copy, Debug, PartialEq, Eq, Structural)]
pub enum ListKind {
    Ingredients,
    Steps,
    Notes,
}

/// An image's caption, or nothing.
pub open spec fn caption_of(img: JsonData) -> Seq<char> {
    match json_text(json_get(img, "caption"@)) {
        Some(c) => c,
        None => Seq::empty(),
    }
}

/// The photo that illustrates a step.
pub open spec fn step_photo(url: Seq<char>, caption: Seq<char>) -> Seq<char> {
    "\n      <figure class=\"step-photo\">\n        <img src=\""@ + url + "\" alt=\""@ + caption
        + "\" loading=\"lazy\">\n        <figcaption>"@ + caption
        + "</figcaption>\n      </figure>"@
}

/// The photo of a step, if the step has an image.
pub open spec fn step_image(ins: JsonData) -> Result<Seq<char>, RecipeError> {
    match json_get(ins, "image"@) {
        None => Ok(Seq::empty()),
        Some(img) => match json_text(json_get(img, "contentUrl"@)) {
            None => Err(RecipeError::StepImageMissingUrl),
            Some(url) => Ok(step_photo(url, caption_of(img))),
        },
    }
}

/// What one item adds to a list: an ingredient, a step (an instruction of type
/// `HowToStep`) or a note (an instruction of type `HowToTip`). Other
/// instructions add nothing, but every instruction must have a type.
pub open spec fn list_entry(kind: ListKind, v: JsonData) -> Result<Seq<char>, RecipeError> {
    match kind {
        ListKind::Ingredients => match v {
            JsonData::String(s) => Ok("  <li>"@ + s + "</li>\n"@),
            _ => Err(RecipeError::IngredientNotString),
        },
        ListKind::Steps => match json_text(json_get(v, "@type"@)) {
            None => Err(RecipeError::InstructionMissingType),
            Some(t) => if t != "HowToStep"@ {
                Ok(Seq::empty())
            } else {
                match json_text(json_get(v, "text"@)) {
                    None => Err(RecipeError::InstructionMissingText),
                    Some(text) => match step_image(v) {
                        Err(e) => Err(e),
                        Ok(img) => Ok("    <li><p>"@ + text + "</p>"@ + img + "</li>\n"@),
                    },
                }
            },
        },
        ListKind::Notes => match json_text(json_get(v, "@type"@)) {
            None => Err(RecipeError::InstructionMissingType),
            Some(t) => if t != "HowToTip"@ {
                Ok(Seq::empty())
            } else {
                match json_text(json_get(v, "text"@)) {
                    None => Err(RecipeError::InstructionMissingText),
                    Some(text) => Ok("    <p>"@ + text + "</p>\n"@),
                }
            },
        },
    }
}

/// A list made of the items in order; the first item in error makes it fail.
pub open spec fn list_entries(kind: ListKind, items: Seq<JsonData>) -> Result<
    Seq<char>,
    RecipeError,
>
    decreases items.len(),
{
    if items.len() == 0 {
        Ok(Seq::empty())
    } else {
        match list_entries(kind, items.drop_last()) {
            Err(e) => Err(e),
            Ok(h) => match list_entry(kind, items.last()) {
                Err(e) => Err(e),
                Ok(x) => Ok(h + x),
            },
        }
    }
}

/// Once a prefix of the items fails, the whole list fails the same way.
proof fn lemma_list_entries_error(kind: ListKind, items: Seq<JsonData>, j: int)
    requires
        0 <= j <= items.len(),
        list_entries(kind, items.take(j)) is Err,
    ensures
        list_entries(kind, items) == list_entries(kind, items.take(j)),
    decreases items.len() - j,
{
    if j < items.len() {
        assert(items.take(j + 1).drop_last() =~= items.take(j));
        lemma_list_entries_error(kind, items, j + 1);
    } else {
        assert(items.take(j) =~= items);
    }
}

/// The caption of an image, or nothing.
fn caption_text(img: &JsonValue) -> (r: String)
    ensures
        r@ == caption_of(img@),
{
    match as_text(get(img, "caption")) {
        Some(c) => String::from_str(c),
        None => String::new(),
    }
}

fn step_image_html(ins: &JsonValue) -> (r: Result<String, RecipeError>)
    ensures
        match step_image(ins@) {
            Err(e) => r == Err::<String, RecipeError>(e),
            Ok(h) => r matches Ok(s) && s@ == h,
        },
{
    match get(ins, "image") {
        None => Ok(String::new()),
        Some(img) => {
            let url = match as_text(get(img, "contentUrl")) {
                Some(u) => u,
                None => {
                    return Err(RecipeError::StepImageMissingUrl);
                },
            };
            let caption = caption_text(img);
            let mut out = String::from_str("\n      <figure class=\"step-photo\">\n        <img src=\"");
            out.append(url);
            out.append("\" alt=\"");
            out.append(caption.as_str());
            out.append("\" loading=\"lazy\">\n        <figcaption>");
            out.append(caption.as_str());
            out.append("</figcaption>\n      </figure>");
            Ok(out)
        },
    }
}

fn list_entry_html(kind: ListKind, v: &JsonValue) -> (r: Result<String, RecipeError>)
    ensures
        match list_entry(kind, v@) {
            Err(e) => r == Err::<String, RecipeError>(e),
            Ok(h) => r matches Ok(s) && s@ == h,
        },
{
    match kind {
        ListKind::Ingredients => match v {
            JsonValue::String(s) => {
                let mut out = String::from_str("  <li>");
                out.append(s.as_str());
                out.append("</li>\n");
                Ok(out)
            },
            _ => Err(RecipeError::IngredientNotString),
        },
        ListKind::Steps => {
            let t = match as_text(get(v, "@type")) {
                Some(t) => t,
                None => {
                    return Err(RecipeError::InstructionMissingType);
                },
            };
            if !same_text(t, "HowToStep") {
                return Ok(String::new());
            }
            let text = match as_text(get(v, "text")) {
                Some(t) => t,
                None => {
                    return Err(RecipeError::InstructionMissingText);
                },
            };
            let img = match step_image_html(v) {
                Ok(h) => h,
                Err(e) => {
                    return Err(e);
                },
            };
            let mut out = String::from_str("    <li><p>");
            out.append(text);
            out.append("</p>");
            out.append(img.as_str());
            out.append("</li>\n");
            Ok(out)
        },
        ListKind::Notes => {
            let t = match as_text(get(v, "@type")) {
                Some(t) => t,
                None => {
                    return Err(RecipeError::InstructionMissingType);
                },
            };
            if !same_text(t, "HowToTip") {
                return Ok(String::new());
            }
            let text = match as_text(get(v, "text")) {
                Some(t) => t,
                None => {
                    return Err(RecipeError::InstructionMissingText);
                },
            };
            let mut out = String::from_str("    <p>");
            out.append(text);
            out.append("</p>\n");
            Ok(out)
        },
    }
}

fn list_html(kind: ListKind, items: &Vec<JsonValue>) -> (r: Result<String, RecipeError>)
    ensures
        match list_entries(kind, data_of_items(items@)) {
            Err(e) => r == Err::<String, RecipeError>(e),
            Ok(h) => r matches Ok(s) && s@ == h,
        },
{
    let ghost data = data_of_items(items@);
    proof {
        lemma_data_of_items(items@);
    }
    let mut out = String::new();
    let mut i: usize = 0;
    assert(data.take(0) =~= Seq::<JsonData>::empty());
    while i < items.len()
        invariant
            i <= items@.len(),
            data == data_of_items(items@),
            data.len() == items@.len(),
            forall|j: int| 0 <= j < items@.len() ==> #[trigger] data[j] == data_of(items@[j]),
            list_entries(kind, data.take(i as int)) == Ok::<Seq<char>, RecipeError>(out@),
        decreases items@.len() - i,
    {
        assert(data.take(i + 1).drop_last() =~= data.take(i as int));
        assert(data.take(i + 1).last() == data[i as int]);
        match list_entry_html(kind, &items[i]) {
            Err(e) => {
                proof {
                    lemma_list_entries_error(kind, data, i + 1);
                }
                return Err(e);
            },
            Ok(x) => {
                out.append(x.as_str());
            },
        }
        i = i + 1;
    }
    assert(data.take(data.len() as int) =~= data);
    Ok(out)
}

/// The entries of an object without those named `key`.
pub open spec fn without_key(entries: Seq<(Seq<char>, JsonData)>, key: Seq<char>) -> Seq<
    (Seq<char>, JsonData),
>
    decreases entries.len(),
{
    if entries.len() == 0 {
        Seq::empty()
    } else if entries[0].0 == key {
        without_key(entries.drop_first(), key)
    } else {
        seq![entries[0]] + without_key(entries.drop_first(), key)
    }
}

/// The notes section, left out when there are no notes.
pub open spec fn notes_section(notes: Seq<char>) -> Seq<char> {
    if notes.len() == 0 {
        Seq::empty()
    } else {
        "    <section class=\"recipe-notes\">\n            <h3>Notes</h3>\n            "@ + notes
            + " </section>\n            "@
    }
}

/// What a recipe's structured data holds for its page: (slug, name,
/// ingredients, steps, notes), in the order the checks are made.
pub open spec fn recipe_content(recipe: JsonData) -> Result<
    (Seq<char>, Seq<char>, Seq<char>, Seq<char>, Seq<char>),
    RecipeError,
> {
    match json_text(json_get(recipe, "slug"@)) {
        None => Err(RecipeError::MissingSlug),
        Some(slug) => match json_text(json_get(recipe, "name"@)) {
            None => Err(RecipeError::MissingName),
            Some(name) => if !(recipe is Object) {
                Err(RecipeError::NotObject)
            } else {
                match json_items(json_get(recipe, "recipeIngredient"@)) {
                    None => Err(RecipeError::MissingIngredients),
                    Some(ings) => match list_entries(ListKind::Ingredients, ings) {
                        Err(e) => Err(e),
                        Ok(ingredients) => match json_items(
                            json_get(recipe, "recipeInstructions"@),
                        ) {
                            None => Err(RecipeError::MissingInstructions),
                            Some(ins) => match list_entries(ListKind::Steps, ins) {
                                Err(e) => Err(e),
                                Ok(steps) => match list_entries(ListKind::Notes, ins) {
                                    Err(e) => Err(e),
                                    Ok(notes) => Ok((slug, name, ingredients, steps, notes)),
                                },
                            },
                        },
                    },
                }
            },
        },
    }
}

/// Where a recipe's structured data is published.
pub open spec fn recipe_jsonld_path(slug: Seq<char>) -> Seq<char> {
    "public/recipes/"@ + slug + ".jsonld"@
}

/// Where a recipe's page is published.
pub open spec fn recipe_html_path(slug: Seq<char>) -> Seq<char> {
    "public/recipes/"@ + slug + ".html"@
}

fn recipe_path(slug: &str, extension: &str) -> (r: String)
    ensures
        r@ == "public/recipes/"@ + slug@ + extension@,
{
    let mut out = String::from_str("public/recipes/");
    out.append(slug);
    out.append(extension);
    out
}

/// A recipe checked and rendered up to its page: what the page is made of,
/// and the structured data to publish, without the slug.
pub struct RecipeDraft {
    pub slug: String,
    pub name: String,
    pub public_doc: JsonValue,
    pub jsonld_path: String,
    pub ingredients_html: String,
    pub steps_html: String,
    pub notes_section: String,
}

/// The structured data to publish: an object without its slug.
pub open spec fn public_recipe(recipe: JsonData) -> JsonData {
    match recipe {
        JsonData::Object(entries) => JsonData::Object(without_key(entries, "slug"@)),
        other => other,
    }
}

fn remove_slug(entries: Vec<(String, JsonValue)>) -> (r: Vec<(String, JsonValue)>)
    ensures
        data_of_entries(r@) == without_key(data_of_entries(entries@), "slug"@),
{
    let ghost all = data_of_entries(entries@);
    let ghost source = entries@;
    proof {
        lemma_data_of_entries(entries@);
    }
    let mut rest = entries;
    let mut kept: Vec<(String, JsonValue)> = Vec::new();
    let ghost mut k: int = 0;
    assert(all.skip(0) =~= all);
    assert(data_of_entries(kept@) =~= Seq::<(Seq<char>, JsonData)>::empty());
    while rest.len() > 0
        invariant
            0 <= k <= source.len(),
            all.len() == source.len(),
            forall|j: int| 0 <= j < source.len() ==> #[trigger] all[j] == (
                source[j].0@,
                data_of(source[j].1),
            ),
            all == data_of_entries(source),
            rest@ == source.skip(k),
            data_of_entries(kept@) + without_key(all.skip(k), "slug"@) == without_key(
                all,
                "slug"@,
            ),
        decreases rest.len(),
    {
        let ghost before = rest@;
        let e = rest.remove(0);
        assert(before.drop_first() =~= rest@);
        assert(e == source[k]);
        assert(all.skip(k)[0] == all[k]);
        assert(all.skip(k).drop_first() =~= all.skip(k + 1));
        if !same_text(e.0.as_str(), "slug") {
            let ghost old_kept = kept@;
            kept.push(e);
            assert(kept@.subrange(0, kept@.len() - 1) =~= old_kept);
            assert(data_of_entries(kept@) == data_of_entries(old_kept).push(all[k]));
            assert(data_of_entries(kept@) + without_key(all.skip(k + 1), "slug"@)
                =~= data_of_entries(old_kept) + (seq![all[k]] + without_key(
                all.skip(k + 1),
                "slug"@,
            )));
        }
        proof {
            k = k + 1;
        }
    }
    assert(data_of_entries(kept@) + without_key(all.skip(k), "slug"@) =~= data_of_entries(
        kept@,
    ));
    kept
}

/// Checks a recipe's structured data and renders its lists: the slug and the
/// name must be strings, the data an object, the ingredients an array of
/// strings, the instructions an array whose items all have a type; steps
/// need a text and a step's image a `contentUrl`; notes need a text. The
/// structured data to publish is the recipe without its slug.
pub fn prepare_recipe(recipe: JsonValue) -> (r: Result<RecipeDraft, RecipeError>)
    ensures
        match recipe_content(recipe@) {
            Err(e) => r == Err::<RecipeDraft, RecipeError>(e),
            Ok((slug, name, ingredients, steps, notes)) => {
                &&& r is Ok
                &&& r->Ok_0.slug@ == slug
                &&& r->Ok_0.name@ == name
                &&& r->Ok_0.jsonld_path@ == recipe_jsonld_path(slug)
                &&& r->Ok_0.ingredients_html@ == ingredients
                &&& r->Ok_0.steps_html@ == steps
                &&& r->Ok_0.notes_section@ == notes_section(notes)
                &&& r->Ok_0.public_doc@ == public_recipe(recipe@)
            },
        },
{
    let slug = match as_text(get(&recipe, "slug")) {
        Some(s) => String::from_str(s),
        None => {
            return Err(RecipeError::MissingSlug);
        },
    };
    let name = match as_text(get(&recipe, "name")) {
        Some(s) => String::from_str(s),
        None => {
            return Err(RecipeError::MissingName);
        },
    };
    if !(match &recipe {
        JsonValue::Object(_) => true,
        _ => false,
    }) {
        return Err(RecipeError::NotObject);
    }
    let ingredients = match as_items(get(&recipe, "recipeIngredient")) {
        Some(items) => items,
        None => {
            return Err(RecipeError::MissingIngredients);
        },
    };
    let ingredients_html = match list_html(ListKind::Ingredients, ingredients) {
        Ok(h) => h,
        Err(e) => {
            return Err(e);
        },
    };
    let instructions = match as_items(get(&recipe, "recipeInstructions")) {
        Some(items) => items,
        None => {
            return Err(RecipeError::MissingInstructions);
        },
    };
    let steps_html = match list_html(ListKind::Steps, instructions) {
        Ok(h) => h,
        Err(e) => {
            return Err(e);
        },
    };
    let notes_html = match list_html(ListKind::Notes, instructions) {
        Ok(h) => h,
        Err(e) => {
            return Err(e);
        },
    };
    let notes = if notes_html.as_str().unicode_len() == 0 {
        String::new()
    } else {
        let mut out = String::from_str(
            "    <section class=\"recipe-notes\">\n            <h3>Notes</h3>\n            ",
        );
        out.append(notes_html.as_str());
        out.append(" </section>\n            ");
        out
    };
    let jsonld_path = recipe_path(slug.as_str(), ".jsonld");
    let ghost original = recipe@;
    let public_doc = match recipe {
        JsonValue::Object(entries) => JsonValue::Object(remove_slug(entries)),
        other => other,
    };
    assert(public_doc@ == public_recipe(original));
    Ok(
        RecipeDraft {
            slug,
            name,
            public_doc,
            jsonld_path,
            ingredients_html,
            steps_html,
            notes_section: notes,
        },
    )
}

/// The large photo at the top of a recipe, if the recipe has an image.
pub open spec fn recipe_hero(doc: JsonData) -> Result<Seq<char>, RecipeError> {
    match json_get(doc, "image"@) {
        None => Ok(Seq::empty()),
        Some(img) => match json_text(json_get(img, "url"@)) {
            None => Err(RecipeError::ImageMissingUrl),
            Some(url) => Ok(
                "    <figure class=\"recipe-hero\">\n      <img src=\""@ + url + "\" alt=\""@
                    + caption_of(img) + "\" loading=\"lazy\">\n    </figure>\n"@,
            ),
        },
    }
}

/// The body of a recipe's page.
pub open spec fn recipe_body(
    name: Seq<char>,
    hero: Seq<char>,
    ingredients: Seq<char>,
    steps: Seq<char>,
    notes: Seq<char>,
) -> Seq<char> {
    "   <article class=\"recipes\">\n        <section>\n    <h2>"@ + name + "</h2>\n    "@ + hero
        + "\n    <h3>Ingredients</h3>\n    <ul>\n    "@ + ingredients
        + "    </ul>\n    <h3>Steps</h3>\n    <ol>\n    "@ + steps
        + " </ol>\n    </section>\n    "@ + notes + " </article>"@
}

/// A recipe ready to publish.
pub struct RecipePage {
    pub summary: RecipeSummary,
    pub html_path: String,
    pub html: String,
}

fn hero_html(doc: &JsonValue) -> (r: Result<String, RecipeError>)
    ensures
        match recipe_hero(doc@) {
            Err(e) => r == Err::<String, RecipeError>(e),
            Ok(h) => r matches Ok(s) && s@ == h,
        },
{
    match get(doc, "image") {
        None => Ok(String::new()),
        Some(img) => {
            let url = match as_text(get(img, "url")) {
                Some(u) => u,
                None => {
                    return Err(RecipeError::ImageMissingUrl);
                },
            };
            let caption = caption_text(img);
            let mut out = String::from_str("    <figure class=\"recipe-hero\">\n      <img src=\"");
            out.append(url);
            out.append("\" alt=\"");
            out.append(caption.as_str());
            out.append("\" loading=\"lazy\">\n    </figure>\n");
            Ok(out)
        },
    }
}

/// Makes a recipe's page from its draft and its published structured data:
/// the hero image, when the recipe has one, needs a `url`.
pub fn finish_recipe(draft: &RecipeDraft, public_jsonld: &str) -> (r: Result<
    RecipePage,
    RecipeError,
>)
    ensures
        match recipe_hero(draft.public_doc@) {
            Err(e) => r == Err::<RecipePage, RecipeError>(e),
            Ok(hero) => {
                &&& r is Ok
                &&& r->Ok_0.summary.slug@ == draft.slug@
                &&& r->Ok_0.summary.name@ == draft.name@
                &&& r->Ok_0.html_path@ == recipe_html_path(draft.slug@)
                &&& r->Ok_0.html@ == layout_page(
                    draft.name@,
                    recipe_body(
                        draft.name@,
                        hero,
                        draft.ingredients_html@,
                        draft.steps_html@,
                        draft.notes_section@,
                    ),
                    Some(public_jsonld@),
                )
            },
        },
{
    let hero = match hero_html(&draft.public_doc) {
        Ok(h) => h,
        Err(e) => {
            return Err(e);
        },
    };
    let mut body = String::from_str("   <article class=\"recipes\">\n        <section>\n    <h2>");
    body.append(draft.name.as_str());
    body.append("</h2>\n    ");
    body.append(hero.as_str());
    body.append("\n    <h3>Ingredients</h3>\n    <ul>\n    ");
    body.append(draft.ingredients_html.as_str());
    body.append("    </ul>\n    <h3>Steps</h3>\n    <ol>\n    ");
    body.append(draft.steps_html.as_str());
    body.append(" </ol>\n    </section>\n    ");
    body.append(draft.notes_section.as_str());
    body.append(" </article>");
    let html = render_layout(draft.name.as_str(), body.as_str(), Some(public_jsonld));
    let html_path = recipe_path(draft.slug.as_str(), ".html");
    Ok(
        RecipePage {
            summary: RecipeSummary {
                slug: String::from_str(draft.slug.as_str()),
                name: String::from_str(draft.name.as_str()),
            },
            html_path,
            html,
        },
    )
}

/// Publishing a recipe's data drops its slug and nothing else: every other
/// member reads the same with the slug removed.
pub proof fn law_without_slug_keeps_other_members(
    entries: Seq<(Seq<char>, JsonData)>,
    key: Seq<char>,
)
    requires
        key != "slug"@,
    ensures
        entry_value(without_key(entries, "slug"@), key) == entry_value(entries, key),
        entry_value(without_key(entries, "slug"@), "slug"@) is None,
    decreases entries.len(),
{
    if entries.len() > 0 {
        law_without_slug_keeps_other_members(entries.drop_first(), key);
        if entries[0].0 != "slug"@ {
            let w = seq![entries[0]] + without_key(entries.drop_first(), "slug"@);
            assert(w[0] == entries[0]);
            assert(w.drop_first() =~= without_key(entries.drop_first(), "slug"@));
        }
    }
}


/// A recipe's files: its structured data, published beside its page, and the
/// page itself, or why the page cannot be made.
pub struct RecipeFiles {
    pub jsonld_path: String,
    pub jsonld: String,
    pub page: Result<RecipePage, RecipeError>,
}

/// Builds a recipe's files from the text of its JSON-LD: the text must be
/// JSON, the recipe passes the checks of `prepare_recipe`, its structured
/// data without the slug is pretty-printed for the sidecar file and embedded
/// in the page, and the page needs a `url` for its hero image, if any.
pub fn build_recipe(raw: &str) -> (r: Result<RecipeFiles, RecipeError>)
    ensures
        match parsed_json(raw@) {
            Err(m) => r matches Err(RecipeError::InvalidJson(t)) && t@ == m,
            Ok(d) => match recipe_content(d) {
                Err(e) => r == Err::<RecipeFiles, RecipeError>(e),
                Ok((slug, name, ingredients, steps, notes)) => match pretty_json(
                    public_recipe(d),
                ) {
                    None => r == Err::<RecipeFiles, RecipeError>(RecipeError::Unprintable),
                    Some(text) => {
                        &&& r is Ok
                        &&& r->Ok_0.jsonld_path@ == recipe_jsonld_path(slug)
                        &&& r->Ok_0.jsonld@ == text
                        &&& match recipe_hero(public_recipe(d)) {
                            Err(e) => r->Ok_0.page == Err::<RecipePage, RecipeError>(e),
                            Ok(hero) => {
                                &&& r->Ok_0.page is Ok
                                &&& r->Ok_0.page->Ok_0.summary.slug@ == slug
                                &&& r->Ok_0.page->Ok_0.summary.name@ == name
                                &&& r->Ok_0.page->Ok_0.html_path@ == recipe_html_path(slug)
                                &&& r->Ok_0.page->Ok_0.html@ == layout_page(
                                    name,
                                    recipe_body(
                                        name,
                                        hero,
                                        ingredients,
                                        steps,
                                        notes_section(notes),
                                    ),
                                    Some(text),
                                )
                            },
                        }
                    },
                },
            },
        },
{
    let recipe = match parse_json(raw) {
        Ok(v) => v,
        Err(m) => {
            return Err(RecipeError::InvalidJson(m));
        },
    };
    let draft = match prepare_recipe(recipe) {
        Ok(d) => d,
        Err(e) => {
            return Err(e);
        },
    };
    let jsonld = match print_pretty_json(&draft.public_doc) {
        Some(t) => t,
        None => {
            return Err(RecipeError::Unprintable);
        },
    };
    let page = finish_recipe(&draft, jsonld.as_str());
    Ok(RecipeFiles { jsonld_path: draft.jsonld_path, jsonld, page })
}

/// A step's photo shows the image's `contentUrl`, with the image's caption
/// as its alternative text and as its figure caption.
pub proof fn law_step_photo_shows_caption(
    ins: JsonData,
    text: Seq<char>,
    img: JsonData,
    url: Seq<char>,
    caption: Seq<char>,
)
    requires
        json_get(ins, "@type"@) == Some(JsonData::String("HowToStep"@)),
        json_get(ins, "text"@) == Some(JsonData::String(text)),
        json_get(ins, "image"@) == Some(img),
        json_get(img, "contentUrl"@) == Some(JsonData::String(url)),
        json_get(img, "caption"@) == Some(JsonData::String(caption)),
    ensures
        list_entry(ListKind::Steps, ins) == Ok::<Seq<char>, RecipeError>(
            "    <li><p>"@ + text + "</p>"@ + ("\n      <figure class=\"step-photo\">\n        <img src=\""@
                + url + "\" alt=\""@ + caption + "\" loading=\"lazy\">\n        <figcaption>"@
                + caption + "</figcaption>\n      </figure>"@) + "</li>\n"@,
        ),
{
}

/// A step's photo without a string caption has an empty one.
pub proof fn law_step_photo_without_caption(
    ins: JsonData,
    text: Seq<char>,
    img: JsonData,
    url: Seq<char>,
)
    requires
        json_get(ins, "@type"@) == Some(JsonData::String("HowToStep"@)),
        json_get(ins, "text"@) == Some(JsonData::String(text)),
        json_get(ins, "image"@) == Some(img),
        json_get(img, "contentUrl"@) == Some(JsonData::String(url)),
        !(json_get(img, "caption"@) matches Some(JsonData::String(_))),
    ensures
        list_entry(ListKind::Steps, ins) == Ok::<Seq<char>, RecipeError>(
            "    <li><p>"@ + text + "</p>"@ + ("\n      <figure class=\"step-photo\">\n        <img src=\""@
                + url + "\" alt=\""@ + Seq::<char>::empty()
                + "\" loading=\"lazy\">\n        <figcaption>"@ + Seq::<char>::empty()
                + "</figcaption>\n      </figure>"@) + "</li>\n"@,
        ),
{
}

/// The hero photo shows the image's `url`, with the image's caption as its
/// alternative text: the same caption member a step's photo uses.
pub proof fn law_hero_shows_caption(doc: JsonData, img: JsonData, url: Seq<char>, caption: Seq<char>)
    requires
        json_get(doc, "image"@) == Some(img),
        json_get(img, "url"@) == Some(JsonData::String(url)),
        json_get(img, "caption"@) == Some(JsonData::String(caption)),
    ensures
        recipe_hero(doc) == Ok::<Seq<char>, RecipeError>(
            "    <figure class=\"recipe-hero\">\n      <img src=\""@ + url + "\" alt=\""@ + caption
                + "\" loading=\"lazy\">\n    </figure>\n"@,
        ),
{
}

/// A page's lists keep the order of the recipe's items: when the first items
/// give `x`, the list of all of them is `x` followed by the list of the rest,
/// and an error among the rest is the list's error.
pub proof fn law_list_entries_in_order(kind: ListKind, a: Seq<JsonData>, b: Seq<JsonData>)
    requires
        list_entries(kind, a) is Ok,
    ensures
        list_entries(kind, a + b) == (match list_entries(kind, b) {
            Ok(y) => Ok::<Seq<char>, RecipeError>(list_entries(kind, a)->Ok_0 + y),
            Err(e) => Err(e),
        }),
    decreases b.len(),
{
    if b.len() == 0 {
        assert(a + b =~= a);
        assert(list_entries(kind, a)->Ok_0 + Seq::<char>::empty() =~= list_entries(kind, a)->Ok_0);
    } else {
        assert((a + b).drop_last() =~= a + b.drop_last());
        assert((a + b).last() == b.last());
        law_list_entries_in_order(kind, a, b.drop_last());
        match list_entries(kind, b.drop_last()) {
            Ok(y) => {
                match list_entry(kind, b.last()) {
                    Ok(z) => {
                        assert(list_entries(kind, a)->Ok_0 + y + z =~= list_entries(kind, a)->Ok_0
                            + (y + z));
                    },
                    Err(_) => {},
                }
            },
            Err(_) => {},
        }
    }
}

} // verus!
