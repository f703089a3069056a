use vstd::prelude::*;

use crate::json::{
    data_of, data_of_entries, data_of_items, decimal, decimal_text, lemma_data_of_entries,
    lemma_data_of_items, pretty_json, print_pretty_json, JsonData, JsonValue,
};
use crate::text::{
    compare_text, lemma_text_less_irreflexive, lemma_text_less_transitive, text_less, TextOrder,
};

verus! {

/// What the recipes index needs to know of one recipe.
#[derive(Clone, Debug)]
pub struct RecipeSummary {
    pub slug: String,
    pub name: String,
}

/// One entry of the recipes index.
pub open spec fn recipe_entry(r: RecipeSummary) -> Seq<char> {
    "\n                <li><a href=\"./"@ + r.slug@ + ".html\">"@ + r.name@
        + "</a></li>\n            "@
}

/// The entries of the recipes index, in the given order.
pub open spec fn recipe_entries(s: Seq<RecipeSummary>) -> Seq<char>
    decreases s.len(),
{
    if s.len() == 0 {
        Seq::empty()
    } else {
        recipe_entries(s.drop_last()) + recipe_entry(s.last())
    }
}

/// The recipes index page body.
pub open spec fn recipes_index(s: Seq<RecipeSummary>) -> Seq<char> {
    "\n            <article class=\"recipes\">\n            <section>\n            <h2>Recipes</h2>\n            <ul>\n            "@
        + recipe_entries(s)
        + "\n            </ul>\n            </section>\n            </article>\n        "@
}

/// Lists the recipes with links to their pages, in the given order.
pub fn render_recipes_index(recipes: &[RecipeSummary]) -> (r: String)
    ensures
        r@ == recipes_index(recipes@),
{
    let mut list_html = String::new();
    let mut i: usize = 0;
    while i < recipes.len()
        invariant
            i <= recipes@.len(),
            list_html@ == recipe_entries(recipes@.take(i as int)),
        decreases recipes@.len() - i,
    {
        let recipe = &recipes[i];
        list_html.append("\n                <li><a href=\"./");
        list_html.append(recipe.slug.as_str());
        list_html.append(".html\">");
        list_html.append(recipe.name.as_str());
        list_html.append("</a></li>\n            ");
        assert(recipes@.take(i + 1).drop_last() =~= recipes@.take(i as int));
        i = i + 1;
    }
    assert(recipes@.take(recipes@.len() as int) =~= recipes@);
    let mut out = String::from_str(
        "\n            <article class=\"recipes\">\n            <section>\n            <h2>Recipes</h2>\n            <ul>\n            ",
    );
    out.append(list_html.as_str());
    out.append("\n            </ul>\n            </section>\n            </article>\n        ");
    out
}

/// The item of the recipes list at `index`, as structured data.
pub open spec fn recipe_list_item(index: int, r: RecipeSummary) -> JsonData {
    JsonData::Object(
        seq![
            ("@type"@, JsonData::String("ListItem"@)),
            ("position"@, JsonData::Number(decimal_text((index + 1) as nat))),
            ("url"@, JsonData::String("./"@ + r.slug@ + ".html"@)),
            ("name"@, JsonData::String(r.name@)),
        ],
    )
}

/// The recipes as a schema.org item list, numbered from 1.
pub open spec fn recipes_item_list(recipes: Seq<RecipeSummary>) -> JsonData {
    JsonData::Object(
        seq![
            ("@context"@, JsonData::String("https://schema.org"@)),
            ("@type"@, JsonData::String("ItemList"@)),
            ("name"@, JsonData::String("Recipes"@)),
            (
                "itemListElement"@,
                JsonData::Array(
                    Seq::new(recipes.len(), |i: int| recipe_list_item(i, recipes[i])),
                ),
            ),
        ],
    )
}

fn text_value(s: &str) -> (r: JsonValue)
    ensures
        r@ == JsonData::String(s@),
{
    JsonValue::String(String::from_str(s))
}

fn entry(key: &str, value: JsonValue) -> (r: (String, JsonValue))
    ensures
        r.0@ == key@,
        r.1 == value,
{
    (String::from_str(key), value)
}

/// The content of an object built from exactly these entries.
proof fn lemma_object_of_four(entries: Seq<(String, JsonValue)>)
    requires
        entries.len() == 4,
    ensures
        data_of_entries(entries) =~= seq![
            (entries[0].0@, data_of(entries[0].1)),
            (entries[1].0@, data_of(entries[1].1)),
            (entries[2].0@, data_of(entries[2].1)),
            (entries[3].0@, data_of(entries[3].1)),
        ],
{
    lemma_data_of_entries(entries);
}

fn list_item(index: usize, recipe: &RecipeSummary) -> (r: JsonValue)
    requires
        index < usize::MAX,
    ensures
        r@ == recipe_list_item(index as int, *recipe),
{
    let mut url = String::from_str("./");
    url.append(recipe.slug.as_str());
    url.append(".html");
    let mut entries: Vec<(String, JsonValue)> = Vec::new();
    entries.push(entry("@type", text_value("ListItem")));
    entries.push(entry("position", JsonValue::Number(decimal(index + 1))));
    entries.push(entry("url", JsonValue::String(url)));
    entries.push(entry("name", text_value(recipe.name.as_str())));
    proof {
        lemma_object_of_four(entries@);
    }
    JsonValue::Object(entries)
}

/// The structured data of the recipes index: a schema.org `ItemList` whose
/// items link the recipes in the given order, numbered from 1.
pub fn recipes_index_jsonld(recipes: &[RecipeSummary]) -> (r: JsonValue)
    ensures
        r@ == recipes_item_list(recipes@),
{
    let mut items: Vec<JsonValue> = Vec::new();
    let mut i: usize = 0;
    while i < recipes.len()
        invariant
            i <= recipes@.len(),
            items@.len() == i,
            forall|j: int|
                0 <= j < i ==> #[trigger] data_of(items@[j]) == recipe_list_item(j, recipes@[j]),
        decreases recipes@.len() - i,
    {
        items.push(list_item(i, &recipes[i]));
        i = i + 1;
    }
    proof {
        lemma_data_of_items(items@);
        assert(data_of_items(items@) =~= Seq::new(
            recipes@.len(),
            |j: int| recipe_list_item(j, recipes@[j]),
        ));
    }
    let mut entries: Vec<(String, JsonValue)> = Vec::new();
    entries.push(entry("@context", text_value("https://schema.org")));
    entries.push(entry("@type", text_value("ItemList")));
    entries.push(entry("name", text_value("Recipes")));
    entries.push(entry("itemListElement", JsonValue::Array(items)));
    proof {
        lemma_object_of_four(entries@);
    }
    JsonValue::Object(entries)
}

/// The recipes index's structured data as serde_json pretty-prints it;
/// nothing when it does not print.
pub fn render_recipes_index_jsonld(recipes: &[RecipeSummary]) -> (r: Option<String>)
    ensures
        match pretty_json(recipes_item_list(recipes@)) {
            Some(t) => r matches Some(s) && s@ == t,
            None => r is None,
        },
{
    let doc = recipes_index_jsonld(recipes);
    print_pretty_json(&doc)
}

/// No recipe is listed after one whose name comes first.
pub open spec fn is_by_name(s: Seq<RecipeSummary>) -> bool {
    forall|i: int, j: int|
        0 <= i < j < s.len() ==> !text_less(#[trigger] s[j].name@, #[trigger] s[i].name@)
}

/// `out` holds the recipes of `input`, each exactly once (`out[i]` is
/// `input[p[i]]`), and recipes of the same name keep their relative order.
pub open spec fn is_stable_recipe_arrangement(
    out: Seq<RecipeSummary>,
    input: Seq<RecipeSummary>,
    p: Seq<int>,
) -> bool {
    &&& out.len() == input.len()
    &&& p.len() == input.len()
    &&& forall|i: int| 0 <= i < p.len() ==> 0 <= #[trigger] p[i] < input.len()
    &&& forall|i: int, j: int| 0 <= i < j < p.len() ==> #[trigger] p[i] != #[trigger] p[j]
    &&& forall|i: int| 0 <= i < out.len() ==> #[trigger] out[i] == input[p[i]]
    &&& forall|i: int, j: int|
        0 <= i < j < out.len() && (#[trigger] out[i]).name@ == (#[trigger] out[j]).name@
            ==> p[i] < p[j]
}

/// Whether the name of `a` comes before the name of `b`.
fn name_comes_first(a: &RecipeSummary, b: &RecipeSummary) -> (r: bool)
    ensures
        r == text_less(a.name@, b.name@),
{
    match compare_text(a.name.as_str(), b.name.as_str()) {
        TextOrder::Less => true,
        _ => false,
    }
}

/// Sorts recipes by name. The sort is stable: recipes with the same name
/// keep their order.
pub fn sort_recipes_by_name(recipes: &mut Vec<RecipeSummary>)
    ensures
        is_by_name(final(recipes)@),
        exists|p: Seq<int>| is_stable_recipe_arrangement(final(recipes)@, old(recipes)@, p),
{
    let ghost input = recipes@;
    let mut rest: Vec<RecipeSummary> = Vec::new();
    std::mem::swap(&mut rest, recipes);
    let mut out: Vec<RecipeSummary> = Vec::new();
    let ghost mut p: Seq<int> = Seq::empty();
    let ghost mut k: int = 0;
    while rest.len() > 0
        invariant
            0 <= k <= input.len(),
            rest@ == input.skip(k),
            out@.len() == k,
            is_by_name(out@),
            p.len() == k,
            forall|i: int| 0 <= i < p.len() ==> 0 <= #[trigger] p[i] < k,
            forall|i: int, j: int| 0 <= i < j < p.len() ==> #[trigger] p[i] != #[trigger] p[j],
            forall|i: int| 0 <= i < out@.len() ==> #[trigger] out@[i] == input[p[i]],
            forall|i: int, j: int|
                0 <= i < j < out@.len() && (#[trigger] out@[i]).name@ == (#[trigger] out@[j]).name@
                    ==> p[i] < p[j],
        decreases rest.len(),
    {
        let x = rest.remove(0);
        assert(x == input[k]);
        let mut pos: usize = 0;
        while pos < out.len() && !name_comes_first(&x, &out[pos])
            invariant
                pos <= out@.len(),
                forall|j: int| 0 <= j < pos ==> !text_less(x.name@, #[trigger] out@[j].name@),
            decreases out@.len() - pos,
        {
            pos = pos + 1;
        }
        let ghost old_out = out@;
        let ghost old_p = p;
        proof {
            assert forall|j: int| pos <= j < old_out.len() implies !text_less(
                #[trigger] old_out[j].name@,
                x.name@,
            ) && old_out[j].name@ != x.name@ by {
                lemma_text_less_irreflexive(old_out[j].name@);
                lemma_text_less_irreflexive(x.name@);
                if j > pos {
                    if text_less(old_out[j].name@, x.name@) {
                        lemma_text_less_transitive(
                            old_out[j].name@,
                            x.name@,
                            old_out[pos as int].name@,
                        );
                    }
                } else {
                    if text_less(old_out[j].name@, x.name@) {
                        lemma_text_less_transitive(x.name@, old_out[j].name@, x.name@);
                    }
                }
            }
        }
        out.insert(pos, x);
        proof {
            p = old_p.insert(pos as int, k);
            assert(input.skip(k).drop_first() =~= input.skip(k + 1));
            assert forall|i: int, j: int| 0 <= i < j < out@.len() implies !text_less(
                #[trigger] out@[j].name@,
                #[trigger] out@[i].name@,
            ) by {
                if j > pos {
                    assert(out@[j] == old_out[j - 1]);
                }
                if i > pos {
                    assert(out@[i] == old_out[i - 1]);
                }
            }
            assert forall|i: int, j: int|
                0 <= i < j < out@.len() && (#[trigger] out@[i]).name@ == (
                #[trigger] out@[j]).name@ implies p[i] < p[j] by {
                if j > pos {
                    assert(out@[j] == old_out[j - 1]);
                }
                if i > pos {
                    assert(out@[i] == old_out[i - 1]);
                }
            }
            assert forall|i: int| 0 <= i < out@.len() implies #[trigger] out@[i] == input[p[i]] by {
                if i > pos {
                    assert(out@[i] == old_out[i - 1]);
                }
            }
            k = k + 1;
        }
    }
    assert(is_stable_recipe_arrangement(out@, input, p));
    *recipes = out;
}

/// The recipes index lists its recipes in the given order: the entries of two
/// lists one after the other are the entries of the first, then those of the
/// second.
pub proof fn law_recipe_entries_in_order(a: Seq<RecipeSummary>, b: Seq<RecipeSummary>)
    ensures
        recipe_entries(a + b) == recipe_entries(a) + recipe_entries(b),
    decreases b.len(),
{
    if b.len() == 0 {
        assert(a + b =~= a);
        assert(recipe_entries(a) + recipe_entries(b) =~= recipe_entries(a));
    } else {
        assert((a + b).drop_last() =~= a + b.drop_last());
        assert((a + b).last() == b.last());
        law_recipe_entries_in_order(a, b.drop_last());
        assert(recipe_entries(a + b) =~= recipe_entries(a) + recipe_entries(b));
    }
}

/// A recipe's entry in the index: a list item that links its page by slug and
/// shows its name.
pub proof fn law_recipe_entry_links_page(r: RecipeSummary)
    ensures
        recipe_entries(seq![r]) == "\n                <li><a href=\"./"@ + r.slug@ + ".html\">"@
            + r.name@ + "</a></li>\n            "@,
{
    let one = seq![r];
    assert(one.len() == 1);
    assert(one.drop_last() =~= Seq::<RecipeSummary>::empty());
    assert(one.last() == r);
    assert(recipe_entries(one.drop_last()) == Seq::<char>::empty());
    assert(recipe_entries(one) == recipe_entries(one.drop_last()) + recipe_entry(r));
    assert(recipe_entries(one) =~= recipe_entry(r));
}

} // verus!
