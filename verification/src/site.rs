use vstd::prelude::*;

use crate::layout::{SITE_DESCRIPTION, SITE_NAME, SITE_URL};
use crate::posts::PostSummary;
use crate::recipes::RecipeSummary;

verus! {

/// A recipe's line in `llms.txt`: its page and its structured data.
pub open spec fn llms_recipe_line(r: RecipeSummary) -> Seq<char> {
    "- ["@ + r.name@ + "]("@ + SITE_URL@ + "/recipes/"@ + r.slug@ + ".html) - [JSON-LD]("@
        + SITE_URL@ + "/recipes/"@ + r.slug@ + ".jsonld)\n"@
}

/// A writing's line in `llms.txt`.
pub open spec fn llms_post_line(p: PostSummary) -> Seq<char> {
    "- ["@ + p.title@ + "]("@ + SITE_URL@ + "/writings/"@ + p.slug@ + ".html)\n"@
}

/// The recipes' lines, in the given order.
pub open spec fn llms_recipe_lines(s: Seq<RecipeSummary>) -> Seq<char>
    decreases s.len(),
{
    if s.len() == 0 {
        Seq::empty()
    } else {
        llms_recipe_lines(s.drop_last()) + llms_recipe_line(s.last())
    }
}

/// The writings' lines, in the given order.
pub open spec fn llms_post_lines(s: Seq<PostSummary>) -> Seq<char>
    decreases s.len(),
{
    if s.len() == 0 {
        Seq::empty()
    } else {
        llms_post_lines(s.drop_last()) + llms_post_line(s.last())
    }
}

/// The text of `llms.txt`: the site, its pages, its recipes and its writings.
pub open spec fn llms_txt(recipes: Seq<RecipeSummary>, posts: Seq<PostSummary>) -> Seq<char> {
    "# "@ + SITE_NAME@ + "\n\n"@ + SITE_DESCRIPTION@ + "\n            \n## Pages\n\n- [About]("@
        + SITE_URL@ + "/about)\n- [Recipes]("@ + SITE_URL@ + "/recipes/)\n- [Writings]("@
        + SITE_URL@ + "/writings/)\n- [Readings]("@ + SITE_URL@
        + "/readings/index.html)\n\n## Recipes\n\nRecipe pages include embedded Schema.org JSON-LD. Sidecar JSON-LD files are available next to each recipe page.\n\n"@
        + llms_recipe_lines(recipes) + "\n\n## Writings\n\n"@ + llms_post_lines(posts)
        + "\n\n## Readings\n\n- [Readings]("@ + SITE_URL@ + "/readings/index.html)\n        "@
}

/// Describes the site for language models: its pages, then each recipe and
/// each writing with a link, in the given orders.
pub fn render_llms_txt(recipes: &[RecipeSummary], posts: &[PostSummary]) -> (r: String)
    ensures
        r@ == llms_txt(recipes@, posts@),
{
    let mut recipe_lines = String::new();
    let mut i: usize = 0;
    while i < recipes.len()
        invariant
            i <= recipes@.len(),
            recipe_lines@ == llms_recipe_lines(recipes@.take(i as int)),
        decreases recipes@.len() - i,
    {
        let recipe = &recipes[i];
        recipe_lines.append("- [");
        recipe_lines.append(recipe.name.as_str());
        recipe_lines.append("](");
        recipe_lines.append(SITE_URL);
        recipe_lines.append("/recipes/");
        recipe_lines.append(recipe.slug.as_str());
        recipe_lines.append(".html) - [JSON-LD](");
        recipe_lines.append(SITE_URL);
        recipe_lines.append("/recipes/");
        recipe_lines.append(recipe.slug.as_str());
        recipe_lines.append(".jsonld)\n");
        assert(recipes@.take(i + 1).drop_last() =~= recipes@.take(i as int));
        i = i + 1;
    }
    assert(recipes@.take(recipes@.len() as int) =~= recipes@);
    let mut post_lines = String::new();
    let mut j: usize = 0;
    while j < posts.len()
        invariant
            j <= posts@.len(),
            post_lines@ == llms_post_lines(posts@.take(j as int)),
        decreases posts@.len() - j,
    {
        let post = &posts[j];
        post_lines.append("- [");
        post_lines.append(post.title.as_str());
        post_lines.append("](");
        post_lines.append(SITE_URL);
        post_lines.append("/writings/");
        post_lines.append(post.slug.as_str());
        post_lines.append(".html)\n");
        assert(posts@.take(j + 1).drop_last() =~= posts@.take(j as int));
        j = j + 1;
    }
    assert(posts@.take(posts@.len() as int) =~= posts@);
    let mut out = String::from_str("# ");
    out.append(SITE_NAME);
    out.append("\n\n");
    out.append(SITE_DESCRIPTION);
    out.append("\n            \n## Pages\n\n- [About](");
    out.append(SITE_URL);
    out.append("/about)\n- [Recipes](");
    out.append(SITE_URL);
    out.append("/recipes/)\n- [Writings](");
    out.append(SITE_URL);
    out.append("/writings/)\n- [Readings](");
    out.append(SITE_URL);
    out.append(
        "/readings/index.html)\n\n## Recipes\n\nRecipe pages include embedded Schema.org JSON-LD. Sidecar JSON-LD files are available next to each recipe page.\n\n",
    );
    out.append(recipe_lines.as_str());
    out.append("\n\n## Writings\n\n");
    out.append(post_lines.as_str());
    out.append("\n\n## Readings\n\n- [Readings](");
    out.append(SITE_URL);
    out.append("/readings/index.html)\n        ");
    out
}

/// `llms.txt` lists recipes and writings in the given order: the lines of two
/// lists one after the other are those of the first, then those of the second.
pub proof fn law_llms_lines_in_order(
    a: Seq<RecipeSummary>,
    b: Seq<RecipeSummary>,
    c: Seq<PostSummary>,
    d: Seq<PostSummary>,
)
    ensures
        llms_recipe_lines(a + b) == llms_recipe_lines(a) + llms_recipe_lines(b),
        llms_post_lines(c + d) == llms_post_lines(c) + llms_post_lines(d),
    decreases b.len() + d.len(),
{
    if b.len() > 0 {
        assert((a + b).drop_last() =~= a + b.drop_last());
        assert((a + b).last() == b.last());
        law_llms_lines_in_order(a, b.drop_last(), c, d);
        assert(llms_recipe_lines(a + b) =~= llms_recipe_lines(a) + llms_recipe_lines(b));
    } else {
        assert(a + b =~= a);
        assert(llms_recipe_lines(a) + llms_recipe_lines(b) =~= llms_recipe_lines(a));
    }
    if d.len() > 0 {
        assert((c + d).drop_last() =~= c + d.drop_last());
        assert((c + d).last() == d.last());
        law_llms_lines_in_order(a, b, c, d.drop_last());
        assert(llms_post_lines(c + d) =~= llms_post_lines(c) + llms_post_lines(d));
    } else {
        assert(c + d =~= c);
        assert(llms_post_lines(c) + llms_post_lines(d) =~= llms_post_lines(c));
    }
}

} // verus!
