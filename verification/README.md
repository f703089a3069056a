# field_bobbin

The generator of a small static site (recipes, writings, readings), written as
a Verus library with a thin program around it.

- `src/` is the verified library. It checks and renders recipes from their
  schema.org JSON-LD, reads writings (a meta line, then a Djot body), validates
  and formats their dates, sorts writings newest first, and renders the index
  pages, the page layout and `llms.txt`. Every function states exactly what it
  returns; Djot is rendered by jotdown, and JSON is parsed and pretty-printed
  by serde_json, behind trusted functions.
  - `text`: text order, search, line splitting.
  - `dates`: calendar dates `YYYY-MM-DD` and how they are shown.
  - `posts`: writings' summaries, their order and the writings index.
  - `writing`: a writing's meta line, title and page.
  - `json`: the JSON values the recipe logic reads, and the calls into serde_json.
  - `recipes`: recipe summaries, the recipes index and its structured data.
  - `recipe_page`: a recipe's checks, its page and its published JSON-LD.
  - `layout`, `site`: the page layout and `llms.txt`.
  - `djot`: the call into jotdown.
- `app/main.rs` reads and writes the files and calls the library.
- `tests/` runs the library on concrete inputs.
