# blog

A small static site generator. Posts are Markdown files that open with TOML front
matter fenced by `+++`; each becomes an HTML page in the site frame, and an index page
lists them newest first.

- `src/` is the verified library (Verus): splitting front matter (`front_matter`), the
  front matter model (`config`), the JSON data that templates are rendered with (`json`),
  the page frame and HTML escaping (`html`), post and comment rendering (`render`), the
  index page (`index`), and the file decisions of a build (`files`).
- `app/main.rs` is the command-line program: it reads the content directory, parses the
  front matter with `toml`, calls the library, writes the pages and copies static files.
- `tests/` exercises the library.

Templates are rendered only when they hold no Handlebars partial inclusion (`{{>`,
`{{#>` and their whitespace-controlled forms): an inline partial that includes itself
never finishes rendering. Such posts, and comment scripts, are reported by the `try_`
functions as `None`; partials that would have rendered are refused too.
