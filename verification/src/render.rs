//! Turning a post (its front matter and its Markdown body) into a page.
use vstd::prelude::*;

use crate::config::BlogPostConfig;
use crate::html::{page, template};
use crate::json::{context_json, context_json_of};
use crate::partial::{first_partial, is_partial_free, lemma_first_partial_none, partial_free};

verus! {

/// The HTML that `pulldown_cmark` renders for a Markdown text.
pub uninterp spec fn markdown_html(markdown: Seq<char>) -> Seq<char>;

/// Renders Markdown to HTML with `pulldown_cmark`: `Parser::new` over the text, then
/// `html::push_html` into an empty string. The contract names the result
/// (`markdown_html`) and says nothing more of it.
#[verifier::external_body]
fn markdown_to_html(markdown: &str) -> (html: String)
    ensures
        html@ == markdown_html(markdown@),
{
    let mut html = String::new();
    pulldown_cmark::html::push_html(&mut html, pulldown_cmark::Parser::new(markdown));
    html
}

/// What `Handlebars::new().render_template(template, &data)` gives, where `data` is the
/// JSON value that `context` is the text of: `Ok` of the rendered text, or `Err` of the
/// error's message (`to_string` of the `RenderError`, or of the `serde_json` error when
/// `context` is no JSON text).
pub uninterp spec fn handlebars_render(template: Seq<char>, context: Seq<char>) -> Result<
    Seq<char>,
    Seq<char>,
>;

/// Why a template could not be rendered: the message `handlebars` gave.
#[derive(Debug)]
pub struct RenderFailure {
    pub message: String,
}

/// Renders a Handlebars template with a fresh `handlebars::Handlebars` registry (default
/// settings: HTML escaping, no strict mode). The data is the JSON value parsed by
/// `serde_json::from_str` from `context`; an error comes back as its message. The
/// contract ties the outcome to the name `handlebars_render`. Templates that hold a
/// partial inclusion are left out: an inline partial that includes itself makes
/// Handlebars recurse until the stack overflows.
#[verifier::external_body]
fn render_template(template: &str, context: &str) -> (res: Result<String, RenderFailure>)
    requires
        partial_free(template@),
    ensures
        match res {
            Ok(s) => handlebars_render(template@, context@) == Ok::<Seq<char>, Seq<char>>(s@),
            Err(e) => handlebars_render(template@, context@) == Err::<Seq<char>, Seq<char>>(
                e.message@,
            ),
        },
{
    let data: handlebars::JsonValue = serde_json::from_str(context).map_err(
        |e| RenderFailure { message: e.to_string() },
    )?;
    handlebars::Handlebars::new().render_template(template, &data).map_err(
        |e| RenderFailure { message: e.to_string() },
    )
}

/// The header of every post: the quote and the picture named in the front matter.
pub const POST_HEADER_TEMPLATE: &'static str = "<div style=\"float:right; max-width: 25%;\"><blockquote><p>{{extra.miku_q}}</p></blockquote><img style=\"\" src=\"{{extra.miku_img}}.png\"></img></div>";

/// The post header holds no partial inclusion.
pub proof fn lemma_header_partial_free()
    ensures
        partial_free(POST_HEADER_TEMPLATE@),
{
    reveal_strlit("<div style=\"float:right; max-width: 25%;\"><blockquote><p>{{extra.miku_q}}</p></blockquote><img style=\"\" src=\"{{extra.miku_img}}.png\"></img></div>");
    reveal_with_fuel(first_partial, 13);
    let t = POST_HEADER_TEMPLATE@;
    assert(first_partial(t, 145) is None);
    assert(first_partial(t, 133) is None);
    assert(first_partial(t, 121) is None);
    assert(first_partial(t, 109) is None);
    assert(first_partial(t, 97) is None);
    assert(first_partial(t, 85) is None);
    assert(first_partial(t, 73) is None);
    assert(first_partial(t, 61) is None);
    assert(first_partial(t, 49) is None);
    assert(first_partial(t, 37) is None);
    assert(first_partial(t, 25) is None);
    assert(first_partial(t, 13) is None);
    assert(first_partial(t, 1) is None);
    assert(first_partial(t, 0) is None);
    lemma_first_partial_none(t, 0);
    assert forall|i: int| !#[trigger] crate::partial::partial_at(t, i) by {
        if i >= 0 {
        }
    }
}

/// What stands under a post whose comments are switched off.
pub const COMMENTS_DISABLED: &'static str = "<div>comments are disabled</div>";

/// Opens the comment script.
pub const COMMENTS_SCRIPT_OPEN: &'static str = "<script type=\"text/javascript\">";

/// Closes the comment script.
pub const COMMENTS_SCRIPT_CLOSE: &'static str = "</script>";

/// The button that loads the comments of the post's Mastodon thread.
pub const LOAD_COMMENTS_BUTTON: &'static str = "<button class=\"bg-blue-500 hover:bg-blue-700 text-white font-bold py-2 px-4 rounded\" onclick=\"load_comments('{{extra.postid}}')\">Load Mastodon Comments</button>";

/// The comments template: the comment script, then the load button when the post has
/// a Mastodon post id.
pub open spec fn comments_template(postid: Seq<char>, script: Seq<char>) -> Seq<char> {
    COMMENTS_SCRIPT_OPEN@ + script + COMMENTS_SCRIPT_CLOSE@ + (if postid.len() > 0 {
        LOAD_COMMENTS_BUTTON@
    } else {
        Seq::<char>::empty()
    })
}

/// The comments template is the script tag's opening, the comment script itself
/// (unescaped, since a browser does not decode entities inside a script), the closing
/// tag, and then the load button exactly when there is a Mastodon post id.
pub proof fn lemma_comments_template_parts(postid: Seq<char>, script: Seq<char>)
    ensures
        ({
            let t = comments_template(postid, script);
            let o = COMMENTS_SCRIPT_OPEN@.len() as int;
            let c = o + script.len() + COMMENTS_SCRIPT_CLOSE@.len();
            &&& t.subrange(0, o) == COMMENTS_SCRIPT_OPEN@
            &&& t.subrange(o, o + script.len()) == script
            &&& t.subrange(o + script.len(), c) == COMMENTS_SCRIPT_CLOSE@
            &&& postid.len() == 0 ==> t.len() == c
            &&& postid.len() > 0 ==> t.subrange(c, t.len() as int) == LOAD_COMMENTS_BUTTON@
        }),
{
    let t = comments_template(postid, script);
    let o = COMMENTS_SCRIPT_OPEN@.len() as int;
    let c = o + script.len() + COMMENTS_SCRIPT_CLOSE@.len();
    assert(t.subrange(0, o) =~= COMMENTS_SCRIPT_OPEN@);
    assert(t.subrange(o, o + script.len()) =~= script);
    assert(t.subrange(o + script.len(), c) =~= COMMENTS_SCRIPT_CLOSE@);
    if postid.len() > 0 {
        assert(t.subrange(c, t.len() as int) =~= LOAD_COMMENTS_BUTTON@);
    }
}

/// The comments template of a post holds no partial inclusion and renders (always so
/// when comments are switched off).
pub open spec fn comments_ok(c: BlogPostConfig, script: Seq<char>) -> bool {
    c.extra.comments ==> {
        &&& partial_free(comments_template(c.extra.postid@, script))
        &&& handlebars_render(comments_template(c.extra.postid@, script), context_json(c)) is Ok
    }
}

/// The comments markup under a post.
pub open spec fn comments_markup(c: BlogPostConfig, script: Seq<char>) -> Seq<char> {
    if c.extra.comments {
        match handlebars_render(comments_template(c.extra.postid@, script), context_json(c)) {
            Ok(s) => s,
            Err(_) => Seq::empty(),
        }
    } else {
        COMMENTS_DISABLED@
    }
}

/// With comments switched off, the comments are the fixed notice, whatever the comment
/// script and the post id.
pub proof fn lemma_comments_off_is_notice(c: BlogPostConfig, script: Seq<char>, other: Seq<char>)
    requires
        !c.extra.comments,
    ensures
        comments_markup(c, script) == COMMENTS_DISABLED@,
        comments_markup(c, script) == comments_markup(c, other),
        comments_ok(c, script),
{
}

fn comments_source(postid: &str, script: &str) -> (s: String)
    ensures
        s@ == comments_template(postid@, script@),
{
    let mut s = String::from_str(COMMENTS_SCRIPT_OPEN);
    s.append(script);
    s.append(COMMENTS_SCRIPT_CLOSE);
    if !postid.is_empty() {
        s.append(LOAD_COMMENTS_BUTTON);
    }
    s
}

/// Whether the comments template of a post holds no partial and renders;
/// `mastodon_comments` needs it.
pub fn comments_render_ok(config: &BlogPostConfig, script: &str) -> (ok: bool)
    ensures
        ok == comments_ok(*config, script@),
{
    if !config.extra.comments {
        return true;
    }
    let source = comments_source(config.extra.postid.as_str(), script);
    if !is_partial_free(source.as_str()) {
        return false;
    }
    let context = context_json_of(config);
    render_template(source.as_str(), context.as_str()).is_ok()
}

/// The comments under a post: a notice when they are switched off, else the comment
/// script (`script`, the site's comment loader) and, when the post has a Mastodon post id,
/// a button that loads them, rendered as a template with the front matter.
pub fn mastodon_comments(config: &BlogPostConfig, script: &str) -> (html: String)
    requires
        comments_ok(*config, script@),
    ensures
        html@ == comments_markup(*config, script@),
{
    if !config.extra.comments {
        return String::from_str(COMMENTS_DISABLED);
    }
    let source = comments_source(config.extra.postid.as_str(), script);
    let context = context_json_of(config);
    match render_template(source.as_str(), context.as_str()) {
        Ok(html) => html,
        Err(_) => {
            assert(false);
            String::new()
        },
    }
}

/// `mastodon_comments` where the comments template holds no partial and renders, `None`
/// where it does not.
pub fn try_mastodon_comments(config: &BlogPostConfig, script: &str) -> (res: Option<String>)
    ensures
        res is None <==> !comments_ok(*config, script@),
        res matches Some(html) ==> html@ == comments_markup(*config, script@),
{
    if comments_render_ok(config, script) {
        Some(mastodon_comments(config, script))
    } else {
        None
    }
}

/// The post header rendered with the front matter.
pub open spec fn header_render(c: BlogPostConfig) -> Result<Seq<char>, Seq<char>> {
    handlebars_render(POST_HEADER_TEMPLATE@, context_json(c))
}

/// The post source before its final rendering: the rendered header, the HTML of the
/// body, and the comments; the header's error when the header does not render.
pub open spec fn post_source(c: BlogPostConfig, body_html: Seq<char>, script: Seq<char>) -> Result<
    Seq<char>,
    Seq<char>,
> {
    match header_render(c) {
        Ok(header) => Ok(header + body_html + comments_markup(c, script)),
        Err(e) => Err(e),
    }
}

/// A post rendered: its source rendered once more as a template with its front matter
/// (so that the Markdown may use `{{title}}` and the like).
pub open spec fn rendered_post(c: BlogPostConfig, markdown: Seq<char>, script: Seq<char>) -> Result<
    Seq<char>,
    Seq<char>,
> {
    match post_source(c, markdown_html(markdown), script) {
        Ok(source) => handlebars_render(source, context_json(c)),
        Err(e) => Err(e),
    }
}

/// Whatever the comments setting, the post source is the rendered header, then the
/// body's HTML unchanged, then the comments markup; and when the header does not
/// render, its error is the outcome.
pub proof fn lemma_post_source_parts(c: BlogPostConfig, body_html: Seq<char>, script: Seq<char>)
    ensures
        match handlebars_render(POST_HEADER_TEMPLATE@, context_json(c)) {
            Ok(h) => post_source(c, body_html, script) matches Ok(src) && {
                &&& src.subrange(0, h.len() as int) == h
                &&& src.subrange(h.len() as int, (h.len() + body_html.len()) as int) == body_html
                &&& src.subrange((h.len() + body_html.len()) as int, src.len() as int) == comments_markup(
                    c,
                    script,
                )
            },
            Err(e) => post_source(c, body_html, script) == Err::<Seq<char>, Seq<char>>(e),
        },
{
    if let Ok(h) = handlebars_render(POST_HEADER_TEMPLATE@, context_json(c)) {
        let src = h + body_html + comments_markup(c, script);
        assert(src.subrange(0, h.len() as int) =~= h);
        assert(src.subrange(h.len() as int, (h.len() + body_html.len()) as int) =~= body_html);
        assert(src.subrange((h.len() + body_html.len()) as int, src.len() as int) =~= comments_markup(
            c,
            script,
        ));
    }
}

/// Whatever the comments setting, a post is rendered by rendering its source once more as
/// a template with the front matter; and when the source fails, its error is the outcome.
pub proof fn lemma_rendered_post_renders_source(c: BlogPostConfig, markdown: Seq<char>, script: Seq<char>)
    ensures
        match post_source(c, markdown_html(markdown), script) {
            Ok(src) => rendered_post(c, markdown, script) == handlebars_render(src, context_json(c)),
            Err(e) => rendered_post(c, markdown, script) == Err::<Seq<char>, Seq<char>>(e),
        },
{
}

/// Rendering the post reaches the comments only after its header rendered; the comments
/// template must render there.
pub open spec fn render_panic_free(c: BlogPostConfig, script: Seq<char>) -> bool {
    header_render(c) is Ok ==> comments_ok(c, script)
}

/// Rendering the post never meets a comments template that does not render, and the
/// post source it renders last holds no partial inclusion.
pub open spec fn render_safe(c: BlogPostConfig, markdown: Seq<char>, script: Seq<char>) -> bool {
    &&& render_panic_free(c, script)
    &&& post_source(c, markdown_html(markdown), script) matches Ok(source) ==> partial_free(source)
}

/// Whether rendering a post with this front matter and comment script never meets a
/// comments template that does not render.
pub fn render_panic_free_check(config: &BlogPostConfig, script: &str) -> (ok: bool)
    ensures
        ok == render_panic_free(*config, script@),
{
    if !config.extra.comments {
        return true;
    }
    let header_template = String::from_str(POST_HEADER_TEMPLATE);
    let context = context_json_of(config);
    proof {
        lemma_header_partial_free();
    }
    if render_template(header_template.as_str(), context.as_str()).is_err() {
        return true;
    }
    comments_render_ok(config, script)
}

fn post_body(config: &BlogPostConfig, body_html: &str, script: &str) -> (res: Result<
    String,
    RenderFailure,
>)
    requires
        render_panic_free(*config, script@),
    ensures
        match res {
            Ok(s) => post_source(*config, body_html@, script@) == Ok::<Seq<char>, Seq<char>>(s@),
            Err(e) => post_source(*config, body_html@, script@) == Err::<Seq<char>, Seq<char>>(
                e.message@,
            ),
        },
{
    let header_template = String::from_str(POST_HEADER_TEMPLATE);
    let context = context_json_of(config);
    proof {
        lemma_header_partial_free();
    }
    let mut html = render_template(header_template.as_str(), context.as_str())?;
    let comments = mastodon_comments(config, script);
    html.append(body_html);
    html.append(comments.as_str());
    Ok(html)
}

/// Whether rendering a post (front matter, Markdown body, comment script) is safe:
/// it meets no comments template that does not render and no partial inclusion.
pub fn render_safe_check(config: &BlogPostConfig, markdown: &str, script: &str) -> (ok: bool)
    ensures
        ok == render_safe(*config, markdown@, script@),
{
    if !render_panic_free_check(config, script) {
        return false;
    }
    let body_html = markdown_to_html(markdown);
    match post_body(config, body_html.as_str(), script) {
        Ok(source) => is_partial_free(source.as_str()),
        Err(_) => true,
    }
}

fn render_post(config: &BlogPostConfig, markdown: &str, script: &str) -> (res: Result<
    String,
    RenderFailure,
>)
    requires
        render_safe(*config, markdown@, script@),
    ensures
        match res {
            Ok(s) => rendered_post(*config, markdown@, script@) == Ok::<Seq<char>, Seq<char>>(s@),
            Err(e) => rendered_post(*config, markdown@, script@) == Err::<Seq<char>, Seq<char>>(
                e.message@,
            ),
        },
{
    let body_html = markdown_to_html(markdown);
    let source = post_body(config, body_html.as_str(), script)?;
    let context = context_json_of(config);
    render_template(source.as_str(), context.as_str())
}

/// What a page is framed with: the logo markup, the site stylesheet, and the comment
/// loader script.
#[derive(Debug)]
pub struct PageAssets {
    pub logo: String,
    pub style: String,
    pub comments_script: String,
}

/// A blog post as a whole page: `markdown` (the post body, after its front matter
/// `config`) rendered to HTML under the post header and above the comments, rendered
/// with the front matter, and set into the site frame. The front matter is handed back.
/// Posts whose rendering would meet a partial inclusion are left out (see
/// `render_template`).
pub fn blog_post(config: BlogPostConfig, markdown: &str, assets: &PageAssets) -> (res: Result<
    (BlogPostConfig, String),
    RenderFailure,
>)
    requires
        render_safe(config, markdown@, assets.comments_script@),
    ensures
        match res {
            Ok((c, p)) => {
                &&& c == config
                &&& rendered_post(config, markdown@, assets.comments_script@) matches Ok(inner)
                &&& p@ == page(inner, assets.logo@, assets.style@)
            },
            Err(e) => rendered_post(config, markdown@, assets.comments_script@) == Err::<
                Seq<char>,
                Seq<char>,
            >(e.message@),
        },
{
    let rendered = render_post(&config, markdown, assets.comments_script.as_str())?;
    let p = template(rendered.as_str(), assets.logo.as_str(), assets.style.as_str());
    Ok((config, p))
}

/// The about page: `markdown` (the body of the about page, after its front matter
/// `config`) rendered as a post is, without the site frame.
pub fn about(config: &BlogPostConfig, markdown: &str, comments_script: &str) -> (res: Result<
    String,
    RenderFailure,
>)
    requires
        render_safe(*config, markdown@, comments_script@),
    ensures
        match res {
            Ok(s) => rendered_post(*config, markdown@, comments_script@) == Ok::<Seq<char>, Seq<char>>(s@),
            Err(e) => rendered_post(*config, markdown@, comments_script@) == Err::<
                Seq<char>,
                Seq<char>,
            >(e.message@),
        },
{
    render_post(config, markdown, comments_script)
}

/// `about` where its rendering is safe (`render_safe`), `None` where it is not.
pub fn try_about(config: &BlogPostConfig, markdown: &str, comments_script: &str) -> (res: Option<
    Result<String, RenderFailure>,
>)
    ensures
        res is None <==> !render_safe(*config, markdown@, comments_script@),
        res matches Some(r) ==> match r {
            Ok(s) => rendered_post(*config, markdown@, comments_script@) == Ok::<Seq<char>, Seq<char>>(s@),
            Err(e) => rendered_post(*config, markdown@, comments_script@) == Err::<
                Seq<char>,
                Seq<char>,
            >(e.message@),
        },
{
    if render_safe_check(config, markdown, comments_script) {
        Some(about(config, markdown, comments_script))
    } else {
        None
    }
}

/// Post `i` (its path, front matter and Markdown body) renders.
pub open spec fn post_renders(posts: Seq<(String, BlogPostConfig, String)>, assets: PageAssets, i: int) -> bool {
    rendered_post(posts[i].1, posts[i].2@, assets.comments_script@) is Ok
}

/// Every post before `i` renders: rendering a list reaches post `i`.
pub open spec fn reached(posts: Seq<(String, BlogPostConfig, String)>, assets: PageAssets, i: int) -> bool {
    forall|j: int| 0 <= j < i ==> #[trigger] post_renders(posts, assets, j)
}

/// Every post that rendering the list reaches renders safely (`render_safe`).
pub open spec fn posts_render_safe(posts: Seq<(String, BlogPostConfig, String)>, assets: PageAssets) -> bool {
    forall|i: int|
        0 <= i < posts.len() && #[trigger] reached(posts, assets, i) ==> render_safe(
            posts[i].1,
            posts[i].2@,
            assets.comments_script@,
        )
}

/// What rendering a list of posts gives: when every post renders, each post's path and
/// front matter with its page, in order; else the error of the first post that does not
/// render.
pub open spec fn posts_rendered(
    posts: Seq<(String, BlogPostConfig, String)>,
    assets: PageAssets,
    res: Result<Vec<(String, BlogPostConfig, String)>, RenderFailure>,
) -> bool {
    match res {
        Ok(out) => {
            &&& forall|i: int| 0 <= i < posts.len() ==> #[trigger] post_renders(posts, assets, i)
            &&& out@.len() == posts.len()
            &&& forall|i: int|
                0 <= i < posts.len() ==> {
                    &&& (#[trigger] out@[i]).0@ == posts[i].0@
                    &&& out@[i].1 == posts[i].1
                    &&& rendered_post(posts[i].1, posts[i].2@, assets.comments_script@) matches Ok(
                        inner,
                    )
                    &&& out@[i].2@ == page(inner, assets.logo@, assets.style@)
                }
        },
        Err(e) => exists|k: int|
            {
                &&& 0 <= k < posts.len()
                &&& #[trigger] reached(posts, assets, k)
                &&& rendered_post(posts[k].1, posts[k].2@, assets.comments_script@) == Err::<
                    Seq<char>,
                    Seq<char>,
                >(e.message@)
            },
    }
}

/// Renders every post (path, front matter, Markdown body) to a page, keeping its path
/// and front matter; stops at the first post that does not render, with its error.
pub fn render_posts_to_html(posts: &[(String, BlogPostConfig, String)], assets: &PageAssets) -> (res:
    Result<Vec<(String, BlogPostConfig, String)>, RenderFailure>)
    requires
        posts_render_safe(posts@, *assets),
    ensures
        posts_rendered(posts@, *assets, res),
{
    let mut out: Vec<(String, BlogPostConfig, String)> = Vec::new();
    let n = posts.len();
    let mut i: usize = 0;
    while i < n
        invariant
            n == posts@.len(),
            0 <= i <= n,
            posts_render_safe(posts@, *assets),
            out@.len() == i,
            forall|j: int| 0 <= j < i ==> #[trigger] post_renders(posts@, *assets, j),
            forall|j: int|
                0 <= j < i ==> {
                    &&& (#[trigger] out@[j]).0@ == posts@[j].0@
                    &&& out@[j].1 == posts@[j].1
                    &&& rendered_post(posts@[j].1, posts@[j].2@, assets.comments_script@) matches Ok(
                        inner,
                    )
                    &&& out@[j].2@ == page(inner, assets.logo@, assets.style@)
                },
        decreases n - i,
    {
        let post = &posts[i];
        assert(reached(posts@, *assets, i as int));
        match blog_post(post.1.duplicate(), post.2.as_str(), assets) {
            Ok((config, p)) => {
                out.push((post.0.clone(), config, p));
            },
            Err(e) => {
                return Err(e);
            },
        }
        i += 1;
    }
    Ok(out)
}

/// `render_posts_to_html` where every post it reaches renders safely (`render_safe`),
/// `None` where one does not.
pub fn try_render_posts_to_html(posts: &[(String, BlogPostConfig, String)], assets: &PageAssets) -> (res:
    Option<Result<Vec<(String, BlogPostConfig, String)>, RenderFailure>>)
    ensures
        res is None <==> !posts_render_safe(posts@, *assets),
        res matches Some(r) ==> posts_rendered(posts@, *assets, r),
{
    let n = posts.len();
    let mut i: usize = 0;
    while i < n
        invariant
            n == posts@.len(),
            0 <= i <= n,
            reached(posts@, *assets, i as int),
            forall|j: int|
                0 <= j < i ==> render_safe(
                    #[trigger] posts@[j].1,
                    posts@[j].2@,
                    assets.comments_script@,
                ),
        decreases n - i,
    {
        let post = &posts[i];
        if !render_safe_check(&post.1, post.2.as_str(), assets.comments_script.as_str()) {
            proof {
                assert(reached(posts@, *assets, i as int));
            }
            return None;
        }
        if render_post(&post.1, post.2.as_str(), assets.comments_script.as_str()).is_err() {
            proof {
                assert(!post_renders(posts@, *assets, i as int));
                assert forall|k: int|
                    0 <= k < posts@.len() && #[trigger] reached(posts@, *assets, k) implies render_safe(
                    posts@[k].1,
                    posts@[k].2@,
                    assets.comments_script@,
                ) by {
                    if k > i {
                        assert(post_renders(posts@, *assets, i as int));
                    }
                }
            }
            return Some(render_posts_to_html(posts, assets));
        }
        proof {
            assert forall|j: int| 0 <= j < i + 1 implies #[trigger] post_renders(posts@, *assets, j) by {
                if j < i {
                    assert(reached(posts@, *assets, i as int));
                }
            }
        }
        i += 1;
    }
    proof {
        assert forall|k: int|
            0 <= k < posts@.len() && #[trigger] reached(posts@, *assets, k) implies render_safe(
            posts@[k].1,
            posts@[k].2@,
            assets.comments_script@,
        ) by {}
    }
    Some(render_posts_to_html(posts, assets))
}

} // verus!
