use blog::{
    about, blog_post, comments_render_ok, index, mastodon_comments, post_order, render_posts_to_html,
    template, try_about, try_mastodon_comments, try_render_posts_to_html, BlogPostConfig,
    BlogPostConfigExtra, PageAssets, PostDate,
};

fn config(title: &str, year: u16, month: u8, day: u8, comments: bool, postid: &str) -> BlogPostConfig {
    BlogPostConfig {
        title: title.to_string(),
        date: PostDate { year, month, day },
        extra: BlogPostConfigExtra {
            comments,
            postid: postid.to_string(),
            miku_img: "miku_jump".to_string(),
            miku_q: "Hit the GRTTy!".to_string(),
        },
    }
}

fn assets() -> PageAssets {
    PageAssets {
        logo: "<svg></svg>".to_string(),
        style: "body {}".to_string(),
        comments_script: "function load_comments(id) {}".to_string(),
    }
}

const HEADER: &str = "<div style=\"float:right; max-width: 25%;\"><blockquote><p>Hit the GRTTy!</p></blockquote><img style=\"\" src=\"miku_jump.png\"></img></div>";

#[test]
fn extra_defaults() {
    let e = BlogPostConfigExtra::default();
    assert!(!e.comments);
    assert_eq!(e.postid, "");
    assert_eq!(e.miku_img, "");
    assert_eq!(e.miku_q, "");
}

#[test]
fn comments_switched_off() {
    let c = config("t", 2025, 2, 27, false, "1");
    assert_eq!(mastodon_comments(&c, "ignored {{#if}}"), "<div>comments are disabled</div>");
}

#[test]
fn comments_with_post_id() {
    let c = config("t", 2025, 2, 27, true, "114075174358638781");
    assert!(comments_render_ok(&c, "load();"));
    assert_eq!(
        mastodon_comments(&c, "load();"),
        "<script type=\"text/javascript\">load();</script><button class=\"bg-blue-500 hover:bg-blue-700 text-white font-bold py-2 px-4 rounded\" onclick=\"load_comments('114075174358638781')\">Load Mastodon Comments</button>"
    );
}

#[test]
fn comments_without_post_id() {
    let c = config("t", 2025, 2, 27, true, "");
    assert_eq!(mastodon_comments(&c, "x"), "<script type=\"text/javascript\">x</script>");
}

#[test]
fn comments_script_is_rendered_as_a_template() {
    let c = config("My <Post>", 2025, 2, 27, true, "");
    assert_eq!(
        mastodon_comments(&c, "var t = '{{title}}';"),
        "<script type=\"text/javascript\">var t = 'My &lt;Post&gt;';</script>"
    );
}

#[test]
fn broken_comments_script_is_refused() {
    let c = config("t", 2025, 2, 27, true, "1");
    assert!(!comments_render_ok(&c, "{{#if}}"));
    assert_eq!(try_mastodon_comments(&c, "{{#if}}"), None);
    assert!(try_mastodon_comments(&c, "ok").is_some());
    let off = config("t", 2025, 2, 27, false, "1");
    assert_eq!(try_mastodon_comments(&off, "{{#if}}"), Some("<div>comments are disabled</div>".to_string()));
}

#[test]
fn about_page_is_not_framed() {
    let c = config("About me", 2025, 1, 2, false, "");
    let page = about(&c, "# {{title}}\n", "").unwrap();
    assert_eq!(page, format!("{}<h1>About me</h1>\n<div>comments are disabled</div>", HEADER));
}

#[test]
fn markdown_is_rendered() {
    let c = config("x", 2025, 1, 2, false, "");
    let page = about(&c, "Some *emphasis* and `code`.\n", "").unwrap();
    assert_eq!(
        page,
        format!("{}<p>Some <em>emphasis</em> and <code>code</code>.</p>\n<div>comments are disabled</div>", HEADER)
    );
}

#[test]
fn title_with_quotes_and_newline_reaches_the_template() {
    let c = config("say \"hi\" \\ now\n", 2025, 1, 2, false, "");
    let page = about(&c, "{{title}}", "").unwrap();
    assert!(page.contains("<p>say &quot;hi&quot; \\ now\n</p>"));
}

#[test]
fn date_renders_as_an_object() {
    // The front matter date is a TOML date, which reaches the template as an object.
    let c = config("x", 2025, 1, 2, false, "");
    let page = about(&c, "{{date}}", "").unwrap();
    assert!(page.contains("<p>[object]</p>"));
}

#[test]
fn broken_markdown_template_fails() {
    let c = config("x", 2025, 1, 2, false, "");
    assert!(about(&c, "{{#each}}", "").is_err());
    assert!(try_about(&c, "{{#each}}", "").unwrap().is_err());
    let on = config("x", 2025, 1, 2, true, "");
    assert!(try_about(&on, "fine", "{{#if}}").is_none());
    assert!(!blog::render_panic_free_check(&on, "{{#if}}"));
    assert!(blog::render_panic_free_check(&on, "fine"));
}

#[test]
fn blog_post_is_framed() {
    let c = config("GRTTy", 2025, 2, 27, false, "");
    let (back, page) = blog_post(c, "Hello {{title}}\n", &assets()).unwrap();
    assert_eq!(back.title, "GRTTy");
    let inner = format!("{}<p>Hello GRTTy</p>\n<div>comments are disabled</div>", HEADER);
    assert_eq!(page, template(&inner, "<svg></svg>", "body {}"));
}

#[test]
fn page_frame() {
    let p = template("INNER", "LOGO", "STYLE");
    assert!(p.starts_with("<!DOCTYPE html><html lang=\"en\"><head><link rel=\"icon\" href=\"favicon.ico\">"));
    assert!(p.contains("<style type=\"text/tailwindcss\">STYLE</style>"));
    assert!(p.contains("<div class=\"flex w-full justify-center\">LOGO</div>"));
    assert!(p.contains("<div class=\"p-6 container mx-auto\">INNER</div>"));
    assert!(p.ends_with(
        "<div class=\"p-6 container mx-auto\">INNER</div><br><br><br><br><p class=\"text-xs\">Made with &lt;3 in 2025</p></body></html>"
    ));
    assert_eq!(blog::footer(), "<br><br><br><br><p class=\"text-xs\">Made with &lt;3 in 2025</p>");
}

#[test]
fn render_posts_keeps_paths_and_order() {
    let posts = vec![
        ("a.html".to_string(), config("A", 2025, 1, 1, false, ""), "a".to_string()),
        ("b.html".to_string(), config("B", 2024, 1, 1, false, ""), "b".to_string()),
    ];
    let out = render_posts_to_html(&posts, &assets()).unwrap();
    assert_eq!(out.len(), 2);
    assert_eq!(out[0].0, "a.html");
    assert_eq!(out[1].0, "b.html");
    assert_eq!(out[1].1.title, "B");
    assert!(out[0].2.contains("<p>a</p>"));
    assert!(out[1].2.contains("<p>b</p>"));
}

#[test]
fn render_posts_stops_at_a_failing_post() {
    let posts = vec![
        ("a.html".to_string(), config("A", 2025, 1, 1, false, ""), "{{#if}}".to_string()),
        ("b.html".to_string(), config("B", 2024, 1, 1, false, ""), "b".to_string()),
    ];
    assert!(render_posts_to_html(&posts, &assets()).is_err());
}

#[test]
fn try_render_posts_checks_comment_scripts() {
    let posts = vec![("a.html".to_string(), config("A", 2025, 1, 1, true, "7"), "a".to_string())];
    let mut bad = assets();
    bad.comments_script = "{{#if}}".to_string();
    assert!(try_render_posts_to_html(&posts, &bad).is_none());
    let ok = try_render_posts_to_html(&posts, &assets()).unwrap().unwrap();
    assert!(ok[0].2.contains("onclick=\"load_comments('7')\""));
}

#[test]
fn try_render_posts_stops_before_unreached_comments() {
    // Post 0 fails to render, so post 1 (whose comments script would not render) is
    // never reached: the result is post 0's failure.
    let posts = vec![
        ("a.html".to_string(), config("A", 2025, 1, 1, false, ""), "{{#if}}".to_string()),
        ("b.html".to_string(), config("B", 2024, 1, 1, true, "1"), "b".to_string()),
    ];
    let mut bad = assets();
    bad.comments_script = "{{#if}}".to_string();
    let r = try_render_posts_to_html(&posts, &bad).unwrap();
    assert!(r.is_err());
    // When post 0 renders, post 1 is reached and its comments script would not render.
    let posts = vec![
        ("a.html".to_string(), config("A", 2025, 1, 1, false, ""), "a".to_string()),
        ("b.html".to_string(), config("B", 2024, 1, 1, true, "1"), "b".to_string()),
    ];
    assert!(try_render_posts_to_html(&posts, &bad).is_none());
}

#[test]
fn partial_inclusions_are_refused() {
    let c = config("x", 2025, 1, 2, false, "");
    // An inline partial that includes itself would make Handlebars recurse without end.
    // Raw HTML passes through Markdown verbatim, so a post can hold one.
    let looping = "<div>{{#*inline \"a\"}}{{> a}}{{/inline}}{{> a}}</div>\n";
    assert!(!blog::render_safe_check(&c, looping, ""));
    assert!(try_about(&c, looping, "").is_none());
    for partial in ["{{> a}}", "{{~> a}}", "{{#> a}}x{{/a}}", "{{ ~ # > a}}", "{{\t>a}}"] {
        let body = format!("<div>{}</div>\n", partial);
        assert!(try_about(&c, &body, "").is_none(), "{}", body);
    }
    // In Markdown text `>` becomes `&gt;`, which opens no partial.
    assert!(try_about(&c, "{{> a}}", "").is_some());
    // A `>` that opens no partial is fine.
    assert!(try_about(&c, "<div>{{title}} > 3 and {{ title }}</div>\n", "").unwrap().is_ok());
    let on = config("x", 2025, 1, 2, true, "");
    assert!(!comments_render_ok(&on, "{{> loader}}"));
    assert!(try_mastodon_comments(&on, "{{> loader}}").is_none());
}

#[test]
fn first_failing_post_gives_its_error() {
    let posts = vec![
        ("a.html".to_string(), config("A", 2025, 1, 1, false, ""), "a".to_string()),
        ("b.html".to_string(), config("B", 2024, 1, 1, false, ""), "{{#if}}".to_string()),
        ("c.html".to_string(), config("C", 2024, 1, 1, false, ""), "{{#each}}".to_string()),
    ];
    let err = render_posts_to_html(&posts, &assets()).unwrap_err();
    let own = about(&posts[1].1, "{{#if}}", "").unwrap_err();
    assert_eq!(err.message, own.message);
    let other = about(&posts[2].1, "{{#each}}", "").unwrap_err();
    assert_ne!(err.message, other.message);
}

#[test]
fn index_lists_posts_latest_first() {
    let posts = vec![
        ("old.html".to_string(), config("Old", 2019, 11, 28, false, ""), String::new()),
        ("new.html".to_string(), config("New & <shiny>", 2025, 4, 27, false, ""), String::new()),
        ("mid.html".to_string(), config("Mid", 2025, 2, 27, false, ""), String::new()),
    ];
    let html = index(posts).unwrap();
    let row = |date: &str, link: &str, title: &str| {
        format!(
            "<tr class=\"border-none\"><td class=\"border-none\"><div>blog</div></td><td class=\"border-none\"><div>{}</div></td><td class=\"border-none\"><a href=\"{}\">{}</a></td></tr>",
            date, link, title
        )
    };
    let expected = format!(
        "<h2 class=\"slogan\">/blog</h2><table class=\"sortable border-none\"><thead class=\"border-none\"><tr class=\"border-none\"><th class=\"border-none\">Category</th><th class=\"border-none\">Date</th><th class=\"border-none\">Title</th></tr></thead><tbody class=\"border-none\">{}{}{}</tbody></table>",
        row("2025-04-27", "/new.html", "New &amp; &lt;shiny&gt;"),
        row("2025-02-27", "/mid.html", "Mid"),
        row("2019-11-28", "/old.html", "Old"),
    );
    assert_eq!(html, expected);
}

#[test]
fn index_does_not_depend_on_the_order_of_posts() {
    let make = |order: &[usize]| {
        let all = [("a", 2020u16), ("b", 2025), ("c", 2023), ("d", 2021)];
        order
            .iter()
            .map(|&i| (all[i].0.to_string(), config(all[i].0, all[i].1, 1, 1, false, ""), String::new()))
            .collect::<Vec<_>>()
    };
    let first = index(make(&[0, 1, 2, 3])).unwrap();
    assert_eq!(first, index(make(&[3, 1, 0, 2])).unwrap());
    assert_eq!(first, index(make(&[2, 3, 1, 0])).unwrap());
}

#[test]
fn index_of_no_posts() {
    let html = index(Vec::new()).unwrap();
    assert!(html.ends_with("<tbody class=\"border-none\"></tbody></table>"));
}

#[test]
fn same_date_posts_later_in_list_first() {
    let posts = vec![
        ("a".to_string(), config("A", 2025, 1, 1, false, ""), String::new()),
        ("b".to_string(), config("B", 2025, 1, 1, false, ""), String::new()),
        ("c".to_string(), config("C", 2024, 12, 31, false, ""), String::new()),
        ("d".to_string(), config("D", 2025, 1, 1, false, ""), String::new()),
    ];
    assert_eq!(post_order(&posts), vec![3, 1, 0, 2]);
}

#[test]
fn small_years_are_zero_padded() {
    let posts = vec![("p".to_string(), config("P", 5, 1, 2, false, ""), String::new())];
    let html = index(posts).unwrap();
    assert!(html.contains("<div>0005-01-02</div>"));
}
