//! The page frame around every generated page, and HTML text escaping.
use vstd::prelude::*;

verus! {

/// Markup that closes every page.
pub const FOOTER: &'static str = "<br><br><br><br><p class=\"text-xs\">Made with &lt;3 in 2025</p>";

/// Page markup up to the site stylesheet.
pub const PAGE_BEFORE_STYLE: &'static str = "<!DOCTYPE html><html lang=\"en\"><head><link rel=\"icon\" href=\"favicon.ico\"><script src=\"https://cdn.tailwindcss.com\"></script><link rel=\"stylesheet\" href=\"https://fonts.googleapis.com/css?family=Noto+Emoji|Space+Mono|Space+Grotesk|VT323\"><script src=\"tw.js\"></script><script>\n                    tailwind.config = {\n                        theme: {\n                            container: {\n                                center: true,\n                            },\n                            fontFamily: {\n                                \"mono\": \"Space Mono, monospace\",\n                                \"sans\": \"Space Grotesk, sans-serif\",\n                            }\n                        }\n                    }\n                    </script><style type=\"text/tailwindcss\">";

/// Page markup from the site stylesheet up to the logo.
pub const PAGE_BEFORE_LOGO: &'static str = "</style><meta charset=\"utf-8\"><meta name=\"viewport\" content=\"width=device-width, initial-scale=1\"><title>chuu!</title><script src=\"highlight.min.js\"></script><script src=\"https://cdnjs.cloudflare.com/ajax/libs/highlight.js/11.11.1/languages/protobuf.min.js\"></script><style type=\"text/tailwindcss\">code:not([class]) { color: #86cecb; }</style><link rel=\"stylesheet\" href=\"styles/ir-black.css\"><script>hljs.highlightAll();</script></head><body class=\"bg-black text-white font-sans text-l md:text-2xl mx-auto w-full max-w-5xl\"><div class=\"flex w-full justify-center\">";

/// Page markup from the logo up to the page content.
pub const PAGE_BEFORE_CONTENT: &'static str = "</div><nav class=\"flex items-center justify-between flex-wrap bg-black-500 p-6\"><div class=\"flex items-center flex-shrink-0 text-white mr-6\"><a href=\"/\" class=\"font-semibold text-xl tracking-tight\">chuu.dev</a></div><div class=\"w-full block flex-grow lg:flex lg:items-center lg:w-auto\"><div class=\"text-xl lg:flex-grow\"><a href=\"about.html\" class=\"underline block lg:inline-block lg:mt-0 text-black-200 hover:text-white mr-4\">about</a><a href=\"https://github.com/chuu-p/chuu.dev\" class=\"underline block lg:inline-block lg:mt-0 text-black-200 hover:text-white mr-4\">github</a><a href=\"https://mastodon.social/@chuu_p\" class=\"underline block lg:inline-block lg:mt-0 text-black-200 hover:text-white mr-4\">mastodon</a><a href=\"mailto:j@chuu.dev\" class=\"underline block lg:inline-block lg:mt-0 text-black-200 hover:text-white mr-4\">email</a></div></div></nav><div class=\"p-6 container mx-auto\">";

/// Page markup right after the page content, before the footer.
pub const PAGE_AFTER_CONTENT: &'static str = "</div>";

/// Page markup after the footer.
pub const PAGE_END: &'static str = "</body></html>";

/// How one character of text is written in HTML: `&`, `<`, `>` and `"` become entities.
pub open spec fn html_char(c: char) -> Seq<char> {
    if c == '&' {
        "&amp;"@
    } else if c == '<' {
        "&lt;"@
    } else if c == '>' {
        "&gt;"@
    } else if c == '"' {
        "&quot;"@
    } else {
        seq![c]
    }
}

/// Text written as HTML, character by character.
pub open spec fn html_escaped(s: Seq<char>) -> Seq<char>
    decreases s.len(),
{
    if s.len() == 0 {
        Seq::empty()
    } else {
        html_escaped(s.drop_last()) + html_char(s.last())
    }
}

/// Appends `s` to `out` written as HTML text (the escaping of text and attribute values
/// in the page markup).
pub fn push_html_escaped(out: &mut String, s: &str)
    ensures
        final(out)@ == old(out)@ + html_escaped(s@),
{
    broadcast use vstd::string::group_string_axioms;
    let ghost start = out@;
    for c in it: s.chars()
        invariant
            it.seq() == s@,
            out@ == start + html_escaped(s@.take(it.index())),
    {
        proof {
            assert(s@.take(it.index() + 1).drop_last() =~= s@.take(it.index()));
        }
        if c == '&' {
            out.append("&amp;");
        } else if c == '<' {
            out.append("&lt;");
        } else if c == '>' {
            out.append("&gt;");
        } else if c == '"' {
            out.append("&quot;");
        } else {
            out.push(c);
        }
    }
    proof {
        assert(s@.take(s@.len() as int) =~= s@);
    }
}

/// Escaped text holds no `<`, `>` or `"`: text written into a page cannot open or close
/// a tag or an attribute value.
pub proof fn lemma_escaped_has_no_markup(s: Seq<char>)
    ensures
        forall|i: int|
            0 <= i < html_escaped(s).len() ==> {
                let c = #[trigger] html_escaped(s)[i];
                c != '<' && c != '>' && c != '"'
            },
    decreases s.len(),
{
    reveal_strlit("&amp;");
    reveal_strlit("&lt;");
    reveal_strlit("&gt;");
    reveal_strlit("&quot;");
    if s.len() > 0 {
        lemma_escaped_has_no_markup(s.drop_last());
        let pre = html_escaped(s.drop_last());
        let last = html_char(s.last());
        assert forall|i: int| 0 <= i < html_escaped(s).len() implies {
            let c = #[trigger] html_escaped(s)[i];
            c != '<' && c != '>' && c != '"'
        } by {
            if i >= pre.len() {
                assert(html_escaped(s)[i] == last[i - pre.len()]);
            } else {
                assert(html_escaped(s)[i] == pre[i]);
            }
        }
    }
}

/// Text without `&`, `<`, `>` or `"` is written into a page unchanged.
pub proof fn lemma_plain_text_unescaped(s: Seq<char>)
    requires
        forall|i: int| 0 <= i < s.len() ==> s[i] != '&' && s[i] != '<' && s[i] != '>' && s[i] != '"',
    ensures
        html_escaped(s) == s,
    decreases s.len(),
{
    if s.len() > 0 {
        lemma_plain_text_unescaped(s.drop_last());
        assert(s.drop_last().push(s.last()) =~= s);
    }
}

/// The footer under every page.
pub fn footer() -> (s: String)
    ensures
        s@ == FOOTER@,
{
    String::from_str(FOOTER)
}

/// A whole page: the frame with the site stylesheet, the logo markup and the page
/// content set into it verbatim.
pub open spec fn page(inner: Seq<char>, logo: Seq<char>, style: Seq<char>) -> Seq<char> {
    PAGE_BEFORE_STYLE@ + style + PAGE_BEFORE_LOGO@ + logo + PAGE_BEFORE_CONTENT@ + inner
        + PAGE_AFTER_CONTENT@ + FOOTER@ + PAGE_END@
}

/// The frame holds the stylesheet, the logo markup and the page content verbatim (none
/// of them escaped), each right after its fixed lead-in, and ends with the footer.
pub proof fn lemma_page_holds_parts_verbatim(inner: Seq<char>, logo: Seq<char>, style: Seq<char>)
    ensures
        ({
            let p = page(inner, logo, style);
            let s0 = PAGE_BEFORE_STYLE@.len() as int;
            let l0 = s0 + style.len() + PAGE_BEFORE_LOGO@.len();
            let i0 = l0 + logo.len() + PAGE_BEFORE_CONTENT@.len();
            &&& p.subrange(0, s0) == PAGE_BEFORE_STYLE@
            &&& p.subrange(s0, s0 + style.len()) == style
            &&& p.subrange(s0 + style.len(), l0) == PAGE_BEFORE_LOGO@
            &&& p.subrange(l0, l0 + logo.len()) == logo
            &&& p.subrange(l0 + logo.len(), i0) == PAGE_BEFORE_CONTENT@
            &&& p.subrange(i0, i0 + inner.len()) == inner
            &&& p.subrange(i0 + inner.len(), p.len() as int) == PAGE_AFTER_CONTENT@ + FOOTER@
                + PAGE_END@
        }),
{
    let p = page(inner, logo, style);
    let s0 = PAGE_BEFORE_STYLE@.len() as int;
    let l0 = s0 + style.len() + PAGE_BEFORE_LOGO@.len();
    let i0 = l0 + logo.len() + PAGE_BEFORE_CONTENT@.len();
    assert(p.subrange(0, s0) =~= PAGE_BEFORE_STYLE@);
    assert(p.subrange(s0, s0 + style.len()) =~= style);
    assert(p.subrange(s0 + style.len(), l0) =~= PAGE_BEFORE_LOGO@);
    assert(p.subrange(l0, l0 + logo.len()) =~= logo);
    assert(p.subrange(l0 + logo.len(), i0) =~= PAGE_BEFORE_CONTENT@);
    assert(p.subrange(i0, i0 + inner.len()) =~= inner);
    assert(p.subrange(i0 + inner.len(), p.len() as int) =~= PAGE_AFTER_CONTENT@ + FOOTER@
        + PAGE_END@);
}

/// Two pages whose frames differ only in the logo differ exactly there: changing the logo
/// markup by one character changes the page by that character, at the logo's place.
pub proof fn lemma_page_logo_is_spliced(inner: Seq<char>, logo: Seq<char>, style: Seq<char>, i: int)
    requires
        0 <= i < logo.len(),
    ensures
        page(inner, logo, style)[PAGE_BEFORE_STYLE@.len() + style.len() + PAGE_BEFORE_LOGO@.len()
            + i] == logo[i],
{
    lemma_page_holds_parts_verbatim(inner, logo, style);
    let l0 = (PAGE_BEFORE_STYLE@.len() + style.len() + PAGE_BEFORE_LOGO@.len()) as int;
    assert(page(inner, logo, style).subrange(l0, l0 + logo.len())[i] == logo[i]);
}

/// Sets page content into the site frame. `logo` is the logo markup and `style` the
/// site stylesheet; both go in verbatim, as the content does.
pub fn template(inner: &str, logo: &str, style: &str) -> (s: String)
    ensures
        s@ == page(inner@, logo@, style@),
{
    let mut s = String::from_str(PAGE_BEFORE_STYLE);
    s.append(style);
    s.append(PAGE_BEFORE_LOGO);
    s.append(logo);
    s.append(PAGE_BEFORE_CONTENT);
    s.append(inner);
    s.append(PAGE_AFTER_CONTENT);
    let f = footer();
    s.append(f.as_str());
    s.append(PAGE_END);
    s
}

} // verus!
