//! JSON text for the data that templates are rendered with.
use vstd::prelude::*;

use crate::config::{date_text, format_date, BlogPostConfig};

verus! {

/// The lowercase hex digit for `d < 16`.
pub open spec fn hex_char(d: nat) -> char {
    if d < 10 {
        ((48 + d) as u8) as char
    } else {
        ((87 + d) as u8) as char
    }
}

/// How one character is written inside a JSON string.
pub open spec fn json_char(c: char) -> Seq<char> {
    if c == '"' {
        seq!['\\', '"']
    } else if c == '\\' {
        seq!['\\', '\\']
    } else if (c as u32) < 0x20 {
        seq!['\\', 'u', '0', '0', hex_char((c as u32 / 16) as nat), hex_char((c as u32 % 16) as nat)]
    } else {
        seq![c]
    }
}

/// The characters of `s` as they are written inside a JSON string.
pub open spec fn json_escaped(s: Seq<char>) -> Seq<char>
    decreases s.len(),
{
    if s.len() == 0 {
        Seq::empty()
    } else {
        json_escaped(s.drop_last()) + json_char(s.last())
    }
}

/// `s` as a JSON string literal.
pub open spec fn json_string(s: Seq<char>) -> Seq<char> {
    seq!['"'] + json_escaped(s) + seq!['"']
}

fn hex_digit(d: u32) -> (c: char)
    requires
        d < 16,
    ensures
        c == hex_char(d as nat),
{
    if d < 10 {
        ((48 + d) as u8) as char
    } else {
        ((87 + d) as u8) as char
    }
}

/// Appends `s` to `out` as a JSON string literal.
pub fn push_json_string(out: &mut String, s: &str)
    ensures
        final(out)@ == old(out)@ + json_string(s@),
{
    broadcast use vstd::string::group_string_axioms;
    let ghost start = out@;
    out.push('"');
    for c in it: s.chars()
        invariant
            it.seq() == s@,
            out@ == start + seq!['"'] + json_escaped(s@.take(it.index())),
    {
        proof {
            assert(s@.take(it.index() + 1).drop_last() =~= s@.take(it.index()));
        }
        if c == '"' {
            out.push('\\');
            out.push('"');
        } else if c == '\\' {
            out.push('\\');
            out.push('\\');
        } else if (c as u32) < 0x20 {
            let code = c as u32;
            out.push('\\');
            out.push('u');
            out.push('0');
            out.push('0');
            out.push(hex_digit(code / 16));
            out.push(hex_digit(code % 16));
        } else {
            out.push(c);
        }
    }
    proof {
        assert(s@.take(s@.len() as int) =~= s@);
    }
    out.push('"');
}

/// The JSON text of a front matter, as `serde` writes a `BlogPostConfig` whose date is
/// a `toml` date: the date becomes an object with one field holding its text.
pub open spec fn context_json(c: BlogPostConfig) -> Seq<char> {
    "{\"title\":"@ + json_string(c.title@) + ",\"date\":{\"$__toml_private_datetime\":"@
        + json_string(date_text(c.date)) + "},\"extra\":{\"comments\":"@ + (if c.extra.comments {
        "true"@
    } else {
        "false"@
    }) + ",\"postid\":"@ + json_string(c.extra.postid@) + ",\"miku_img\":"@ + json_string(
        c.extra.miku_img@,
    ) + ",\"miku_q\":"@ + json_string(c.extra.miku_q@) + "}}"@
}

/// The JSON text that templates are rendered with for a post.
pub fn context_json_of(c: &BlogPostConfig) -> (s: String)
    ensures
        s@ == context_json(*c),
{
    let mut s = String::new();
    s.append("{\"title\":");
    push_json_string(&mut s, c.title.as_str());
    s.append(",\"date\":{\"$__toml_private_datetime\":");
    let date = format_date(&c.date);
    push_json_string(&mut s, date.as_str());
    s.append("},\"extra\":{\"comments\":");
    if c.extra.comments {
        s.append("true");
    } else {
        s.append("false");
    }
    s.append(",\"postid\":");
    push_json_string(&mut s, c.extra.postid.as_str());
    s.append(",\"miku_img\":");
    push_json_string(&mut s, c.extra.miku_img.as_str());
    s.append(",\"miku_q\":");
    push_json_string(&mut s, c.extra.miku_q.as_str());
    s.append("}}");
    proof {
        assert(s@ =~= context_json(*c));
    }
    s
}

} // verus!
