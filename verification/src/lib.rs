//! A static site generator's core: front matter splitting, post and index rendering,
//! the page frame, and the file decisions of a site build.
pub mod config;
pub mod files;
pub mod front_matter;
pub mod html;
pub mod index;
pub mod json;
pub mod partial;
pub mod render;
pub mod text;

pub use config::{BlogPostConfig, BlogPostConfigExtra, PostDate};
pub use files::{
    file_extension, has_extension, log_level, should_copy_file, with_extension, Destination, LogLevel,
};
pub use front_matter::{get_header, HeaderError};
pub use html::{footer, template};
pub use index::{index, post_order};
pub use render::{
    about, blog_post, comments_render_ok, mastodon_comments, render_panic_free_check, render_safe_check,
    render_posts_to_html, try_about,
    try_mastodon_comments, try_render_posts_to_html, PageAssets, RenderFailure,
};
