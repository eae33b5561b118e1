//! Pages: what is handed to the template engine for each kind of page, and
//! what becomes of its answer. The engine itself is called by the user of
//! this library, between the two.

use crate::category::{category_named, category_of, Category};
use crate::frontmatter::{body_of, frontmatter_of, split_frontmatter};
use crate::markdown::{markdown_html, render_markdown};
use crate::metadata::{
    lemma_post_fields, post_metadata, post_records, post_views, PostMetadata, PostView,
};
use crate::paths::{names, output_path, page_path, relative_to, slug, slug_of, strip_root};
use crate::template::{
    context_entries, have_distinct_names, no_entries, records_of, set_records, set_text,
    ContextValue,
};
use tera::Context;
use vstd::prelude::*;

verus! {

/// A finished page: its text, and where it goes under the output root.
#[derive(Clone, Debug, PartialEq, Eq)]
pub struct Page {
    /// The components of the page's path, relative to the output root.
    pub path: Vec<String>,
    /// The page's text.
    pub html: String,
}

/// Why a page could not be made.
#[derive(Debug)]
pub enum SiteError {
    /// The content file does not lie below the content root.
    PathOutsideRoot,
    /// The template engine failed on the template of this name.
    Template { template: String, cause: tera::Error },
    /// A listing was asked for a category that has none.
    UnknownCategory { category: String },
}

/// What the template engine is asked to render, and where the result goes.
pub struct RenderRequest {
    /// The name of the template.
    pub template: String,
    /// The values that the template is rendered with.
    pub context: Context,
    /// The components of the page's path, relative to the output root.
    pub path: Vec<String>,
}

/// A content file made ready for the engine: the request for its page, the
/// metadata that its listing will show, and its category.
pub struct PreparedPost {
    /// What the engine is asked to render.
    pub request: RenderRequest,
    /// The post's metadata.
    pub post: PostMetadata,
    /// The category of the file.
    pub category: Category,
}

/// The values that the page of a post is rendered with: the body's HTML as
/// `content`, and the post's `title`, `image`, `description` and `date`.
pub open spec fn detail_entries(html: Seq<char>, post: PostView) -> Map<Seq<char>, ContextValue> {
    no_entries().insert("content"@, ContextValue::Text(html)).insert(
        "title"@,
        ContextValue::Text(post.title),
    ).insert("image"@, ContextValue::Text(post.image)).insert(
        "description"@,
        ContextValue::Text(post.description),
    ).insert("date"@, ContextValue::Text(post.date))
}

/// The values that the homepage is rendered with: the title `Homepage`.
pub open spec fn homepage_entries() -> Map<Seq<char>, ContextValue> {
    no_entries().insert("title"@, ContextValue::Text("Homepage"@))
}

/// The title of the listing of the category named `category`.
pub open spec fn listing_title(category: Seq<char>) -> Seq<char> {
    category + " Listing"@
}

/// The values that a listing is rendered with: the category's posts as
/// `posts`, in order, and the listing's title.
pub open spec fn listing_entries(category: Seq<char>, posts: Seq<PostView>) -> Map<
    Seq<char>,
    ContextValue,
> {
    no_entries().insert("posts"@, ContextValue::Records(post_records(posts))).insert(
        "title"@,
        ContextValue::Text(listing_title(category)),
    )
}

/// Whether `request` is that of the page of the content file with the
/// text `content` at `rel`, a path below the content root: the template of
/// the file's category, the body's HTML and the metadata of the frontmatter
/// for the context, and the file's own place with `.html` for the path.
pub open spec fn is_detail_request(
    request: RenderRequest,
    rel: Seq<Seq<char>>,
    content: Seq<char>,
) -> bool {
    &&& request.template@ == category_of(rel).detail_template_name()
    &&& context_entries(request.context) == detail_entries(
        markdown_html(body_of(content)),
        post_metadata(frontmatter_of(content), slug_of(rel)),
    )
    &&& names(request.path@) == output_path(rel)
}

/// Whether `prepared` is what the content file with the text `content` at
/// `rel`, a path below the content root, is made ready as: the request for
/// its page, the metadata of its frontmatter with the stem of its name for
/// the slug, and the category of its place.
pub open spec fn is_prepared_post(
    prepared: PreparedPost,
    rel: Seq<Seq<char>>,
    content: Seq<char>,
) -> bool {
    &&& is_detail_request(prepared.request, rel, content)
    &&& prepared.post@ == post_metadata(frontmatter_of(content), slug_of(rel))
    &&& prepared.category == category_of(rel)
}

/// Whether `request` is that of the homepage: the template
/// `homepage.html`, the title `Homepage`, and the path `index.html`.
pub open spec fn is_homepage_request(request: RenderRequest) -> bool {
    &&& request.template@ == "homepage.html"@
    &&& context_entries(request.context) == homepage_entries()
    &&& names(request.path@) == homepage_path()
}

/// Whether `request` is that of the listing of the category named
/// `category` with the posts `posts`: the template `template`, the posts in
/// order and the listing's title for the context, and a page named after
/// the category.
pub open spec fn is_listing_request(
    request: RenderRequest,
    category: Seq<char>,
    template: Seq<char>,
    posts: Seq<PostView>,
) -> bool {
    &&& request.template@ == template
    &&& context_entries(request.context) == listing_entries(category, posts)
    &&& names(request.path@) == listing_path(category)
}

/// The path of the homepage, relative to the output root.
pub open spec fn homepage_path() -> Seq<Seq<char>> {
    seq!["index.html"@]
}

/// The path of the listing of the category named `category`, relative to
/// the output root.
pub open spec fn listing_path(category: Seq<char>) -> Seq<Seq<char>> {
    seq![category + ".html"@]
}

/// The context for the page of `post`, whose body rendered to `html`.
pub fn detail_context(html: &str, post: &PostMetadata) -> (context: Context)
    ensures
        context_entries(context) == detail_entries(html@, post@),
{
    let mut context = Context::new();
    set_text(&mut context, "content", html);
    set_text(&mut context, "title", post.title.as_str());
    set_text(&mut context, "image", post.image.as_str());
    set_text(&mut context, "description", post.description.as_str());
    set_text(&mut context, "date", post.date.as_str());
    context
}

/// The context for the homepage.
pub fn homepage_context() -> (context: Context)
    ensures
        context_entries(context) == homepage_entries(),
{
    let mut context = Context::new();
    set_text(&mut context, "title", "Homepage");
    context
}

/// The context for the listing of the category named `category`.
pub fn listing_context(category: &str, posts: &Vec<PostMetadata>) -> (context: Context)
    ensures
        context_entries(context) == listing_entries(category@, post_views(posts@)),
{
    let mut records: Vec<Vec<(String, String)>> = Vec::new();
    let mut i: usize = 0;
    while i < posts.len()
        invariant
            i <= posts.len(),
            records.len() == i,
            have_distinct_names(records@),
            records_of(records@) == post_records(post_views(posts@).take(i as int)),
        decreases posts.len() - i,
    {
        let fields = posts[i].fields();
        proof {
            lemma_post_fields(posts@[i as int]@);
            let before = records_of(records@);
            let after = records_of(records@.push(fields));
            let want = post_records(post_views(posts@).take(i + 1));
            assert forall|k: int| 0 <= k < after.len() implies after[k] == want[k] by {
                if k < i {
                    assert(after[k] == before[k]);
                    assert(before[k] == post_records(post_views(posts@).take(i as int))[k]);
                }
            }
            assert(after =~= want);
        }
        records.push(fields);
        i += 1;
    }
    assert(post_views(posts@).take(posts.len() as int) == post_views(posts@));
    let mut title = category.to_owned();
    title.append(" Listing");
    let mut context = Context::new();
    set_records(&mut context, "posts", &records);
    set_text(&mut context, "title", title.as_str());
    context
}

/// Makes a content file ready for the engine.
///
/// `src_path` and `root` are paths as component names, and `content` is
/// the file's text. Where the file does not lie below `root` the result is
/// `PathOutsideRoot`. Else the metadata is read from the frontmatter block,
/// with the stem of the file's name for the slug; the body is rendered as
/// markdown; the template is the one of the file's category; and the page
/// goes where the file lies below `root`, with `.html` for its extension.
pub fn prepare_markdown(src_path: &Vec<String>, root: &Vec<String>, content: &str) -> (made:
    Result<PreparedPost, SiteError>)
    ensures
        match relative_to(names(src_path@), names(root@)) {
            None => made matches Err(SiteError::PathOutsideRoot),
            Some(rel) => made matches Ok(prepared) && is_prepared_post(prepared, rel, content@),
        },
{
    let rel = match strip_root(src_path, root) {
        Some(rel) => rel,
        None => {
            return Err(SiteError::PathOutsideRoot);
        },
    };
    let (block, body) = split_frontmatter(content);
    let post = PostMetadata::from_frontmatter(block.as_str(), slug(&rel));
    let html = render_markdown(body.as_str());
    let category = Category::of_path(&rel);
    let template = category.detail_template().to_owned();
    let context = detail_context(html.as_str(), &post);
    let path = page_path(&rel);
    Ok(PreparedPost { request: RenderRequest { template, context, path }, post, category })
}

/// What the homepage is rendered from: the template `homepage.html`, the
/// title `Homepage`, and the path `index.html`.
pub fn prepare_homepage() -> (request: RenderRequest)
    ensures
        is_homepage_request(request),
{
    let mut path: Vec<String> = Vec::new();
    path.push("index.html".to_owned());
    assert(names(path@) =~= homepage_path());
    RenderRequest { template: "homepage.html".to_owned(), context: homepage_context(), path }
}

/// What the listing of the category named `category` is rendered from.
/// An empty `posts` is in order.
///
/// `UnknownCategory` for every name but `blog` and `books`. Else the
/// template is the category's listing template, the context holds `posts`
/// in order and the listing's title, and the page is named after the
/// category.
pub fn prepare_listing(category: &str, posts: &Vec<PostMetadata>) -> (made: Result<
    RenderRequest,
    SiteError,
>)
    ensures
        match category_named(category@).listing_template_name() {
            None => made matches Err(SiteError::UnknownCategory { category: name }) && name@
                == category@,
            Some(template) => made matches Ok(request) && is_listing_request(
                request,
                category@,
                template,
                post_views(posts@),
            ),
        },
{
    let context = listing_context(category, posts);
    let template = match Category::from_name(category).listing_template() {
        Some(template) => template.to_owned(),
        None => {
            return Err(SiteError::UnknownCategory { category: category.to_owned() });
        },
    };
    let mut name = category.to_owned();
    name.append(".html");
    let mut path: Vec<String> = Vec::new();
    path.push(name);
    assert(names(path@) =~= listing_path(category@));
    Ok(RenderRequest { template, context, path })
}

/// The page that a request and the engine's answer to it make: the
/// rendered text at the request's path, or the engine's error under the
/// template's name.
pub fn page_from(request: RenderRequest, rendered: Result<String, tera::Error>) -> (page: Result<
    Page,
    SiteError,
>)
    ensures
        match rendered {
            Ok(html) => page matches Ok(made) && made.html == html && made.path == request.path,
            Err(cause) => page matches Err(SiteError::Template { template, cause: held })
                && template == request.template && held == cause,
        },
{
    match rendered {
        Ok(html) => Ok(Page { path: request.path, html }),
        Err(cause) => Err(SiteError::Template { template: request.template, cause }),
    }
}

/// A content file that is made ready twice, with the same text at the same
/// place, gives the same metadata and category, and asks the engine for the
/// same template with the same values, for a page at the same path.
pub proof fn lemma_prepared_posts_agree(
    first: PreparedPost,
    second: PreparedPost,
    rel: Seq<Seq<char>>,
    content: Seq<char>,
)
    requires
        is_prepared_post(first, rel, content),
        is_prepared_post(second, rel, content),
    ensures
        first.post@ == second.post@,
        first.category == second.category,
        first.request.template@ == second.request.template@,
        context_entries(first.request.context) == context_entries(second.request.context),
        names(first.request.path@) == names(second.request.path@),
{
}

/// A listing that is made ready twice, for the same category with the same
/// posts in the same order, asks the engine for the same template with the
/// same values, for a page at the same path.
pub proof fn lemma_listing_requests_agree(
    first: RenderRequest,
    second: RenderRequest,
    category: Seq<char>,
    template: Seq<char>,
    posts: Seq<PostView>,
)
    requires
        is_listing_request(first, category, template, posts),
        is_listing_request(second, category, template, posts),
    ensures
        first.template@ == second.template@,
        context_entries(first.context) == context_entries(second.context),
        names(first.path@) == names(second.path@),
{
}

} // verus!
