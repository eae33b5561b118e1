//! The record that a content file leaves behind for the listings.

use crate::frontmatter::{
    extract_metadata, frontmatter_of, has_frontmatter, key_prefix,
    lemma_first_key_line_gives_value, lemma_without_frontmatter, metadata_value, next_delimiter,
};
use crate::template::{field_views, has_distinct_names, push_field, record_of};
use crate::text::{lines, trim};
use vstd::prelude::*;

verus! {

/// What a listing shows of one post.
#[derive(Clone, Debug, PartialEq, Eq)]
pub struct PostMetadata {
    /// The post's title.
    pub title: String,
    /// The stem of the file's name.
    pub slug: String,
    /// The path of the post's image.
    pub image: String,
    /// A short description.
    pub description: String,
    /// The date, as the file states it; it is never parsed.
    pub date: String,
}

/// A `PostMetadata` as plain text values.
pub struct PostView {
    pub title: Seq<char>,
    pub slug: Seq<char>,
    pub image: Seq<char>,
    pub description: Seq<char>,
    pub date: Seq<char>,
}

impl View for PostMetadata {
    type V = PostView;

    open spec fn view(&self) -> PostView {
        PostView {
            title: self.title@,
            slug: self.slug@,
            image: self.image@,
            description: self.description@,
            date: self.date@,
        }
    }
}

/// The views of a sequence of posts, in order.
pub open spec fn post_views(posts: Seq<PostMetadata>) -> Seq<PostView> {
    Seq::new(posts.len(), |i: int| posts[i]@)
}

/// The object that a template sees for a post: its five values under the
/// names `title`, `slug`, `image`, `description` and `date`.
pub open spec fn post_record(post: PostView) -> Map<Seq<char>, Seq<char>> {
    Map::empty().insert("title"@, post.title).insert("slug"@, post.slug).insert(
        "image"@,
        post.image,
    ).insert("description"@, post.description).insert("date"@, post.date)
}

/// The fields of a post: its five values, each under its name.
pub open spec fn post_fields(post: PostView) -> Seq<(Seq<char>, Seq<char>)> {
    seq![
        ("title"@, post.title),
        ("slug"@, post.slug),
        ("image"@, post.image),
        ("description"@, post.description),
        ("date"@, post.date),
    ]
}

/// The five fields of a post have five names, and make the post's object.
pub proof fn lemma_post_fields(post: PostView)
    ensures
        has_distinct_names(post_fields(post)),
        record_of(post_fields(post)) == post_record(post),
{
    let fields = post_fields(post);
    reveal_strlit("title");
    reveal_strlit("slug");
    reveal_strlit("image");
    reveal_strlit("description");
    reveal_strlit("date");
    assert("title"@[0] == 't' && "title"@.len() == 5);
    assert("slug"@[0] == 's' && "slug"@.len() == 4);
    assert("image"@[0] == 'i' && "image"@.len() == 5);
    assert("description"@.len() == 11);
    assert("date"@[0] == 'd' && "date"@.len() == 4);
    assert(fields[0].0 == "title"@);
    assert(fields[1].0 == "slug"@);
    assert(fields[2].0 == "image"@);
    assert(fields[3].0 == "description"@);
    assert(fields[4].0 == "date"@);
    let four = fields.drop_last();
    let three = four.drop_last();
    let two = three.drop_last();
    let one = two.drop_last();
    assert(one.drop_last() == Seq::<(Seq<char>, Seq<char>)>::empty());
    assert(record_of(one.drop_last()) == Map::<Seq<char>, Seq<char>>::empty());
    assert(record_of(one) == Map::<Seq<char>, Seq<char>>::empty().insert("title"@, post.title));
    assert(record_of(two) == record_of(one).insert("slug"@, post.slug));
    assert(record_of(three) == record_of(two).insert("image"@, post.image));
    assert(record_of(four) == record_of(three).insert("description"@, post.description));
    assert(record_of(fields) == record_of(four).insert("date"@, post.date));
}

/// The objects that a template sees for a sequence of posts, in order.
pub open spec fn post_records(posts: Seq<PostView>) -> Seq<Map<Seq<char>, Seq<char>>> {
    Seq::new(posts.len(), |i: int| post_record(posts[i]))
}

/// The title of a post whose frontmatter names none.
pub open spec fn default_title() -> Seq<char> {
    "Untitled"@
}

/// The image of a post whose frontmatter names none.
pub open spec fn default_image() -> Seq<char> {
    "/assets/images/rubber-duck.jpg"@
}

/// The description of a post whose frontmatter holds none.
pub open spec fn default_description() -> Seq<char> {
    "No description"@
}

/// The date of a post whose frontmatter holds none.
pub open spec fn default_date() -> Seq<char> {
    "No date"@
}

/// The value that `block` gives to `key`, or `default` where it gives none.
pub open spec fn value_or(block: Seq<char>, key: Seq<char>, default: Seq<char>) -> Seq<char> {
    match metadata_value(block, key) {
        Some(value) => value,
        None => default,
    }
}

/// The metadata of a post with the frontmatter block `block` and the slug
/// `slug`: each of `title`, `image`, `description` and `date` as the block
/// gives it, or its default.
pub open spec fn post_metadata(block: Seq<char>, slug: Seq<char>) -> PostView {
    PostView {
        title: value_or(block, "title"@, default_title()),
        slug,
        image: value_or(block, "image"@, default_image()),
        description: value_or(block, "description"@, default_description()),
        date: value_or(block, "date"@, default_date()),
    }
}

/// The metadata of a post without frontmatter.
pub open spec fn default_metadata(slug: Seq<char>) -> PostView {
    PostView {
        title: default_title(),
        slug,
        image: default_image(),
        description: default_description(),
        date: default_date(),
    }
}

/// The value of `key` in `block`, or `default`.
pub fn value_or_default(block: &str, key: &str, default: &str) -> (value: String)
    ensures
        value@ == value_or(block@, key@, default@),
{
    match extract_metadata(block, key) {
        Some(value) => value,
        None => default.to_owned(),
    }
}

impl PostMetadata {
    /// Reads a post's metadata from its frontmatter block.
    ///
    /// A key that the block does not hold gets its default: the title
    /// `Untitled`, the image `/assets/images/rubber-duck.jpg`, the description
    /// `No description`, the date `No date`.
    pub fn from_frontmatter(block: &str, slug: String) -> (post: PostMetadata)
        ensures
            post@ == post_metadata(block@, slug@),
    {
        let title = value_or_default(block, "title", "Untitled");
        let image = value_or_default(block, "image", "/assets/images/rubber-duck.jpg");
        let description = value_or_default(block, "description", "No description");
        let date = value_or_default(block, "date", "No date");
        PostMetadata { title, slug, image, description, date }
    }

    /// The post as a record of named fields, for a template to read.
    pub fn fields(&self) -> (fields: Vec<(String, String)>)
        ensures
            field_views(fields@) == post_fields(self@),
    {
        let mut fields: Vec<(String, String)> = Vec::new();
        assert(field_views(fields@) =~= Seq::empty());
        push_field(&mut fields, "title", self.title.as_str());
        push_field(&mut fields, "slug", self.slug.as_str());
        push_field(&mut fields, "image", self.image.as_str());
        push_field(&mut fields, "description", self.description.as_str());
        push_field(&mut fields, "date", self.date.as_str());
        assert(field_views(fields@) =~= post_fields(self@));
        fields
    }
}

/// A content file without frontmatter gets every default.
pub proof fn lemma_defaults_without_frontmatter(content: Seq<char>, slug: Seq<char>)
    requires
        !has_frontmatter(content),
    ensures
        post_metadata(frontmatter_of(content), slug) == default_metadata(slug),
{
    lemma_without_frontmatter(content, "title"@);
    lemma_without_frontmatter(content, "image"@);
    lemma_without_frontmatter(content, "description"@);
    lemma_without_frontmatter(content, "date"@);
}

/// Where the first line of the frontmatter block that begins with `title:`
/// is `title:` followed by `rest`, the post's title is `rest` trimmed,
/// wherever in the block that line stands and whatever the other lines hold.
pub proof fn lemma_title_from_frontmatter(
    content: Seq<char>,
    slug: Seq<char>,
    at: int,
    rest: Seq<char>,
)
    requires
        has_frontmatter(content),
        1 <= at < next_delimiter(lines(content), 1),
        lines(content)[at] == key_prefix("title"@) + rest,
        forall|j: int| 1 <= j < at ==> !key_prefix("title"@).is_prefix_of(lines(content)[j]),
    ensures
        post_metadata(frontmatter_of(content), slug).title == trim(rest),
{
    let prefix = key_prefix("title"@);
    let line = lines(content)[at];
    assert(line.subrange(0, prefix.len() as int) == prefix);
    assert(line.skip(prefix.len() as int) == rest);
    lemma_first_key_line_gives_value(content, "title"@, at);
}

} // verus!
