//! The categories of a site. A content file belongs to the category whose
//! directory it lies in; each category has a template for its pages and one
//! for its listing.

use crate::paths::names;
use crate::text::same_text;
use vstd::prelude::*;

verus! {

/// The grouping of a content file.
#[derive(Clone, Copy, Debug, PartialEq, Eq, Structural)]
pub enum Category {
    /// Files under `blog`.
    Blog,
    /// Files under `books`.
    Books,
    /// Files anywhere else. They get a page and stand in no listing.
    Uncategorized,
}

/// The category that the name of a directory, or of a listing, stands for.
pub open spec fn category_named(name: Seq<char>) -> Category {
    if name == "blog"@ {
        Category::Blog
    } else if name == "books"@ {
        Category::Books
    } else {
        Category::Uncategorized
    }
}

/// The category of the file at `path`, a path relative to the content
/// root: the one that its first component names.
pub open spec fn category_of(path: Seq<Seq<char>>) -> Category {
    if path.len() == 0 {
        Category::Uncategorized
    } else {
        category_named(path[0])
    }
}

impl Category {
    /// The template for the page of a file of this category.
    pub open spec fn detail_template_name(self) -> Seq<char> {
        match self {
            Category::Blog => "blog_detail.html"@,
            Category::Books => "book_detail.html"@,
            Category::Uncategorized => "base.html"@,
        }
    }

    /// The template for the listing of this category, where it has one.
    pub open spec fn listing_template_name(self) -> Option<Seq<char>> {
        match self {
            Category::Blog => Some("blog_list.html"@),
            Category::Books => Some("book_list.html"@),
            Category::Uncategorized => None,
        }
    }

    /// The category that `name` stands for; `Uncategorized` for every name
    /// but `blog` and `books`.
    pub fn from_name(name: &str) -> (category: Category)
        ensures
            category == category_named(name@),
    {
        if same_text(name, "blog") {
            Category::Blog
        } else if same_text(name, "books") {
            Category::Books
        } else {
            Category::Uncategorized
        }
    }

    /// The category of the content file at `path`, a path relative to the
    /// content root.
    pub fn of_path(path: &Vec<String>) -> (category: Category)
        ensures
            category == category_of(names(path@)),
    {
        if path.len() == 0 {
            Category::Uncategorized
        } else {
            Category::from_name(path[0].as_str())
        }
    }

    /// The name of the template that renders a page of this category.
    pub fn detail_template(&self) -> (name: &'static str)
        ensures
            name@ == self.detail_template_name(),
    {
        match self {
            Category::Blog => "blog_detail.html",
            Category::Books => "book_detail.html",
            Category::Uncategorized => "base.html",
        }
    }

    /// The name of the template that renders this category's listing;
    /// `None` for `Uncategorized`, which has no listing.
    pub fn listing_template(&self) -> (name: Option<&'static str>)
        ensures
            name is Some == self.listing_template_name() is Some,
            name is Some ==> Some(name->0@) == self.listing_template_name(),
    {
        match self {
            Category::Blog => Some("blog_list.html"),
            Category::Books => Some("book_list.html"),
            Category::Uncategorized => None,
        }
    }
}

} // verus!
