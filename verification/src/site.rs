//! The site as a whole: the posts of each category, gathered in the order
//! in which their files are met, for the listings to show.

use crate::category::{category_of, Category};
use crate::metadata::{post_views, PostMetadata, PostView};
use crate::page::{
    is_homepage_request, is_listing_request, page_from, prepare_homepage, prepare_listing, Page,
    PreparedPost, RenderRequest, SiteError,
};
use vstd::prelude::*;

verus! {

/// The posts gathered so far, by category.
#[derive(Debug)]
pub struct Site {
    /// The posts under `blog`, in the order met.
    pub blog_posts: Vec<PostMetadata>,
    /// The posts under `books`, in the order met.
    pub book_posts: Vec<PostMetadata>,
}

/// A `Site` as plain values.
pub struct SiteView {
    pub blog: Seq<PostView>,
    pub books: Seq<PostView>,
}

impl View for Site {
    type V = SiteView;

    open spec fn view(&self) -> SiteView {
        SiteView { blog: post_views(self.blog_posts@), books: post_views(self.book_posts@) }
    }
}

impl SiteView {
    /// The posts that the listing of `category` shows. `Uncategorized` has
    /// no listing and so no posts.
    pub open spec fn listing(self, category: Category) -> Seq<PostView> {
        match category {
            Category::Blog => self.blog,
            Category::Books => self.books,
            Category::Uncategorized => Seq::empty(),
        }
    }

    /// The site after a post of `category` was met: the post stands last in
    /// its category's listing, and an uncategorized post changes nothing.
    pub open spec fn with(self, category: Category, post: PostView) -> SiteView {
        match category {
            Category::Blog => SiteView { blog: self.blog.push(post), books: self.books },
            Category::Books => SiteView { blog: self.blog, books: self.books.push(post) },
            Category::Uncategorized => self,
        }
    }
}

/// A site in which no post was met yet.
pub open spec fn empty_site() -> SiteView {
    SiteView { blog: Seq::empty(), books: Seq::empty() }
}

/// The site after the files `files` were met in order; each is given by
/// its path below the content root and its metadata.
pub open spec fn collected(files: Seq<(Seq<Seq<char>>, PostView)>) -> SiteView
    decreases files.len(),
{
    if files.len() == 0 {
        empty_site()
    } else {
        collected(files.drop_last()).with(category_of(files.last().0), files.last().1)
    }
}

/// The positions in `files` of the files of `category`, in order.
pub open spec fn positions_of(files: Seq<(Seq<Seq<char>>, PostView)>, category: Category) -> Seq<
    int,
>
    decreases files.len(),
{
    if files.len() == 0 {
        Seq::empty()
    } else if category_of(files.last().0) == category {
        positions_of(files.drop_last(), category).push(files.len() - 1)
    } else {
        positions_of(files.drop_last(), category)
    }
}

/// `positions_of` names files of `category` only, in rising order, and
/// misses none of them.
pub proof fn lemma_positions_of(files: Seq<(Seq<Seq<char>>, PostView)>, category: Category)
    ensures
        forall|k: int|
            0 <= k < positions_of(files, category).len() ==> {
                &&& 0 <= #[trigger] positions_of(files, category)[k] < files.len()
                &&& category_of(files[positions_of(files, category)[k]].0) == category
            },
        forall|j: int, k: int|
            0 <= j < k < positions_of(files, category).len() ==> positions_of(files, category)[j]
                < positions_of(files, category)[k],
        forall|i: int|
            0 <= i < files.len() && category_of(#[trigger] files[i].0) == category
                ==> positions_of(files, category).contains(i),
    decreases files.len(),
{
    if files.len() > 0 {
        let front = files.drop_last();
        let last = files.len() - 1;
        lemma_positions_of(front, category);
        let before = positions_of(front, category);
        let all = positions_of(files, category);
        assert forall|k: int| 0 <= k < all.len() implies {
            &&& 0 <= #[trigger] all[k] < files.len()
            &&& category_of(files[all[k]].0) == category
        } by {
            if k < before.len() {
                assert(all[k] == before[k]);
                assert(files[before[k]] == front[before[k]]);
            }
        }
        assert forall|j: int, k: int| 0 <= j < k < all.len() implies all[j] < all[k] by {
            assert(all[j] == before[j]);
            if k < before.len() {
                assert(all[k] == before[k]);
            }
        }
        assert forall|i: int|
            0 <= i < files.len() && category_of(#[trigger] files[i].0) == category implies all.contains(
            i,
        ) by {
            if i < last {
                assert(files[i] == front[i]);
                assert(before.contains(i));
                let k = choose|k: int| 0 <= k < before.len() && before[k] == i;
                assert(all[k] == i);
            } else {
                assert(all[all.len() - 1] == i);
            }
        }
    }
}

/// Each content file stands exactly once in the listing of its category,
/// and in no other: the listing of a category holds, in the order met, the
/// posts of the files of that category and nothing else. A file of no
/// category stands in no listing.
pub proof fn lemma_listing_holds_each_file_once(
    files: Seq<(Seq<Seq<char>>, PostView)>,
    category: Category,
)
    ensures
        category == Category::Uncategorized ==> collected(files).listing(category).len() == 0,
        category != Category::Uncategorized ==> collected(files).listing(category).len()
            == positions_of(files, category).len(),
        category != Category::Uncategorized ==> forall|k: int|
            0 <= k < positions_of(files, category).len() ==> #[trigger] collected(files).listing(
                category,
            )[k] == files[positions_of(files, category)[k]].1,
    decreases files.len(),
{
    if files.len() > 0 && category != Category::Uncategorized {
        let front = files.drop_last();
        lemma_listing_holds_each_file_once(front, category);
        lemma_positions_of(front, category);
        let before = positions_of(front, category);
        let all = positions_of(files, category);
        let listing = collected(files).listing(category);
        assert(listing.len() == all.len());
        assert forall|k: int| 0 <= k < all.len() implies #[trigger] listing[k]
            == files[all[k]].1 by {
            if k < before.len() {
                assert(all[k] == before[k]);
                assert(listing[k] == collected(front).listing(category)[k]);
                assert(files[before[k]] == front[before[k]]);
            }
        }
    }
}

impl Site {
    /// A site in which no post was met yet.
    pub fn new() -> (site: Site)
        ensures
            site@ == empty_site(),
    {
        let site = Site { blog_posts: Vec::new(), book_posts: Vec::new() };
        assert(site@.blog =~= Seq::empty());
        assert(site@.books =~= Seq::empty());
        site
    }

    /// Notes a post of `category`: it goes to the end of its category's
    /// posts. A post of no category is dropped.
    pub fn record(&mut self, category: Category, post: PostMetadata)
        ensures
            final(self)@ == old(self)@.with(category, post@),
    {
        match category {
            Category::Blog => {
                self.blog_posts.push(post);
                assert(post_views(self.blog_posts@) =~= post_views(old(self).blog_posts@).push(
                    post@,
                ));
            },
            Category::Books => {
                self.book_posts.push(post);
                assert(post_views(self.book_posts@) =~= post_views(old(self).book_posts@).push(
                    post@,
                ));
            },
            Category::Uncategorized => {},
        }
    }

    /// The posts of `category`, in the order met; `None` for
    /// `Uncategorized`, which has no listing.
    pub fn posts(&self, category: Category) -> (posts: Option<&Vec<PostMetadata>>)
        ensures
            posts is None == (category == Category::Uncategorized),
            posts is Some ==> post_views(posts->0@) == self@.listing(category),
    {
        match category {
            Category::Blog => Some(&self.blog_posts),
            Category::Books => Some(&self.book_posts),
            Category::Uncategorized => None,
        }
    }

    /// Takes the engine's answer to the request of a content file that was
    /// made ready.
    ///
    /// Where the engine rendered the page, the post is noted under its
    /// category and the page is handed out: the rendered text at the
    /// request's path. Where it failed, the site stays as it was and the
    /// error holds the engine's, under the template's name.
    pub fn accept(&mut self, prepared: PreparedPost, rendered: Result<String, tera::Error>) -> (made:
        Result<Page, SiteError>)
        ensures
            match rendered {
                Ok(html) => made matches Ok(page) && page.html == html && page.path
                    == prepared.request.path && final(self)@ == old(self)@.with(
                    prepared.category,
                    prepared.post@,
                ),
                Err(cause) => made matches Err(SiteError::Template { template, cause: held })
                    && template == prepared.request.template && held == cause && final(self)@
                    == old(self)@,
            },
    {
        match page_from(prepared.request, rendered) {
            Ok(page) => {
                self.record(prepared.category, prepared.post);
                Ok(page)
            },
            Err(e) => Err(e),
        }
    }

    /// What is rendered once every content file was met: the homepage,
    /// then the listing of `blog`, then the listing of `books`, each
    /// listing with the posts gathered for its category, in the order met.
    pub fn closing_requests(&self) -> (requests: Vec<RenderRequest>)
        ensures
            requests.len() == 3,
            is_homepage_request(requests[0]),
            is_listing_request(requests[1], "blog"@, "blog_list.html"@, self@.blog),
            is_listing_request(requests[2], "books"@, "book_list.html"@, self@.books),
    {
        proof {
            reveal_strlit("blog");
            reveal_strlit("books");
            assert("blog"@.len() != "books"@.len());
        }
        let mut requests: Vec<RenderRequest> = Vec::new();
        requests.push(prepare_homepage());
        requests.push(prepare_listing("blog", &self.blog_posts).unwrap());
        requests.push(prepare_listing("books", &self.book_posts).unwrap());
        requests
    }
}

} // verus!
