use sitegen::category::Category;
use sitegen::metadata::PostMetadata;
use sitegen::page::{
    page_from, prepare_homepage, prepare_listing, prepare_markdown, Page, PreparedPost,
    RenderRequest, SiteError,
};
use sitegen::site::Site;
use tera::Tera;

fn path(parts: &[&str]) -> Vec<String> {
    parts.iter().map(|p| p.to_string()).collect()
}

fn root() -> Vec<String> {
    path(&["src", "content"])
}

fn post(title: &str, slug: &str) -> PostMetadata {
    PostMetadata::from_frontmatter(&format!("title: {}\n", title), slug.to_string())
}

fn templates() -> Tera {
    let mut tera = Tera::default();
    for name in ["blog_detail.html", "book_detail.html", "base.html"] {
        tera.add_raw_template(name, "<title>{{ title }}</title>{{ content | safe }}").unwrap();
    }
    tera.add_raw_template("homepage.html", "{{ title }}").unwrap();
    for name in ["blog_list.html", "book_list.html"] {
        tera.add_raw_template(name, "{{ title }}{% for post in posts %} {{ post.slug }}={{ post.title }}{% endfor %}").unwrap();
    }
    tera
}

fn render(request: RenderRequest, tera: &Tera) -> Result<Page, SiteError> {
    let rendered = tera.render(&request.template, &request.context);
    page_from(request, rendered)
}

fn generate_homepage(tera: &Tera) -> Result<Page, SiteError> {
    render(prepare_homepage(), tera)
}

fn generate_listing(category: &str, posts: &Vec<PostMetadata>, tera: &Tera) -> Result<Page, SiteError> {
    render(prepare_listing(category, posts)?, tera)
}

fn add_markdown(
    site: &mut Site,
    src: &Vec<String>,
    root: &Vec<String>,
    content: &str,
    tera: &Tera,
) -> Result<Page, SiteError> {
    let prepared = prepare_markdown(src, root, content)?;
    let rendered = tera.render(&prepared.request.template, &prepared.request.context);
    site.accept(prepared, rendered)
}

fn source_tree() -> Vec<(Vec<String>, &'static str)> {
    vec![
        (path(&["src", "content", "about.md"]), "---\ntitle: About\n---\nme"),
        (path(&["src", "content", "blog", "hello.md"]), "---\ntitle: Hello\n---\n# Hi"),
        (path(&["src", "content", "books", "dune.md"]), "---\ntitle: Dune\n---\nsand"),
        (path(&["src", "content", "blog", "2024", "second.md"]), "no frontmatter"),
        (path(&["src", "content", "drafts", "blog", "x.md"]), "---\ntitle: Draft\n---\n"),
    ]
}

fn build(tera: &Tera) -> Vec<Page> {
    let mut site = Site::new();
    let mut pages = Vec::new();
    for (src, content) in source_tree() {
        pages.push(add_markdown(&mut site, &src, &root(), content, tera).unwrap());
    }
    pages.push(generate_homepage(tera).unwrap());
    pages.push(generate_listing("blog", &site.blog_posts, tera).unwrap());
    pages.push(generate_listing("books", &site.book_posts, tera).unwrap());
    pages
}

#[test]
fn new_site_is_empty() {
    let site = Site::new();
    assert!(site.blog_posts.is_empty());
    assert!(site.book_posts.is_empty());
    assert_eq!(site.posts(Category::Blog), Some(&Vec::new()));
    assert_eq!(site.posts(Category::Books), Some(&Vec::new()));
    assert_eq!(site.posts(Category::Uncategorized), None);
}

#[test]
fn record_appends_to_the_category() {
    let mut site = Site::new();
    site.record(Category::Blog, post("A", "a"));
    site.record(Category::Books, post("B", "b"));
    site.record(Category::Uncategorized, post("C", "c"));
    site.record(Category::Blog, post("D", "d"));
    assert_eq!(site.blog_posts, vec![post("A", "a"), post("D", "d")]);
    assert_eq!(site.book_posts, vec![post("B", "b")]);
    assert_eq!(site.posts(Category::Blog).unwrap().len(), 2);
    assert_eq!(site.posts(Category::Books).unwrap()[0].title, "B");
}

#[test]
fn every_file_is_listed_once_in_its_category() {
    let tera = templates();
    let mut site = Site::new();
    for (src, content) in source_tree() {
        add_markdown(&mut site, &src, &root(), content, &tera).unwrap();
    }
    let blog: Vec<&str> = site.blog_posts.iter().map(|p| p.slug.as_str()).collect();
    let books: Vec<&str> = site.book_posts.iter().map(|p| p.slug.as_str()).collect();
    assert_eq!(blog, vec!["hello", "second"]);
    assert_eq!(books, vec!["dune"]);
    assert_eq!(site.blog_posts[0].title, "Hello");
    assert_eq!(site.blog_posts[1].title, "Untitled");
    for slug in ["about", "x"] {
        assert!(site.blog_posts.iter().all(|p| p.slug != slug));
        assert!(site.book_posts.iter().all(|p| p.slug != slug));
    }
}

#[test]
fn every_file_gets_its_page() {
    let pages = build(&templates());
    let paths: Vec<String> = pages.iter().map(|p| p.path.join("/")).collect();
    assert_eq!(
        paths,
        vec![
            "about.html",
            "blog/hello.html",
            "books/dune.html",
            "blog/2024/second.html",
            "drafts/blog/x.html",
            "index.html",
            "blog.html",
            "books.html",
        ]
    );
    assert_eq!(pages[1].html, "<title>Hello</title><h1>Hi</h1>\n");
    assert_eq!(pages[5].html, "Homepage");
    assert_eq!(pages[6].html, "blog Listing hello=Hello second=Untitled");
    assert_eq!(pages[7].html, "books Listing dune=Dune");
}

#[test]
fn closing_requests_are_homepage_and_listings() {
    let tera = templates();
    let mut site = Site::new();
    for (src, content) in source_tree() {
        add_markdown(&mut site, &src, &root(), content, &tera).unwrap();
    }
    let requests = site.closing_requests();
    let templates_named: Vec<&str> = requests.iter().map(|r| r.template.as_str()).collect();
    assert_eq!(templates_named, vec!["homepage.html", "blog_list.html", "book_list.html"]);
    let paths: Vec<String> = requests.iter().map(|r| r.path.join("/")).collect();
    assert_eq!(paths, vec!["index.html", "blog.html", "books.html"]);
    assert_eq!(requests[1].context.get("posts").unwrap().as_array().unwrap().len(), 2);
    assert_eq!(requests[2].context.get("posts").unwrap().as_array().unwrap().len(), 1);
    let pages: Vec<Page> = requests.into_iter().map(|r| render(r, &tera).unwrap()).collect();
    assert_eq!(pages[0], generate_homepage(&tera).unwrap());
    assert_eq!(pages[1], generate_listing("blog", &site.blog_posts, &tera).unwrap());
    assert_eq!(pages[2], generate_listing("books", &site.book_posts, &tera).unwrap());
}

#[test]
fn closing_requests_of_an_empty_site() {
    let tera = templates();
    let pages: Vec<Page> =
        Site::new().closing_requests().into_iter().map(|r| render(r, &tera).unwrap()).collect();
    assert_eq!(pages.len(), 3);
    assert_eq!(pages[1], Page { path: path(&["blog.html"]), html: "blog Listing".to_string() });
    assert_eq!(pages[2], Page { path: path(&["books.html"]), html: "books Listing".to_string() });
}

#[test]
fn building_twice_gives_the_same_pages() {
    let tera = templates();
    assert_eq!(build(&tera), build(&tera));
}

#[test]
fn accept_takes_the_answer_of_the_engine() {
    let request = |name: &str| RenderRequest {
        template: "blog_detail.html".to_string(),
        context: tera::Context::new(),
        path: path(&["blog", name]),
    };
    let mut site = Site::new();
    let first = PreparedPost { request: request("a.html"), post: post("A", "a"), category: Category::Blog };
    let page = site.accept(first, Ok("<p>a</p>".to_string())).unwrap();
    assert_eq!(page, Page { path: path(&["blog", "a.html"]), html: "<p>a</p>".to_string() });
    assert_eq!(site.blog_posts, vec![post("A", "a")]);
    let second = PreparedPost { request: request("b.html"), post: post("B", "b"), category: Category::Blog };
    match site.accept(second, Err(tera::Error::msg("boom"))) {
        Err(SiteError::Template { template, cause }) => {
            assert_eq!(template, "blog_detail.html");
            assert_eq!(cause.to_string(), "boom");
        }
        other => panic!("{:?}", other),
    }
    assert_eq!(site.blog_posts, vec![post("A", "a")]);
    let third = PreparedPost { request: request("c.html"), post: post("C", "c"), category: Category::Uncategorized };
    site.accept(third, Ok(String::new())).unwrap();
    let fourth = PreparedPost { request: request("d.html"), post: post("D", "d"), category: Category::Books };
    site.accept(fourth, Ok(String::new())).unwrap();
    assert_eq!(site.blog_posts, vec![post("A", "a")]);
    assert_eq!(site.book_posts, vec![post("D", "d")]);
}

#[test]
fn failed_page_leaves_the_site_as_it_was() {
    let mut site = Site::new();
    site.record(Category::Blog, post("A", "a"));
    let src = path(&["src", "content", "blog", "hello.md"]);
    match add_markdown(&mut site, &src, &root(), "x", &Tera::default()) {
        Err(SiteError::Template { template, .. }) => assert_eq!(template, "blog_detail.html"),
        other => panic!("{:?}", other),
    }
    let outside = path(&["elsewhere", "blog", "hello.md"]);
    assert!(matches!(
        add_markdown(&mut site, &outside, &root(), "x", &templates()),
        Err(SiteError::PathOutsideRoot)
    ));
    assert_eq!(site.blog_posts, vec![post("A", "a")]);
    assert!(site.book_posts.is_empty());
}

#[test]
fn metadata_from_frontmatter() {
    let block = "title: T\nimage: /i.png\ndescription:  some words \ndate: 2024-02-30\n";
    let meta = PostMetadata::from_frontmatter(block, "s".to_string());
    assert_eq!(meta.title, "T");
    assert_eq!(meta.slug, "s");
    assert_eq!(meta.image, "/i.png");
    assert_eq!(meta.description, "some words");
    assert_eq!(meta.date, "2024-02-30");
}

#[test]
fn metadata_defaults() {
    let meta = PostMetadata::from_frontmatter("", "s".to_string());
    assert_eq!(meta.title, "Untitled");
    assert_eq!(meta.slug, "s");
    assert_eq!(meta.image, "/assets/images/rubber-duck.jpg");
    assert_eq!(meta.description, "No description");
    assert_eq!(meta.date, "No date");
    let meta = PostMetadata::from_frontmatter("date: today\nauthor: me\n", "s".to_string());
    assert_eq!(meta.title, "Untitled");
    assert_eq!(meta.date, "today");
}

#[test]
fn metadata_title_whatever_the_order() {
    for block in ["title: X \nimage: i\n", "image: i\ntitle:X\n", "a: b\nc\n\ntitle:    X\ndate: d\n"] {
        let meta = PostMetadata::from_frontmatter(block, "s".to_string());
        assert_eq!(meta.title, "X");
    }
}
