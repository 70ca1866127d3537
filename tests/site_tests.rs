use std::sync::Arc;

use social_preview::code_fence::extract_language_and_filename as info;
use social_preview::file_tree::{get_file_tree, FileNode};
use social_preview::markdown_cache::MarkdownCache;
use social_preview::projects::get_projects;
use social_preview::site::{CacheControlMiddleware, SearchQuery};

#[test]
fn fresh_pages_come_back() {
    let mut c = MarkdownCache::new();
    let heads = vec![(1u8, "Title".to_string(), "title".to_string())];
    c.set("notes/a".to_string(), 10, "<h1>Title</h1>".to_string(), heads.clone());
    assert_eq!(c.get_if_fresh("notes/a", 10), Some(("<h1>Title</h1>".to_string(), heads)));
    assert_eq!(c.get_if_fresh("notes/a", 11), None);
    assert_eq!(c.get_if_fresh("notes/b", 10), None);
    c.set("notes/a".to_string(), 11, "new".to_string(), vec![]);
    assert_eq!(c.get_if_fresh("notes/a", 11), Some(("new".to_string(), vec![])));
}

#[test]
fn project_groups() {
    let p = get_projects();
    let kinds: Vec<&str> = p.iter().map(|c| c.kind.as_str()).collect();
    assert_eq!(kinds, vec!["Flora", "Good Projects", "Decent Projects", "Discord Bots", "Configs"]);
    assert_eq!(p[0].array[0].name, "aster");
    assert_eq!(p[0].array[0].link, Some("https://flora.tf".to_string()));
    assert_eq!(p[4].array[1].link, None);
}

#[test]
fn static_paths_are_cached_long() {
    assert!(CacheControlMiddleware::applies_to("/static/app.css"));
    assert!(!CacheControlMiddleware::applies_to("/notes/static"));
    assert!(!CacheControlMiddleware::applies_to("/stat"));
    assert_eq!(CacheControlMiddleware::header_value(), "public, max-age=3600");
    assert_eq!(SearchQuery::default().q, "");
}

#[test]
fn file_tree_is_copied_whole() {
    let leaf = FileNode { name: "Hello".to_string(), path: "notes/hello".to_string(), is_dir: false, children: vec![] };
    let dir = FileNode { name: "notes".to_string(), path: "notes".to_string(), is_dir: true, children: vec![leaf] };
    let tree = Arc::new(vec![dir]);
    let copy = get_file_tree(&tree);
    assert_eq!(copy.len(), 1);
    assert_eq!(copy[0].name, "notes");
    assert!(copy[0].is_dir);
    assert_eq!(copy[0].children[0].path, "notes/hello");
    assert_eq!(copy[0].children[0].children.len(), 0);
}

#[test]
fn fence_info_language_and_title() {
    assert_eq!(info("rust title=\"main.rs\""), (Some("rust".to_string()), Some("main.rs".to_string())));
    assert_eq!(info(""), (None, None));
    assert_eq!(info("  py   title='a.py' title=b"), (Some("py".to_string()), Some("a.py".to_string())));
    assert_eq!(info("js title="), (Some("js".to_string()), None));
    assert_eq!(info("title=x.rs"), (Some("title=x.rs".to_string()), Some("x.rs".to_string())));
    assert_eq!(info("sh title=\"half"), (Some("sh".to_string()), Some("\"half".to_string())));
}

#[test]
fn kino_lists() {
    let k = social_preview::kino::get_kino_data();
    assert_eq!(k.youtube_channels.len(), 5);
    assert_eq!(k.youtube_channels[0].name, "freya holmer");
    assert_eq!(k.devlog_ideas.len(), 4);
    assert!(!k.devlog_ideas[0].completed);
    let done: Vec<&str> = k.devlog_ideas.iter().filter(|d| d.completed).map(|d| d.title.as_str()).collect();
    assert_eq!(done, vec!["shaders"]);
}
