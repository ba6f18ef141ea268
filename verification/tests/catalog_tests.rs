use mozheng_board::catalog::{resolve_title, Post};

fn post(title: &str) -> Post {
    Post {
        title: title.to_string(),
        author: "someone".to_string(),
        url: "https://example.invalid/p".to_string(),
    }
}

#[test]
fn resolves_exact_title() {
    let posts = vec![post("First Light"), post("Second Wind"), post("Third Rail")];
    assert_eq!(resolve_title(&posts, &"Second Wind".to_string()), Some(1));
    assert_eq!(resolve_title(&posts, &"Third Rail".to_string()), Some(2));
}

#[test]
fn unknown_title_is_none() {
    let posts = vec![post("First Light"), post("Second Wind")];
    assert_eq!(resolve_title(&posts, &"Fourth Wall".to_string()), None);
    assert_eq!(resolve_title(&posts, &"second wind".to_string()), None);
}

#[test]
fn first_matching_entry_wins() {
    let posts = vec![post("Echo"), post("Reprise"), post("Echo")];
    assert_eq!(resolve_title(&posts, &"Echo".to_string()), Some(0));
}

#[test]
fn empty_catalog_resolves_nothing() {
    let posts: Vec<Post> = Vec::new();
    assert_eq!(resolve_title(&posts, &"Anything".to_string()), None);
}
