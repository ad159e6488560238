use ssg::tree::{collect_items, find_entry, Entry, Item};

fn file(name: &str, text: &str) -> Entry {
    Entry::File {
        name: name.to_string(),
        text: text.to_string(),
    }
}

fn dir(name: &str, children: Vec<Entry>) -> Entry {
    Entry::Dir {
        name: name.to_string(),
        children,
    }
}

fn item(dir: &str, name: &str, text: &str) -> Item {
    Item {
        dir: dir.to_string(),
        name: name.to_string(),
        text: text.to_string(),
    }
}

fn summary(items: &[Item]) -> Vec<(String, String, String)> {
    items
        .iter()
        .map(|i| (i.dir.clone(), i.name.clone(), i.text.clone()))
        .collect()
}

#[test]
fn entry_names() {
    assert_eq!(file("a.md", "x").name(), "a.md");
    assert_eq!(dir("posts", vec![]).name(), "posts");
}

#[test]
fn find_entry_looks_at_names_of_files_and_directories() {
    let listing = vec![file("index.html", ""), dir("posts", vec![file("a.md", "")])];
    assert!(find_entry(&listing, "index.html"));
    assert!(find_entry(&listing, "posts"));
    assert!(!find_entry(&listing, "a.md"));
    assert!(!find_entry(&listing, "template.html"));
    assert!(!find_entry(&Vec::new(), "index.html"));
}

#[test]
fn walk_of_an_empty_directory_finds_nothing() {
    assert!(collect_items(&Vec::new(), "posts").is_empty());
}

#[test]
fn walk_keeps_markdown_files_only() {
    let listing = vec![
        file("a.md", "A"),
        file("image.png", ""),
        file("notes.txt", "n"),
        file(".md", "hidden"),
        file("b.md", "B"),
    ];
    let found = collect_items(&listing, "posts");
    assert_eq!(
        summary(&found),
        summary(&[item("posts", "a.md", "A"), item("posts", "b.md", "B")])
    );
}

#[test]
fn walk_enters_directories_and_keeps_their_layout() {
    let listing = vec![
        file("first.md", "1"),
        dir(
            "nested",
            vec![
                file("a.md", "2"),
                dir("deep", vec![file("b.md", "3"), file("c.txt", "")]),
            ],
        ),
        dir("empty", vec![]),
        file("last.md", "4"),
    ];
    let found = collect_items(&listing, "posts");
    assert_eq!(
        summary(&found),
        summary(&[
            item("posts", "first.md", "1"),
            item("posts/nested", "a.md", "2"),
            item("posts/nested/deep", "b.md", "3"),
            item("posts", "last.md", "4"),
        ])
    );
}

#[test]
fn a_directory_with_a_markdown_name_is_entered_and_is_no_content() {
    let listing = vec![dir("notes.md", vec![file("inner.md", "x")])];
    let found = collect_items(&listing, "posts");
    assert_eq!(
        summary(&found),
        summary(&[item("posts/notes.md", "inner.md", "x")])
    );
}
