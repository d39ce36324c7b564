use wcapp::catalog::{enumerate, IndexError};
use wcapp::sync::plan_copies;

fn listing(files: &[&str]) -> Vec<String> {
    files.iter().map(|f| f.to_string()).collect()
}

fn shape(files: &[&str]) -> Vec<(String, Vec<String>)> {
    let files = listing(files);
    let snapshot = enumerate(Some(&files)).unwrap();
    snapshot.categories().iter().map(|c| (c.name.clone(), c.entries.clone())).collect()
}

#[test]
fn a_missing_root_is_no_catalog() {
    assert_eq!(enumerate(None), Err(IndexError::RootMissing));
}

#[test]
fn an_empty_root_is_an_empty_snapshot() {
    let files: Vec<String> = Vec::new();
    let snapshot = enumerate(Some(&files)).unwrap();
    assert_eq!(snapshot.len(), 0);
    assert_eq!(snapshot.total(), 0);
    assert!(snapshot.entries().is_empty());
}

#[test]
fn categories_and_entries_come_sorted() {
    let got = shape(&[
        "nature/b.jpg",
        "city/z.png",
        "nature/a.jpg",
        "abstract/one.gif",
        "city/a.png",
        "nature/B.jpg",
    ]);
    assert_eq!(
        got,
        vec![
            ("abstract".to_string(), listing(&["abstract/one.gif"])),
            ("city".to_string(), listing(&["city/a.png", "city/z.png"])),
            ("nature".to_string(), listing(&["nature/B.jpg", "nature/a.jpg", "nature/b.jpg"])),
        ]
    );
}

#[test]
fn categories_without_images_are_left_out() {
    let got = shape(&["docs/readme.txt", "docs/notes.md", "nature/a.jpg", "empty/.jpg"]);
    assert_eq!(got, vec![("nature".to_string(), listing(&["nature/a.jpg"]))]);
}

#[test]
fn files_outside_any_category_are_left_out() {
    let got = shape(&["loose.jpg", "nature/a.jpg", "/odd.png"]);
    assert_eq!(got, vec![("nature".to_string(), listing(&["nature/a.jpg"]))]);
}

#[test]
fn nested_files_belong_to_their_top_level_category() {
    let got = shape(&["nature/trees/oak.jpg", "nature/a.jpg", "nature/trees/elm.png"]);
    assert_eq!(
        got,
        vec![(
            "nature".to_string(),
            listing(&["nature/a.jpg", "nature/trees/elm.png", "nature/trees/oak.jpg"])
        )]
    );
}

#[test]
fn the_order_of_the_listing_does_not_matter() {
    let one = shape(&["b/2.jpg", "a/1.jpg", "b/1.jpg", "c/x.txt", "a/0.png"]);
    let two = shape(&["a/0.png", "c/x.txt", "b/1.jpg", "a/1.jpg", "b/2.jpg"]);
    assert_eq!(one, two);
    assert_eq!(one.len(), 2);
}

#[test]
fn a_file_listed_twice_is_held_once() {
    let got = shape(&["a/1.jpg", "a/1.jpg"]);
    assert_eq!(got, vec![("a".to_string(), listing(&["a/1.jpg"]))]);
    let got = shape(&["b/2.png", "a/1.jpg", "b/2.png", "a/0.jpg", "a/1.jpg", "b/2.png"]);
    assert_eq!(
        got,
        vec![
            ("a".to_string(), listing(&["a/0.jpg", "a/1.jpg"])),
            ("b".to_string(), listing(&["b/2.png"])),
        ]
    );
}

#[test]
fn entries_are_strictly_increasing() {
    let files = listing(&["a/3.jpg", "a/1.jpg", "a/2.jpg", "a/1.jpg", "b/1.jpg", "a/3.jpg"]);
    let snapshot = enumerate(Some(&files)).unwrap();
    for category in snapshot.categories() {
        for pair in category.entries.windows(2) {
            assert!(pair[0] < pair[1], "{:?}", pair);
        }
    }
    assert_eq!(snapshot.total(), 4);
}

#[test]
fn entries_flatten_category_after_category() {
    let files = listing(&["b/2.jpg", "a/9.jpg", "b/1.jpg"]);
    let snapshot = enumerate(Some(&files)).unwrap();
    assert_eq!(snapshot.entries(), listing(&["a/9.jpg", "b/1.jpg", "b/2.jpg"]));
    assert_eq!(snapshot.total(), 3);
    assert_eq!(snapshot.len(), 2);
}

#[test]
fn category_names_sort_by_code_point() {
    let got = shape(&["a/x.jpg", "a-b/x.jpg", "B/x.jpg", "ab/x.jpg"]);
    let names: Vec<String> = got.into_iter().map(|(n, _)| n).collect();
    assert_eq!(names, listing(&["B", "a", "a-b", "ab"]));
}

#[test]
fn sync_then_enumerate_scenario() {
    let staged = listing(&["nature/a.jpg", "nature/b.txt", "city/c.png"]);
    let copies = plan_copies(&staged, "dest");
    let sources: Vec<String> = copies.iter().map(|c| c.source.clone()).collect();
    let targets: Vec<String> = copies.iter().map(|c| c.target.clone()).collect();
    assert_eq!(sources, listing(&["nature/a.jpg", "city/c.png"]));
    assert_eq!(targets, listing(&["dest/nature/a.jpg", "dest/city/c.png"]));
    assert_eq!(copies.len(), 2);
    let snapshot = enumerate(Some(&sources)).unwrap();
    let got: Vec<(String, Vec<String>)> =
        snapshot.categories().iter().map(|c| (c.name.clone(), c.entries.clone())).collect();
    assert_eq!(
        got,
        vec![
            ("city".to_string(), listing(&["city/c.png"])),
            ("nature".to_string(), listing(&["nature/a.jpg"])),
        ]
    );
}
