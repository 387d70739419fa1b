use dupe_krill::FileSet;

#[test]
fn links_counts_paths_and_reported_links() {
    let mut set = FileSet::new("a".to_string(), 1);
    assert_eq!(set.links(), 1);
    set.push("b".to_string());
    assert_eq!(set.links(), 2);
    let outside = FileSet::new("c".to_string(), 5);
    assert_eq!(outside.links(), 5);
}
