use airos::airfiles::breadcrumb::BreadcrumbPath;

#[test]
fn from_path_parses_segments() {
    let p = BreadcrumbPath::from_path("/Users/vo/Documents");
    let segs = p.segments();
    assert_eq!(segs.last().unwrap(), "Documents");
    assert!(segs.contains(&"Users".to_string()));
}

#[test]
fn depth_matches_component_count() {
    let p = BreadcrumbPath::from_path("/Users/vo");
    assert_eq!(p.depth(), 3);
}

#[test]
fn navigate_to_index_truncates() {
    let p = BreadcrumbPath::from_path("/Users/vo/Documents");
    let trimmed = p.navigate_to_index(1);
    assert_eq!(trimmed.depth(), 2);
    assert_eq!(trimmed.segments().last().unwrap(), "Users");
}

#[test]
fn navigate_to_index_beyond_length_returns_full() {
    let p = BreadcrumbPath::from_path("/Users/vo");
    let full = p.navigate_to_index(99);
    assert_eq!(full.depth(), p.depth());
}

#[test]
fn push_appends_segment() {
    let mut p = BreadcrumbPath::from_path("/Users/vo");
    p.push("Downloads".into());
    assert_eq!(p.depth(), 4);
    assert_eq!(p.segments().last().unwrap(), "Downloads");
}

#[test]
fn pop_removes_last_segment() {
    let mut p = BreadcrumbPath::from_path("/Users/vo");
    let removed = p.pop();
    assert_eq!(removed, Some("vo".to_string()));
    assert_eq!(p.depth(), 2);
}

#[test]
fn pop_on_root_returns_none() {
    let mut p = BreadcrumbPath::from_path("/");
    let removed = p.pop();
    assert_eq!(removed, None);
    assert_eq!(p.depth(), 1);
}

#[test]
fn to_path_buf_reconstructs_path() {
    let original = "/Users/vo/Documents";
    let p = BreadcrumbPath::from_path(original);
    assert_eq!(p.to_path_buf(), original.to_string());
}

#[test]
fn from_path_segments_are_exact_components() {
    let p = BreadcrumbPath::from_path("/Users//vo/./Documents/");
    let segs: Vec<String> = p.segments().to_vec();
    assert_eq!(segs, vec!["/".to_string(), "Users".to_string(), "vo".to_string(), "Documents".to_string()]);
}

#[test]
fn relative_path_has_no_root_segment() {
    let p = BreadcrumbPath::from_path("a/b");
    assert_eq!(p.segments().to_vec(), vec!["a".to_string(), "b".to_string()]);
    assert_eq!(p.to_path_buf(), "a/b".to_string());
}

#[test]
fn push_then_pop_restores_path() {
    let mut p = BreadcrumbPath::from_path("/Users/vo");
    let before = p.clone();
    p.push("Music".into());
    assert_eq!(p.pop(), Some("Music".to_string()));
    assert_eq!(p, before);
}

#[test]
fn navigate_to_index_zero_keeps_root() {
    let p = BreadcrumbPath::from_path("/Users/vo");
    let root = p.navigate_to_index(0);
    assert_eq!(root.to_path_buf(), "/".to_string());
}

#[test]
fn navigate_to_largest_index_returns_full_path() {
    let p = BreadcrumbPath::from_path("/Users/vo");
    assert_eq!(p.navigate_to_index(usize::MAX), p);
}
