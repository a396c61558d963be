use canopy::finder::{accepts_more, is_skipped, Finder, MAX_CANDIDATES};

fn cands(n: usize) -> Vec<String> {
    (0..n).map(|i| format!("/root/dir/file{i:03}.tex")).collect()
}

#[test]
fn empty_query_lists_first_candidates() {
    let f = Finder::new("/root".to_string(), cands(5));
    assert_eq!(f.match_count(), 5);
    assert_eq!(f.candidate_count(), 5);
    assert_eq!(f.display_matches()[0], "dir/file000.tex");
    assert_eq!(f.selected_path(), Some("/root/dir/file000.tex"));

    let big = Finder::new("/root".to_string(), cands(250));
    assert_eq!(big.match_count(), 200);
    assert_eq!(big.candidate_count(), 250);
}

#[test]
fn query_filters_and_ranks() {
    let list = vec![
        "/r/notes/draft.md".to_string(),
        "/r/paper/main.tex".to_string(),
        "/r/paper/appendix.tex".to_string(),
        "/r/main.tex".to_string(),
    ];
    let mut f = Finder::new("/r".to_string(), list);
    for ch in "main".chars() {
        f.push(ch);
    }
    let shown = f.display_matches();
    assert_eq!(shown.len(), 2);
    assert!(shown.contains(&"main.tex".to_string()));
    assert!(shown.contains(&"paper/main.tex".to_string()));
    // Whitespace around the query is ignored.
    f.push(' ');
    assert_eq!(f.match_count(), 2);
    for _ in 0..5 {
        f.pop();
    }
    assert_eq!(f.query, "");
    assert_eq!(f.match_count(), 4);
}

#[test]
fn selection_moves_within_matches() {
    let mut f = Finder::new("/root".to_string(), cands(3));
    f.move_up();
    assert_eq!(f.selected, 0);
    for _ in 0..5 {
        f.move_down();
    }
    assert_eq!(f.selected, 2);
    f.push('z'); // no match
    assert_eq!(f.match_count(), 0);
    assert_eq!(f.selected, 0);
    assert_eq!(f.selected_path(), None);
    f.move_down();
    assert_eq!(f.selected, 0);
}

#[test]
fn skipped_directories() {
    assert!(is_skipped(Some("node_modules")));
    assert!(is_skipped(Some("target")));
    assert!(is_skipped(Some(".venv")));
    assert!(!is_skipped(Some("src")));
    assert!(!is_skipped(None));
    assert!(accepts_more(0));
    assert!(!accepts_more(MAX_CANDIDATES));
}

#[test]
fn candidates_are_sorted_in_path_order() {
    let found = vec![
        "/r/b.tex".to_string(),
        "/r/a-b/x.tex".to_string(),
        "/r/a/y.tex".to_string(),
    ];
    let f = Finder::new("/r".to_string(), found);
    // Paths compare component by component: "a" sorts before "a-b".
    assert_eq!(f.display_matches(), vec!["a/y.tex", "a-b/x.tex", "b.tex"]);
}

#[test]
fn candidates_are_capped() {
    let found: Vec<String> =
        (0..MAX_CANDIDATES + 5).rev().map(|i| format!("/r/f{i:06}.tex")).collect();
    let f = Finder::new("/r".to_string(), found);
    assert_eq!(f.candidate_count(), MAX_CANDIDATES);
    // The first MAX_CANDIDATES found are kept (the last five found are
    // f000000..f000004), then sorted.
    assert_eq!(f.display_matches()[0], "f000005.tex");
    assert_eq!(f.match_count(), 200);
}

#[test]
fn pop_undoes_push() {
    let list = vec![
        "/r/notes/draft.md".to_string(),
        "/r/paper/main.tex".to_string(),
        "/r/paper/appendix.tex".to_string(),
        "/r/main.tex".to_string(),
    ];
    let mut f = Finder::new("/r".to_string(), list);
    f.push('m');
    f.push('a');
    f.move_down();
    let (q, shown, n, sel) = (f.query.clone(), f.display_matches(), f.candidate_count(), f.selected);
    f.push('x');
    f.pop();
    assert_eq!(f.query, q);
    assert_eq!(f.display_matches(), shown);
    assert_eq!(f.candidate_count(), n);
    assert!(f.selected <= sel);
}
