use canopy::browser::{Activate, Browser, Entry};

fn entry(name: &str, is_dir: bool) -> Entry {
    Entry { name: name.to_string(), path: format!("/p/{name}"), is_dir }
}

fn listing() -> Vec<Entry> {
    vec![
        entry("zeta.tex", false),
        entry(".git", true),
        entry("Beta", true),
        entry("alpha.tex", false),
        entry("figs", true),
        entry(".hidden.tex", false),
        entry("Main.tex", false),
    ]
}

fn names(b: &Browser) -> Vec<&str> {
    b.entries().iter().map(|e| e.name.as_str()).collect()
}

#[test]
fn refresh_skips_dotfiles_and_sorts_dirs_first() {
    let b = Browser::new("/p".to_string(), listing());
    assert_eq!(names(&b), vec!["Beta", "figs", "alpha.tex", "Main.tex", "zeta.tex"]);
    assert_eq!(b.selected(), 0);
    assert_eq!(b.cwd(), "/p");
}

#[test]
fn selection_is_clamped() {
    let mut b = Browser::new("/p".to_string(), listing());
    for _ in 0..10 {
        b.select_next();
    }
    assert_eq!(b.selected(), 4);
    b.refresh(vec![entry("a", false), entry("b", false)]);
    assert_eq!(b.selected(), 1);
    b.refresh(vec![]);
    assert_eq!(b.selected(), 0);
    b.select_prev();
    b.select_next();
    assert_eq!(b.selected(), 0);
}

#[test]
fn activate_enters_dirs_and_opens_files() {
    let mut b = Browser::new("/p".to_string(), listing());
    b.select_next(); // figs/
    assert_eq!(b.selected_is_dir(), Some(true));
    assert!(matches!(b.activate(), Activate::Navigated));
    assert_eq!(b.cwd(), "/p/figs");
    assert_eq!(b.selected(), 0);

    let mut b = Browser::new("/p".to_string(), listing());
    b.select_next();
    b.select_next(); // alpha.tex
    match b.activate() {
        Activate::OpenFile(p) => assert_eq!(p, "/p/alpha.tex"),
        Activate::Navigated => panic!("expected a file"),
    }
    assert_eq!(b.cwd(), "/p");

    let mut empty = Browser::new("/p".to_string(), vec![]);
    assert_eq!(empty.selected_is_dir(), None);
    assert!(matches!(empty.activate(), Activate::Navigated));
    assert_eq!(empty.cwd(), "/p");
}

#[test]
fn go_up_moves_to_parent() {
    let mut b = Browser::new("/p/figs".to_string(), listing());
    b.select_next();
    assert!(b.go_up());
    assert_eq!(b.cwd(), "/p");
    assert_eq!(b.selected(), 0);
    assert!(b.go_up());
    assert_eq!(b.cwd(), "/");
    assert!(!b.go_up());
    assert_eq!(b.cwd(), "/");
}

#[test]
fn start_dir_is_parent_of_a_file() {
    assert_eq!(Browser::start_dir("/p/main.tex", false), "/p");
    assert_eq!(Browser::start_dir("/p", true), "/p");
    // A bare file name lives in the current directory.
    assert_eq!(Browser::start_dir("main.tex", false), ".");
}

#[test]
fn go_up_from_a_relative_name_reaches_the_empty_path() {
    let mut b = Browser::new(".".to_string(), listing());
    assert!(b.go_up());
    assert_eq!(b.cwd(), "");
    assert!(!b.go_up());
    let mut b = Browser::new("sub/inner".to_string(), listing());
    assert!(b.go_up());
    assert_eq!(b.cwd(), "sub");
}

#[test]
fn names_equal_but_for_case_keep_listing_order() {
    let f = |n: &str| entry(n, false);
    let b = Browser::new("/p".to_string(), vec![f("b.tex"), f("A.tex"), f("a.tex")]);
    assert_eq!(names(&b), vec!["A.tex", "a.tex", "b.tex"]);
    let b = Browser::new("/p".to_string(), vec![f("a.tex"), f("b.tex"), f("A.tex")]);
    assert_eq!(names(&b), vec!["a.tex", "A.tex", "b.tex"]);
}
