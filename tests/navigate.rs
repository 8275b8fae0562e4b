use yazi_nav::tab::Tab;
use yazi_nav::url::Url;

#[test]
fn cd_into_file_moves_to_parent_and_hovers() {
    let mut tab = Tab::new(Url::regular("/x"));
    let r = tab.cd(Url::regular("/a/b"), Some(false));
    assert!(r.changed);
    assert_eq!(tab.current().cwd().path(), "/a");
    assert_eq!(r.hover.as_ref().map(|u| u.path()), Some("/a/b"));
    assert_eq!(r.reveal.as_ref().map(|u| u.path()), Some("/a"));
    assert!(tab.cached(&Url::regular("/x")).is_some());
    let parent = tab.parent().as_ref().map(|f| f.cwd().path().to_string());
    assert_eq!(parent.as_deref(), Some("/"));
}

#[test]
fn cd_failed_stat_changes_nothing() {
    let mut tab = Tab::new(Url::regular("/x"));
    let r = tab.cd(Url::regular("/gone"), None);
    assert!(!r.changed);
    assert!(r.hover.is_none());
    assert_eq!(tab.current().cwd().path(), "/x");
    assert_eq!(tab.backstack().len(), 1);
}

#[test]
fn cd_current_twice_is_noop() {
    let mut tab = Tab::new(Url::regular("/home"));
    tab.cd(Url::regular("/home/user"), Some(true));
    let stack = tab.backstack().len();
    for _ in 0..2 {
        let r = tab.cd(Url::regular("/home/user"), Some(true));
        assert!(!r.changed);
        assert_eq!(tab.backstack().len(), stack);
        assert!(tab.cached(&Url::regular("/home/user")).is_none());
    }
}

#[test]
fn file_in_current_directory_only_hovers() {
    let mut tab = Tab::new(Url::regular("/a"));
    let r = tab.cd(Url::regular("/a/f.txt"), Some(false));
    assert!(!r.changed);
    assert_eq!(r.hover.as_ref().map(|u| u.path()), Some("/a/f.txt"));
    assert_eq!(tab.backstack().len(), 1);
}

#[test]
fn revisit_reuses_cached_view() {
    let mut tab = Tab::new(Url::regular("/p"));
    tab.set_cursor(7);
    assert!(tab.cd(Url::regular("/q"), Some(true)).changed);
    assert_eq!(tab.current().cursor(), 0);
    assert_eq!(tab.cached(&Url::regular("/p")).map(|f| f.cursor()), Some(7));
    assert!(tab.cd(Url::regular("/p"), Some(true)).changed);
    assert_eq!(tab.current().cursor(), 7);
}

#[test]
fn revisit_from_child_reuses_parent_view() {
    let mut tab = Tab::new(Url::regular("/p"));
    tab.set_cursor(4);
    tab.cd(Url::regular("/p/child"), Some(true));
    assert_eq!(tab.parent().as_ref().map(|f| f.cursor()), Some(4));
    tab.cd(Url::regular("/p"), Some(true));
    assert_eq!(tab.current().cursor(), 4);
}

#[test]
fn backstack_only_takes_regular_places() {
    let mut tab = Tab::new(Url::regular("/r"));
    assert_eq!(tab.backstack().len(), 1);
    tab.cd(Url::virtual_("/r/archive.zip/inner"), Some(true));
    assert_eq!(tab.backstack().len(), 1);
    tab.cd(Url::regular("/s"), Some(true));
    assert_eq!(tab.backstack().len(), 2);
    assert_eq!(tab.backstack()[1].path(), "/s");
    assert!(tab.cached(&Url::virtual_("/r/archive.zip/inner")).is_none());
}

#[test]
fn virtual_current_is_not_cached() {
    let mut tab = Tab::new(Url::virtual_("/z.zip/d"));
    assert_eq!(tab.backstack().len(), 0);
    tab.cd(Url::regular("/t"), Some(true));
    assert!(tab.cached(&Url::regular("/z.zip/d")).is_none());
}

#[test]
fn root_has_no_parent() {
    let mut tab = Tab::new(Url::regular("/a"));
    tab.cd(Url::regular("/"), Some(true));
    assert!(tab.parent().is_none());
    assert_eq!(tab.current().cwd().path(), "/");
    assert!(tab.cached(&Url::regular("/a")).is_some());
}

#[test]
fn url_parent_keeps_kind() {
    let u = Url::virtual_("/a/b.zip/c");
    let p = u.parent_url().unwrap();
    assert_eq!(p.path(), "/a/b.zip");
    assert!(!p.is_regular());
    assert!(Url::regular("/").parent_url().is_none());
}

#[test]
fn trailing_slash_is_the_same_place() {
    let mut tab = Tab::new(Url::regular("/home/user"));
    tab.set_cursor(3);
    let r = tab.cd(Url::regular("/home/user/"), Some(true));
    assert!(!r.changed);
    assert_eq!(tab.current().cursor(), 3);
    assert_eq!(tab.backstack().len(), 1);
    assert!(tab.cached(&Url::regular("/home/user")).is_none());
}

#[test]
fn paths_are_held_in_normal_form() {
    assert_eq!(Url::regular("/home/user/").path(), "/home/user");
    assert_eq!(Url::regular("/a//b/./c").path(), "/a/b/c");
    assert!(Url::regular("/x/y/").same_place(&Url::regular("/x/y")));
    let p = Url::regular("/a/b/").parent_url().unwrap();
    assert_eq!(p.path(), "/a");
}

#[test]
fn cached_lookup_ignores_trailing_slash() {
    let mut tab = Tab::new(Url::regular("/p"));
    tab.set_cursor(2);
    tab.cd(Url::regular("/q/"), Some(true));
    assert_eq!(tab.cached(&Url::regular("/p/")).map(|f| f.cursor()), Some(2));
    tab.cd(Url::regular("/p/"), Some(true));
    assert_eq!(tab.current().cursor(), 2);
    assert!(tab.cached(&Url::regular("/q")).is_some());
}
