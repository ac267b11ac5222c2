use tinysh::{resolve_path, Context};

fn ctx(cwd: &str) -> Context {
    Context::new("/root".to_string(), cwd.to_string())
}

#[test]
fn canonical_absolute_path_resolves_to_itself() {
    assert_eq!(resolve_path(&ctx("/home/u"), "/usr/bin"), "/usr/bin");
    assert_eq!(resolve_path(&ctx("/"), "/"), "/");
}

#[test]
fn home_forms() {
    let c = ctx("/home/u");
    assert_eq!(resolve_path(&c, ""), "/root");
    assert_eq!(resolve_path(&c, "~"), "/root");
    assert_eq!(resolve_path(&c, "~/"), "/root");
    assert_eq!(resolve_path(&c, "~/docs"), "/root/docs");
}

#[test]
fn parent_forms() {
    let c = ctx("/home/u");
    assert_eq!(resolve_path(&c, ".."), "/home");
    assert_eq!(resolve_path(&c, "../v"), "/home/v");
    assert_eq!(resolve_path(&ctx("/home"), ".."), "/");
    assert_eq!(resolve_path(&ctx("/"), ".."), "/");
    assert_eq!(resolve_path(&ctx("/"), "../etc"), "/etc");
    assert_eq!(resolve_path(&ctx("/home/u/"), ".."), "/home");
}

#[test]
fn relative_forms() {
    let c = ctx("/home/u");
    assert_eq!(resolve_path(&c, "./src"), "/home/u/src");
    assert_eq!(resolve_path(&c, "src/bin"), "/home/u/src/bin");
    assert_eq!(resolve_path(&ctx("/"), "tmp"), "/tmp");
}

#[test]
fn parent_passes_over_dot_components() {
    assert_eq!(resolve_path(&ctx("/root/."), ".."), "/");
    assert_eq!(resolve_path(&ctx("/a/./b"), ".."), "/a");
    assert_eq!(resolve_path(&ctx("/a/b/./"), "../c"), "/a/c");
    assert_eq!(resolve_path(&ctx("/."), ".."), "/.");
}
