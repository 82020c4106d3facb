use astel::Astel;

#[test]
fn new_panel_is_mounted_at_its_path() {
    let a = Astel::new("/astel");
    assert_eq!(a.path(), "/astel");
    let c = a.into_config();
    let inner = c.inner();
    assert_eq!(inner.path, "/astel");
    assert!(inner.names.is_empty());
    assert_eq!(inner.css_path, None);
    assert_eq!(inner.title, None);
    assert!(inner.js_paths.is_empty());
}

#[test]
fn resources_are_listed_in_registration_order() {
    let a = Astel::new("/admin")
        .register_resource("Users")
        .register_resource("Posts");
    assert!(a.has_resource("Users"));
    assert!(a.has_resource("Posts"));
    assert!(!a.has_resource("Comments"));
    let c = a.into_config();
    assert_eq!(c.inner().names, vec!["Users".to_string(), "Posts".to_string()]);
}

#[test]
fn a_name_in_use_is_reported() {
    let a = Astel::new("/admin").register_resource("Users");
    assert!(a.has_resource("Users"));
    assert!(!a.has_resource("users"));
}

#[test]
fn scripts_accumulate_and_setters_touch_one_field() {
    let a = Astel::new("/admin")
        .with_js("/a.js")
        .with_title("Back office")
        .with_js("/b.js")
        .with_css_path("/style.css")
        .register_dashboard("main", ());
    let c = a.into_config();
    let inner = c.inner();
    assert_eq!(inner.js_paths, vec!["/a.js".to_string(), "/b.js".to_string()]);
    assert_eq!(inner.title, Some("Back office".to_string()));
    assert_eq!(inner.css_path, Some("/style.css".to_string()));
    assert_eq!(inner.path, "/admin");
    assert!(inner.names.is_empty());
}

#[test]
fn default_panel_is_mounted_at_the_root() {
    let a = Astel::default();
    assert_eq!(a.path(), "");
    assert!(!a.has_resource(""));
}
