use astel::html::HtmlContextBuilder;
use astel::{Astel, AstelConfig};

fn builder() -> HtmlContextBuilder {
    let config: AstelConfig = Astel::new("/astel")
        .register_resource("Users")
        .register_resource("Cats & Dogs")
        .into_config();
    HtmlContextBuilder { config }
}

#[test]
fn title_defaults_to_astel() {
    let h = builder().build("<p>x</p>".to_string());
    assert_eq!(h.get_title(), "astel");
    let h = h.with_title("Users");
    assert_eq!(h.get_title(), "Users");
}

#[test]
fn description_is_kept() {
    let h = builder().build(String::new());
    assert_eq!(h.get_description(), None);
    let h = h.with_description("all the users");
    assert_eq!(h.get_description(), Some("all the users"));
}

#[test]
fn sections_collect_markup_in_order() {
    let h = builder().build(String::new());
    assert_eq!(h.section_get("scripts"), "");
    let h = h
        .section_append("scripts", "<script src=\"/a.js\"></script>".to_string())
        .section_append("styles", "<style></style>".to_string())
        .section_append("scripts", "<script src=\"/b.js\"></script>".to_string());
    assert_eq!(
        h.section_get("scripts"),
        "<script src=\"/a.js\"></script><script src=\"/b.js\"></script>"
    );
    assert_eq!(h.section_get("styles"), "<style></style>");
    assert_eq!(h.section_get("other"), "");
}

#[test]
fn page_has_sidebar_and_content() {
    let h = builder().build("<p>hello</p>".to_string()).with_title("A <b> title");
    let expected = [
        "<!DOCTYPE html><head><title>A &lt;b&gt; title</title>",
        "<link rel=\"stylesheet\" href=\"/astel/css/main.css\" type=\"text/css\"></head>",
        "<body><div class=\"categories\"><h2><a href=\"/astel\">Astel</a></h2>",
        "<a href=\"/astel/Users\">Users</a>",
        "<a href=\"/astel/Cats &amp; Dogs\">Cats &amp; Dogs</a>",
        "</div><div class=\"container\"><p>hello</p></div></body>"
    ].concat();
    assert_eq!(h.render(), expected);
}

#[test]
fn page_of_panel_without_resources() {
    let config = Astel::new("/x\"y").into_config();
    let h = HtmlContextBuilder { config }.build(String::new());
    let expected = [
        "<!DOCTYPE html><head><title>astel</title>",
        "<link rel=\"stylesheet\" href=\"/x&quot;y/css/main.css\" type=\"text/css\"></head>",
        "<body><div class=\"categories\"><h2><a href=\"/x&quot;y\">Astel</a></h2>",
        "</div><div class=\"container\"></div></body>"
    ].concat();
    assert_eq!(h.render(), expected);
}

#[test]
fn page_uses_configured_stylesheet_title_and_scripts() {
    let config = Astel::new("/admin")
        .register_resource("Users")
        .with_css_path("/my.css")
        .with_title("Back & office")
        .with_js("/a.js")
        .with_js("/b.js")
        .into_config();
    let h = HtmlContextBuilder { config }.build("<p>c</p>".to_string());
    let expected = [
        "<!DOCTYPE html><head><title>astel</title>",
        "<link rel=\"stylesheet\" href=\"/my.css\" type=\"text/css\"></head>",
        "<body><div class=\"categories\"><h2><a href=\"/admin\">Back &amp; office</a></h2>",
        "<a href=\"/admin/Users\">Users</a>",
        "</div><div class=\"container\"><p>c</p></div>",
        "<script src=\"/a.js\"></script><script src=\"/b.js\"></script></body>",
    ]
    .concat();
    assert_eq!(h.render(), expected);
}

#[test]
fn cloned_configuration_renders_the_same() {
    let b = builder();
    let c = b.clone();
    assert_eq!(b.build(String::new()).render(), c.build(String::new()).render());
}
