use astel::html::HtmlContextBuilder;
use astel::routes::delete::delete_resource_get;
use astel::routes::edit::edit_resource_get;
use astel::routes::home::home;
use astel::routes::index::index_resource;
use astel::routes::new::new_resource_get;
use astel::routes::{add_routes_for, require_found, resource_url, Handler};
use astel::Astel;

fn builder() -> HtmlContextBuilder {
    HtmlContextBuilder {
        config: Astel::new("/astel").register_resource("Users").into_config(),
    }
}

#[test]
fn a_resource_has_six_routes() {
    let r = add_routes_for("Users");
    let got: Vec<(String, Handler)> = r.into_iter().map(|r| (r.path, r.handler)).collect();
    assert_eq!(
        got,
        vec![
            ("/Users".to_string(), Handler::View),
            ("/Users/".to_string(), Handler::View),
            ("/Users/edit".to_string(), Handler::Edit),
            ("/Users/edit/".to_string(), Handler::Edit),
            ("/Users/delete".to_string(), Handler::Delete),
            ("/Users/delete/".to_string(), Handler::Delete),
        ]
    );
}

#[test]
fn routes_of_two_resources_do_not_overlap() {
    let a: Vec<String> = add_routes_for("Users").into_iter().map(|r| r.path).collect();
    let b: Vec<String> = add_routes_for("User").into_iter().map(|r| r.path).collect();
    for p in &a {
        assert!(!b.contains(p));
    }
}

#[test]
fn redirects_go_to_the_listing() {
    assert_eq!(resource_url("/astel", "Users"), "/astel/Users");
    assert_eq!(resource_url("", "Users"), "/Users");
}

#[test]
fn home_page() {
    let h = home(builder());
    assert_eq!(h.get_title(), "Astel - Home");
    assert_eq!(
        h.content,
        "<h1>Home</h1><p>This dashboard is empty. You can customize it with <code>Astel::main_dashboard</code>.</p>"
    );
}

#[test]
fn index_page_links_to_creation_form() {
    let h = index_resource(builder(), "Users", "<table></table>");
    assert_eq!(
        h.content,
        "<h1>Users</h1><a href=\"/astel/Users/new\">new</a><table></table>"
    );
    assert_eq!(h.get_title(), "astel");
}

#[test]
fn names_are_escaped_in_pages() {
    let h = index_resource(builder(), "<i>", "");
    assert_eq!(h.content, "<h1>&lt;i&gt;</h1><a href=\"/astel/&lt;i&gt;/new\">new</a>");
    let h = edit_resource_get(builder(), "A&B", "<form></form>");
    assert_eq!(h.content, "<h1>A&amp;B - Edit</h1><form></form>");
}

#[test]
fn edit_and_new_pages() {
    let h = edit_resource_get(builder(), "Users", "<form>e</form>");
    assert_eq!(h.content, "<h1>Users - Edit</h1><form>e</form>");
    let h = new_resource_get(builder(), "Users", "<form>n</form>");
    assert_eq!(h.content, "<h1>Users - Create</h1><form>n</form>");
}

#[test]
fn delete_confirmation() {
    assert_eq!(
        delete_resource_get(),
        "<form method=\"POST\"><button type=\"submit\">delete</button></form>"
    );
}

#[test]
fn lookups_that_found_an_item() {
    let r: Result<Option<u32>, String> = Ok(Some(7));
    assert_eq!(require_found(r), Ok(7));
    let r: Result<Option<u32>, String> = Err("db down".to_string());
    assert_eq!(require_found(r), Err("db down".to_string()));
}
