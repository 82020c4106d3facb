use astel::table_serializer::{render_table, to_table, try_to_table, wrap};

fn fields() -> Vec<String> {
    vec!["username".to_string(), "email".to_string()]
}

#[test]
fn wrap_puts_tags_around() {
    assert_eq!(wrap("td", "x"), "<td>x</td>");
    assert_eq!(wrap("table", ""), "<table></table>");
}

#[test]
fn table_of_items_follows_field_order() {
    let rows = vec![
        r#"{"username":"cat","email":"cat@meow.nya"}"#.to_string(),
        r#"{"email":"dog@woof.wau","username":"dog","age":3}"#.to_string(),
    ];
    let t = to_table(&fields(), &rows);
    assert_eq!(
        t,
        [
            "<table><th>username</th><th>email</th>",
            "<tr><td>\"cat\"</td><td>\"cat@meow.nya\"</td></tr>",
            "<tr><td>\"dog\"</td><td>\"dog@woof.wau\"</td></tr>",
            "</table>"
    ].concat()
    );
}

#[test]
fn values_are_shown_as_json() {
    let rows = vec![r#"{"n": 12, "ok": true, "tags": ["a", "b"], "none": null}"#.to_string()];
    let f = vec!["n".to_string(), "ok".to_string(), "tags".to_string(), "none".to_string()];
    let t = to_table(&f, &rows);
    assert_eq!(
        t,
        "<table><th>n</th><th>ok</th><th>tags</th><th>none</th><tr><td>12</td><td>true</td><td>[\"a\",\"b\"]</td><td>null</td></tr></table>"
    );
}

#[test]
fn empty_list_gives_header_only() {
    let t = to_table(&fields(), &vec![]);
    assert_eq!(t, "<table><th>username</th><th>email</th></table>");
}

#[test]
fn missing_field_gives_none() {
    let rows = vec![r#"{"username":"cat"}"#.to_string()];
    assert_eq!(try_to_table(&fields(), &rows), None);
}

#[test]
fn non_object_gives_none() {
    assert_eq!(try_to_table(&fields(), &vec!["[1,2]".to_string()]), None);
    assert_eq!(try_to_table(&fields(), &vec!["not json".to_string()]), None);
}

#[test]
fn render_table_from_members() {
    let rows = vec![vec![
        ("email".to_string(), "e".to_string()),
        ("username".to_string(), "u".to_string()),
    ]];
    assert_eq!(
        render_table(&fields(), &rows),
        "<table><th>username</th><th>email</th><tr><td>u</td><td>e</td></tr></table>"
    );
}

#[test]
fn checked_table_of_complete_items() {
    let rows = vec![r#"{"username":"cat","email":"c"}"#.to_string()];
    assert_eq!(
        try_to_table(&fields(), &rows),
        Some("<table><th>username</th><th>email</th><tr><td>\"cat\"</td><td>\"c\"</td></tr></table>".to_string())
    );
}
