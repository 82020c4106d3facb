use super::fresh_page;
use crate::escape::{html_escape, push_escaped};
use crate::html::{HtmlContext, HtmlContextBuilder};
use vstd::prelude::*;
use vstd::string::StringExecFns;

verus! {

/// The content of the listing page of resource `name` in the panel mounted
/// at `path`: a heading, a link to the creation form, then the table.
pub open spec fn index_content(path: Seq<char>, name: Seq<char>, table: Seq<char>) -> Seq<char> {
    "<h1>"@ + html_escape(name) + "</h1><a href=\""@ + html_escape(path) + "/"@ + html_escape(name)
        + "/new\">new</a>"@ + table
}

/// The listing page of resource `name`, around `table`, its items' table.
pub fn index_resource(html: HtmlContextBuilder, name: &str, table: &str) -> (h: HtmlContext)
    ensures
        fresh_page(h, html, index_content(html.config@.path, name@, table@)),
{
    let mut c = String::from_str("<h1>");
    push_escaped(&mut c, name);
    c.append("</h1><a href=\"");
    push_escaped(&mut c, html.config.inner().path.as_str());
    c.append("/");
    push_escaped(&mut c, name);
    c.append("/new\">new</a>");
    c.append(table);
    html.build(c)
}

/// The listing page's link to the creation form starts with the panel's
/// configured path, escaped: the page is a heading with the escaped name,
/// the opening of the link, the escaped path, then the rest of the link
/// (`/`, the escaped name, `/new`) and the table, none of which depends on
/// the path.
pub proof fn lemma_index_link_uses_path(path: Seq<char>, name: Seq<char>, table: Seq<char>)
    ensures
        ({
            let c = index_content(path, name, table);
            let head = "<h1>"@ + html_escape(name) + "</h1>"@ + "<a href=\""@;
            let p = html_escape(path);
            &&& c.take((head.len() as int)) == head
            &&& c.subrange((head.len() as int), (head.len() as int) + (p.len() as int)) == p
            &&& c.skip((head.len() as int) + (p.len() as int)) == "/"@ + html_escape(name) + "/new\">new</a>"@ + table
        }),
{
    reveal_strlit("</h1><a href=\"");
    reveal_strlit("</h1>");
    reveal_strlit("<a href=\"");
    assert("</h1><a href=\""@ =~= "</h1>"@ + "<a href=\""@);
    let c = index_content(path, name, table);
    let head = "<h1>"@ + html_escape(name) + "</h1>"@ + "<a href=\""@;
    let p = html_escape(path);
    let rest = "/"@ + html_escape(name) + "/new\">new</a>"@ + table;
    assert(c =~= head + p + rest);
    assert(c.take((head.len() as int)) =~= head);
    assert(c.subrange((head.len() as int), (head.len() as int) + (p.len() as int)) =~= p);
    assert(c.skip((head.len() as int) + (p.len() as int)) =~= rest);
}

} // verus!
