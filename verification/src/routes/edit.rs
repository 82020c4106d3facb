use super::fresh_page;
use crate::escape::{html_escape, push_escaped};
use crate::html::{HtmlContext, HtmlContextBuilder};
use vstd::prelude::*;
use vstd::string::StringExecFns;

verus! {

/// The content of the edit page of resource `name`: a heading, then the form.
pub open spec fn edit_content(name: Seq<char>, form: Seq<char>) -> Seq<char> {
    "<h1>"@ + html_escape(name) + " - Edit</h1>"@ + form
}

/// The edit page of resource `name`, around `form`, the item's filled-in form.
pub fn edit_resource_get(html: HtmlContextBuilder, name: &str, form: &str) -> (h: HtmlContext)
    ensures
        fresh_page(h, html, edit_content(name@, form@)),
{
    let mut c = String::from_str("<h1>");
    push_escaped(&mut c, name);
    c.append(" - Edit</h1>");
    c.append(form);
    html.build(c)
}

/// The edit page starts with a heading that holds the whole resource name,
/// escaped, followed by " - Edit"; the form follows the heading.
pub proof fn lemma_edit_heading(name: Seq<char>, form: Seq<char>)
    ensures
        ({
            let c = edit_content(name, form);
            let e = html_escape(name);
            &&& c.take(4) == "<h1>"@
            &&& c.subrange(4, 4 + (e.len() as int)) == e
            &&& c.subrange(4 + (e.len() as int), 4 + (e.len() as int) + 12) == " - Edit</h1>"@
            &&& c.skip(4 + (e.len() as int) + 12) == form
        }),
{
    reveal_strlit("<h1>");
    reveal_strlit(" - Edit</h1>");
    let c = edit_content(name, form);
    let e = html_escape(name);
    assert(c.take(4) =~= "<h1>"@);
    assert(c.subrange(4, 4 + (e.len() as int)) =~= e);
    assert(c.subrange(4 + (e.len() as int), 4 + (e.len() as int) + 12) =~= " - Edit</h1>"@);
    assert(c.skip(4 + (e.len() as int) + 12) =~= form);
}

} // verus!
