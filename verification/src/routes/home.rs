use crate::html::{HtmlContext, HtmlContextBuilder};
use vstd::prelude::*;
use vstd::string::StringExecFns;

verus! {

/// The content of the panel's home page.
pub open spec fn home_content() -> Seq<char> {
    "<h1>Home</h1><p>This dashboard is empty. You can customize it with <code>Astel::main_dashboard</code>.</p>"@
}

/// The panel's home page, titled "Astel - Home".
pub fn home(html: HtmlContextBuilder) -> (h: HtmlContext)
    ensures
        h.wf(),
        h.content@ == home_content(),
        h.config == html.config,
        h.title_text() == "Astel - Home"@,
        h.description is None,
        h.sections@.len() == 0,
{
    let content = String::from_str(
        "<h1>Home</h1><p>This dashboard is empty. You can customize it with <code>Astel::main_dashboard</code>.</p>",
    );
    html.build(content).with_title("Astel - Home")
}

} // verus!
