use vstd::prelude::*;
use vstd::string::StringExecFns;

verus! {

/// The delete confirmation: a form that posts back to the same route.
pub open spec fn delete_form() -> Seq<char> {
    "<form method=\"POST\"><button type=\"submit\">delete</button></form>"@
}

/// The delete confirmation page.
pub fn delete_resource_get() -> (r: String)
    ensures
        r@ == delete_form(),
{
    String::from_str("<form method=\"POST\"><button type=\"submit\">delete</button></form>")
}

} // verus!
