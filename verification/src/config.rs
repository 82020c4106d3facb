use std::sync::Arc;
use vstd::prelude::*;

verus! {

/// The abstract content of a panel configuration.
pub ghost struct ConfigView {
    /// The path under which the panel is mounted.
    pub path: Seq<char>,
    /// The names of the registered resources, in registration order.
    pub names: Seq<Seq<char>>,
    /// A custom stylesheet path, if one was set.
    pub css_path: Option<Seq<char>>,
    /// A custom sidebar title, if one was set.
    pub title: Option<Seq<char>>,
    /// The scripts added at the bottom of each page, in the order they were added.
    pub js_paths: Seq<Seq<char>>,
}

/// The view of an optional string.
pub open spec fn opt_view(o: Option<String>) -> Option<Seq<char>> {
    match o {
        Some(s) => Some(s@),
        None => None,
    }
}

/// The views of a list of strings.
pub open spec fn strings_view(v: Seq<String>) -> Seq<Seq<char>> {
    v.map_values(|s: String| s@)
}

/// The configuration of a panel, as it is being built.
pub struct AstelConfigInner {
    pub path: String,
    pub names: Vec<String>,
    pub css_path: Option<String>,
    pub title: Option<String>,
    pub js_paths: Vec<String>,
}

impl View for AstelConfigInner {
    type V = ConfigView;

    open spec fn view(&self) -> ConfigView {
        ConfigView {
            path: self.path@,
            names: strings_view(self.names@),
            css_path: opt_view(self.css_path),
            title: opt_view(self.title),
            js_paths: strings_view(self.js_paths@),
        }
    }
}

/// A finished configuration, shared between the request handlers.
pub struct AstelConfig(Arc<AstelConfigInner>);

/// `Arc::clone`: a new pointer to the same allocation, so it points to the
/// same value. That both point to one allocation is left unsaid; the
/// contract states the value.
#[verifier::external_body]
fn arc_share<T>(a: &Arc<T>) -> (r: Arc<T>)
    ensures
        *r == **a,
{
    Arc::clone(a)
}

impl Clone for AstelConfig {
    /// Another handle on the same configuration.
    fn clone(&self) -> (c: Self)
        ensures
            c == *self,
            c@ == self@,
    {
        AstelConfig(arc_share(&self.0))
    }
}

impl View for AstelConfig {
    type V = ConfigView;

    closed spec fn view(&self) -> ConfigView {
        (*self.0)@
    }
}

impl AstelConfig {
    /// Freezes a configuration for sharing.
    pub fn new(inner: AstelConfigInner) -> (c: Self)
        ensures
            c@ == inner@,
    {
        AstelConfig(Arc::new(inner))
    }

    /// The configuration behind the shared handle.
    pub fn inner(&self) -> (r: &AstelConfigInner)
        ensures
            r@ == self@,
    {
        &self.0
    }
}

} // verus!
