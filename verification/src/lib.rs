//! Astel: an admin panel for web services. This crate holds the panel's
//! configuration, its page builders and its HTML rendering.

mod config;
pub mod escape;
pub mod text;
pub mod html;
pub mod table_serializer;
pub mod routes;
pub mod type_list;

pub use config::{opt_view, strings_view, AstelConfig, AstelConfigInner, ConfigView};

use vstd::prelude::*;
use vstd::string::StringExecFns;

verus! {

/// The builder of a panel: where it is mounted, which resources it shows
/// and how its pages look.
pub struct Astel {
    config: AstelConfigInner,
}

impl View for Astel {
    type V = ConfigView;

    closed spec fn view(&self) -> ConfigView {
        self.config@
    }
}

impl Astel {
    /// A builder is well formed when no two registered resources share a name.
    pub open spec fn wf(&self) -> bool {
        self@.names.no_duplicates()
    }

    /// Every builder is well formed.
    #[verifier::type_invariant]
    spec fn names_distinct(&self) -> bool {
        self.wf()
    }

    /// A panel mounted at `path`, with no resources, the default stylesheet,
    /// the default title and no scripts.
    pub fn new(path: &str) -> (a: Self)
        ensures
            a.wf(),
            a@ == (ConfigView {
                path: path@,
                names: Seq::empty(),
                css_path: None,
                title: None,
                js_paths: Seq::empty(),
            }),
    {
        let a = Astel {
            config: AstelConfigInner {
                path: String::from_str(path),
                names: Vec::new(),
                css_path: None,
                title: None,
                js_paths: Vec::new(),
            },
        };
        assert(a@.names =~= Seq::<Seq<char>>::empty());
        assert(a@.js_paths =~= Seq::<Seq<char>>::empty());
        a
    }

    /// Whether a resource of this name is already registered.
    pub fn has_resource(&self, name: &str) -> (r: bool)
        ensures
            r == self@.names.contains(name@),
    {
        let n = String::from_str(name);
        let mut i: usize = 0;
        while i < self.config.names.len()
            invariant
                i <= self.config.names.len(),
                n@ == name@,
                forall|j: int| 0 <= j < i ==> self@.names[j] != name@,
            decreases self.config.names.len() - i,
        {
            if self.config.names[i] == n {
                assert(self@.names[i as int] == name@);
                return true;
            }
            i = i + 1;
        }
        false
    }

    /// Registers a resource under `name`; the resource's pages are listed in
    /// the sidebar after those registered before it.
    ///
    /// A name can be registered once only.
    pub fn register_resource(self, name: &str) -> (a: Self)
        requires
            !self@.names.contains(name@),
        ensures
            a.wf(),
            a@ == (ConfigView { names: self@.names.push(name@), ..self@ }),
    {
        proof {
            use_type_invariant(&self);
        }
        let mut config = self.config;
        config.names.push(String::from_str(name));
        assert(config@.names =~= self@.names.push(name@));
        Astel { config }
    }

    /// Registers a dashboard; the panel does not show dashboards yet, so the
    /// builder is returned unchanged.
    pub fn register_dashboard(self, name: &str, dashboard: ()) -> (a: Self)
        ensures
            a@ == self@,
    {
        self
    }

    /// Uses the stylesheet at `path` in place of the default one.
    pub fn with_css_path(self, path: &str) -> (a: Self)
        ensures
            a.wf(),
            a@ == (ConfigView { css_path: Some(path@), ..self@ }),
    {
        proof {
            use_type_invariant(&self);
        }
        let mut config = self.config;
        config.css_path = Some(String::from_str(path));
        Astel { config }
    }

    /// Sets the title shown in the sidebar.
    pub fn with_title(self, title: &str) -> (a: Self)
        ensures
            a.wf(),
            a@ == (ConfigView { title: Some(title@), ..self@ }),
    {
        proof {
            use_type_invariant(&self);
        }
        let mut config = self.config;
        config.title = Some(String::from_str(title));
        Astel { config }
    }

    /// Adds a script at the bottom of each page, after those added before.
    pub fn with_js(self, path: &str) -> (a: Self)
        ensures
            a.wf(),
            a@ == (ConfigView { js_paths: self@.js_paths.push(path@), ..self@ }),
    {
        proof {
            use_type_invariant(&self);
        }
        let mut config = self.config;
        config.js_paths.push(String::from_str(path));
        assert(config@.js_paths =~= self@.js_paths.push(path@));
        Astel { config }
    }

    /// The path under which the panel is mounted.
    pub fn path(&self) -> (r: &String)
        ensures
            r@ == self@.path,
    {
        &self.config.path
    }

    /// Freezes the configuration so that the request handlers can share it.
    pub fn into_config(self) -> (c: AstelConfig)
        ensures
            c@ == self@,
    {
        AstelConfig::new(self.config)
    }
}

impl Default for Astel {
    /// A panel mounted at the empty path, with nothing configured.
    fn default() -> (a: Self)
        ensures
            a.wf(),
            a@ == (ConfigView {
                path: Seq::empty(),
                names: Seq::empty(),
                css_path: None,
                title: None,
                js_paths: Seq::empty(),
            }),
    {
        proof {
            reveal_strlit("");
        }
        let a = Astel::new("");
        assert(a@.path =~= Seq::<char>::empty());
        a
    }
}

/// Once a name is registered it is in use, so registering it again is
/// refused, and every name that was in use stays in use.
pub proof fn lemma_registered_name_in_use(before: ConfigView, after: ConfigView, name: Seq<char>)
    requires
        after.names == before.names.push(name),
    ensures
        after.names.contains(name),
        forall|n: Seq<char>| before.names.contains(n) ==> after.names.contains(n),
{
    assert(after.names[before.names.len() as int] == name);
    assert forall|n: Seq<char>| before.names.contains(n) implies after.names.contains(n) by {
        let k = choose|k: int| 0 <= k < before.names.len() && before.names[k] == n;
        assert(after.names[k] == n);
    }
}

} // verus!
