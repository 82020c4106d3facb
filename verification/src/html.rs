use crate::config::{opt_view, strings_view, AstelConfig, ConfigView};
use crate::escape::{html_escape, push_escaped};
use crate::text::{concat, lemma_concat_take, lemma_concat_push};
use vstd::prelude::*;
use vstd::string::StringExecFns;

verus! {

/// The markup pushed to one named section of a page, in the order it was pushed.
pub struct Section {
    pub key: String,
    pub parts: Vec<String>,
}

/// What a page handler receives: the panel's configuration, from which it
/// builds the page around its content.
pub struct HtmlContextBuilder {
    pub config: AstelConfig,
}

impl Clone for HtmlContextBuilder {
    /// A builder for the same configuration.
    fn clone(&self) -> (b: Self)
        ensures
            b == *self,
    {
        HtmlContextBuilder { config: self.config.clone() }
    }
}

/// A page of the panel: its content, its title and description, and the
/// markup pushed to its named sections.
pub struct HtmlContext {
    pub content: String,
    pub config: AstelConfig,
    pub title: Option<String>,
    pub description: Option<String>,
    pub sections: Vec<Section>,
}

/// The keys of the sections, in order.
pub open spec fn section_keys(sections: Seq<Section>) -> Seq<Seq<char>> {
    sections.map_values(|s: Section| s.key@)
}

/// The title a page shows when none was set.
pub open spec fn default_title() -> Seq<char> {
    "astel"@
}


/// One entry of the sidebar: a link to the pages of resource `name`.
pub open spec fn sidebar_link(path: Seq<char>, name: Seq<char>) -> Seq<char> {
    "<a href=\""@ + html_escape(path) + "/"@ + html_escape(name) + "\">"@ + html_escape(name) + "</a>"@
}

/// The sidebar entries of all resources, in order.
pub open spec fn sidebar_links(path: Seq<char>, names: Seq<Seq<char>>) -> Seq<char> {
    concat(names.map_values(|n: Seq<char>| sidebar_link(path, n)))
}

/// The stylesheet a page links: the configured one, else the bundled one,
/// which the panel mounted at `path` serves at `css/main.css` under it.
pub open spec fn stylesheet_href(css_path: Option<Seq<char>>, path: Seq<char>) -> Seq<char> {
    match css_path {
        Some(c) => html_escape(c),
        None => html_escape(path) + "/css/main.css"@,
    }
}

/// The heading of the sidebar: the configured title, else "Astel".
pub open spec fn sidebar_title(title: Option<Seq<char>>) -> Seq<char> {
    match title {
        Some(t) => html_escape(t),
        None => "Astel"@,
    }
}

/// The element that loads the script at `src`.
pub open spec fn script_tag(src: Seq<char>) -> Seq<char> {
    "<script src=\""@ + html_escape(src) + "\"></script>"@
}

/// The elements that load the configured scripts, in the order they were added.
pub open spec fn script_tags(js_paths: Seq<Seq<char>>) -> Seq<char> {
    concat(js_paths.map_values(|j: Seq<char>| script_tag(j)))
}

/// A whole page of the panel configured as `conf`: the page's title and the
/// stylesheet in the head; then the sidebar with the panel's title linking
/// to its home and a link to each resource; then the content, which is
/// markup already; then the scripts, at the bottom of the body.
pub open spec fn page_html(title: Seq<char>, conf: ConfigView, content: Seq<char>) -> Seq<char> {
    "<!DOCTYPE html><head><title>"@ + html_escape(title) + "</title><link rel=\"stylesheet\" href=\""@
        + stylesheet_href(conf.css_path, conf.path)
        + "\" type=\"text/css\"></head><body><div class=\"categories\"><h2><a href=\""@
        + html_escape(conf.path) + "\">"@ + sidebar_title(conf.title) + "</a></h2>"@
        + sidebar_links(conf.path, conf.names) + "</div><div class=\"container\">"@ + content
        + "</div>"@ + script_tags(conf.js_paths) + "</body>"@
}

/// The `<title>` of a rendered page holds the page's own title, escaped,
/// whatever the panel's configuration holds: the panel's configured title
/// appears only as the sidebar heading, which shows it escaped, or "Astel".
pub proof fn lemma_page_title(title: Seq<char>, conf: ConfigView, content: Seq<char>)
    ensures
        ({
            let head = "<!DOCTYPE html><head><title>"@ + html_escape(title) + "</title>"@;
            page_html(title, conf, content).take(head.len() as int) == head
        }),
        forall|other: ConfigView|
            #![trigger page_html(title, other, content)]
            other.path == conf.path && other.css_path == conf.css_path ==> ({
                let p = page_html(title, conf, content);
                let q = page_html(title, other, content);
                let k = ("<!DOCTYPE html><head><title>"@ + html_escape(title) + "</title>"@).len();
                p.take(k as int) == q.take(k as int)
            }),
{
    reveal_strlit("<!DOCTYPE html><head><title>");
    reveal_strlit("</title><link rel=\"stylesheet\" href=\"");
    reveal_strlit("</title>");
    let head = "<!DOCTYPE html><head><title>"@ + html_escape(title) + "</title>"@;
    assert("</title><link rel=\"stylesheet\" href=\""@.take(8) =~= "</title>"@);
    assert forall|c: ConfigView| #![trigger page_html(title, c, content)]
        page_html(title, c, content).take(head.len() as int) == head by {
        let p = page_html(title, c, content);
        let start = "<!DOCTYPE html><head><title>"@ + html_escape(title);
        assert(p.take(head.len() as int) =~= head) by {
            assert forall|i: int| 0 <= i < head.len() implies p[i] == head[i] by {
                if i >= start.len() {
                    assert(p[i] == "</title><link rel=\"stylesheet\" href=\""@[i - start.len()]);
                    assert(head[i] == "</title>"@[i - start.len()]);
                }
            }
        }
    }
    assert(page_html(title, conf, content).take(head.len() as int) == head);
}

/// What a section gives back after a push is what it gave back before,
/// followed by the pushed markup.
pub proof fn lemma_section_append_get(
    before: HtmlContext,
    after: HtmlContext,
    key: Seq<char>,
    m: Seq<char>,
)
    requires
        after.section(key) == before.section(key).push(m),
    ensures
        concat(after.section(key)) == concat(before.section(key)) + m,
{
    lemma_concat_push(before.section(key), m);
}

/// The markup that `pushes`, a list of (section key, markup) pairs, push to
/// section `key`, in order.
pub open spec fn pushed_to(pushes: Seq<(Seq<char>, Seq<char>)>, key: Seq<char>) -> Seq<Seq<char>>
    decreases pushes.len(),
{
    if pushes.len() == 0 {
        Seq::empty()
    } else {
        let before = pushed_to(pushes.drop_last(), key);
        if pushes.last().0 == key {
            before.push(pushes.last().1)
        } else {
            before
        }
    }
}

/// `after` is `before` with `m` pushed to section `key`, as `section_append` leaves it.
pub open spec fn appended(before: HtmlContext, after: HtmlContext, key: Seq<char>, m: Seq<char>) -> bool {
    &&& after.section(key) == before.section(key).push(m)
    &&& forall|k: Seq<char>| k != key ==> after.section(k) == before.section(k)
}

/// After any sequence of pushes to a page that had no sections, each section
/// holds the markup pushed to its key, in the order it was pushed, and gives
/// it back written one piece after the other; a key never pushed to gives
/// nothing back.
pub proof fn lemma_sections_after_pushes(
    pages: Seq<HtmlContext>,
    pushes: Seq<(Seq<char>, Seq<char>)>,
    key: Seq<char>,
)
    requires
        pages.len() == pushes.len() + 1,
        pages[0].sections@.len() == 0,
        forall|i: int|
            0 <= i < pushes.len() ==> appended(pages[i], pages[i + 1], #[trigger] pushes[i].0, pushes[i].1),
    ensures
        pages.last().section(key) == pushed_to(pushes, key),
        concat(pages.last().section(key)) == concat(pushed_to(pushes, key)),
    decreases pushes.len(),
{
    if pushes.len() == 0 {
        assert(pages.last().section(key) =~= Seq::<Seq<char>>::empty());
    } else {
        let n = pushes.len() - 1;
        let earlier = pages.drop_last();
        assert forall|i: int| 0 <= i < pushes.drop_last().len() implies appended(
            earlier[i],
            earlier[i + 1],
            #[trigger] pushes.drop_last()[i].0,
            pushes.drop_last()[i].1,
        ) by {
            assert(pushes.drop_last()[i] == pushes[i]);
        }
        lemma_sections_after_pushes(earlier, pushes.drop_last(), key);
        assert(appended(pages[n], pages[n + 1], pushes[n].0, pushes[n].1));
        assert(earlier.last() == pages[n]);
    }
}

impl HtmlContextBuilder {
    /// A page with `content` as its content, no title, no description and
    /// empty sections.
    pub fn build(self, content: String) -> (h: HtmlContext)
        ensures
            h.wf(),
            h.content == content,
            h.config == self.config,
            h.title is None,
            h.description is None,
            h.sections@.len() == 0,
    {
        let h = HtmlContext {
            content,
            config: self.config,
            title: None,
            description: None,
            sections: Vec::new(),
        };
        assert(section_keys(h.sections@) =~= Seq::<Seq<char>>::empty());
        h
    }
}

impl HtmlContext {
    /// No two sections share a key.
    pub open spec fn wf(&self) -> bool {
        section_keys(self.sections@).no_duplicates()
    }

    /// The markup pushed to section `key`, in order; none if the section
    /// was never pushed to.
    pub open spec fn section(&self, key: Seq<char>) -> Seq<Seq<char>> {
        if exists|i: int| 0 <= i < self.sections@.len() && self.sections@[i].key@ == key {
            let i = choose|i: int| 0 <= i < self.sections@.len() && self.sections@[i].key@ == key;
            strings_view(self.sections@[i].parts@)
        } else {
            Seq::empty()
        }
    }

    /// The title the page shows.
    pub open spec fn title_text(&self) -> Seq<char> {
        match self.title {
            Some(t) => t@,
            None => default_title(),
        }
    }

    proof fn lemma_section_at(&self, i: int)
        requires
            self.wf(),
            0 <= i < self.sections@.len(),
        ensures
            self.section(self.sections@[i].key@) == strings_view(self.sections@[i].parts@),
    {
        let key = self.sections@[i].key@;
        assert(section_keys(self.sections@)[i] == key);
        assert forall|j: int| 0 <= j < self.sections@.len() && self.sections@[j].key@ == key implies j == i by {
            assert(section_keys(self.sections@)[j] == key);
        }
    }

    /// Sets the title of the page.
    pub fn with_title(self, s: &str) -> (h: Self)
        ensures
            opt_view(h.title) == Some(s@),
            h.title_text() == s@,
            h == (HtmlContext { title: h.title, ..self }),
    {
        let mut h = self;
        h.title = Some(String::from_str(s));
        h
    }

    /// The title of the page; "astel" when none was set.
    pub fn get_title(&self) -> (r: &str)
        ensures
            r@ == self.title_text(),
    {
        match &self.title {
            Some(t) => t.as_str(),
            None => "astel",
        }
    }

    /// Sets the description of the page.
    pub fn with_description(self, s: &str) -> (h: Self)
        ensures
            opt_view(h.description) == Some(s@),
            h == (HtmlContext { description: h.description, ..self }),
    {
        let mut h = self;
        h.description = Some(String::from_str(s));
        h
    }

    /// The description of the page, if one was set.
    pub fn get_description(&self) -> (r: Option<&str>)
        ensures
            match r {
                Some(d) => opt_view(self.description) == Some(d@),
                None => self.description is None,
            },
    {
        match &self.description {
            Some(d) => Some(d.as_str()),
            None => None,
        }
    }

    /// Where section `key` stands, if it exists.
    fn find_section(&self, key: &str) -> (r: Option<usize>)
        requires
            self.wf(),
        ensures
            match r {
                Some(i) => i < self.sections@.len() && self.sections@[i as int].key@ == key@,
                None => forall|j: int| 0 <= j < self.sections@.len() ==> self.sections@[j].key@ != key@,
            },
    {
        let k = String::from_str(key);
        let mut i: usize = 0;
        while i < self.sections.len()
            invariant
                i <= self.sections@.len(),
                k@ == key@,
                forall|j: int| 0 <= j < i ==> self.sections@[j].key@ != key@,
            decreases self.sections.len() - i,
        {
            if self.sections[i].key == k {
                return Some(i);
            }
            i = i + 1;
        }
        None
    }

    /// Pushes markup to section `key`, after what was pushed to it before.
    pub fn section_append(self, key: &str, m: String) -> (h: Self)
        requires
            self.wf(),
        ensures
            h.wf(),
            h.section(key@) == self.section(key@).push(m@),
            forall|k: Seq<char>| k != key@ ==> h.section(k) == self.section(k),
            appended(self, h, key@, m@),
            h.content == self.content,
            h.config == self.config,
            h.title == self.title,
            h.description == self.description,
    {
        let mut h = self;
        match h.find_section(key) {
            Some(i) => {
                proof {
                    self.lemma_section_at(i as int);
                }
                let mut sec = h.sections.remove(i);
                sec.parts.push(m);
                h.sections.insert(i, sec);
                proof {
                    assert(section_keys(h.sections@) =~= section_keys(self.sections@));
                    h.lemma_section_at(i as int);
                    assert(strings_view(h.sections@[i as int].parts@) =~= strings_view(
                        self.sections@[i as int].parts@,
                    ).push(m@));
                    assert forall|k: Seq<char>| k != key@ implies h.section(k) == self.section(k) by {
                        if exists|j: int| 0 <= j < self.sections@.len() && self.sections@[j].key@ == k {
                            let j = choose|j: int| 0 <= j < self.sections@.len() && self.sections@[j].key@ == k;
                            self.lemma_section_at(j);
                            h.lemma_section_at(j);
                        } else {
                            assert forall|j: int| 0 <= j < h.sections@.len() implies h.sections@[j].key@ != k by {
                                assert(section_keys(h.sections@)[j] == section_keys(self.sections@)[j]);
                            }
                        }
                    }
                }
                h
            },
            None => {
                let ghost old_sections = h.sections@;
                let mut parts = Vec::new();
                parts.push(m);
                h.sections.push(Section { key: String::from_str(key), parts });
                proof {
                    assert(section_keys(h.sections@) =~= section_keys(old_sections).push(key@));
                    let n = old_sections.len() as int;
                    h.lemma_section_at(n);
                    assert(strings_view(h.sections@[n].parts@) =~= seq![m@]);
                    assert(self.section(key@) =~= Seq::<Seq<char>>::empty());
                    assert forall|k: Seq<char>| k != key@ implies h.section(k) == self.section(k) by {
                        if exists|j: int| 0 <= j < self.sections@.len() && self.sections@[j].key@ == k {
                            let j = choose|j: int| 0 <= j < self.sections@.len() && self.sections@[j].key@ == k;
                            self.lemma_section_at(j);
                            h.lemma_section_at(j);
                        } else {
                            assert forall|j: int| 0 <= j < h.sections@.len() implies h.sections@[j].key@ != k by {
                                if j < n {
                                    assert(h.sections@[j] == self.sections@[j]);
                                }
                            }
                        }
                    }
                }
                h
            },
        }
    }

    /// The markup pushed to section `key`, in the order it was pushed.
    pub fn section_get(&self, key: &str) -> (r: String)
        requires
            self.wf(),
        ensures
            r@ == concat(self.section(key@)),
    {
        let mut out = String::new();
        match self.find_section(key) {
            Some(i) => {
                proof {
                    self.lemma_section_at(i as int);
                }
                let parts = &self.sections[i].parts;
                let ghost pv = strings_view(parts@);
                let mut j: usize = 0;
                while j < parts.len()
                    invariant
                        j <= parts@.len(),
                        pv == strings_view(parts@),
                        out@ == concat(pv.take(j as int)),
                    decreases parts.len() - j,
                {
                    proof {
                        lemma_concat_take(pv, j as int);
                    }
                    out.append(parts[j].as_str());
                    j = j + 1;
                }
                assert(pv.take(parts@.len() as int) =~= pv);
                out
            },
            None => {
                assert(self.section(key@) =~= Seq::<Seq<char>>::empty());
                out
            },
        }
    }

    /// The HTML of the whole page.
    pub fn render(&self) -> (r: String)
        ensures
            r@ == page_html(self.title_text(), self.config@, self.content@),
    {
        let conf = self.config.inner();
        let mut out = String::from_str("<!DOCTYPE html><head><title>");
        push_escaped(&mut out, self.get_title());
        out.append("</title><link rel=\"stylesheet\" href=\"");
        match &conf.css_path {
            Some(c) => push_escaped(&mut out, c.as_str()),
            None => {
                push_escaped(&mut out, conf.path.as_str());
                out.append("/css/main.css");
            },
        }
        out.append(
            "\" type=\"text/css\"></head><body><div class=\"categories\"><h2><a href=\"",
        );
        push_escaped(&mut out, conf.path.as_str());
        out.append("\">");
        match &conf.title {
            Some(t) => push_escaped(&mut out, t.as_str()),
            None => out.append("Astel"),
        }
        out.append("</a></h2>");
        let ghost start = out@;
        let ghost names = conf@.names;
        let ghost links = names.map_values(|n: Seq<char>| sidebar_link(conf@.path, n));
        let mut i: usize = 0;
        while i < conf.names.len()
            invariant
                i <= conf.names@.len(),
                names == strings_view(conf.names@),
                links == names.map_values(|n: Seq<char>| sidebar_link(conf@.path, n)),
                out@ == start + concat(links.take(i as int)),
            decreases conf.names.len() - i,
        {
            proof {
                lemma_concat_take(links, i as int);
            }
            let name = conf.names[i].as_str();
            out.append("<a href=\"");
            push_escaped(&mut out, conf.path.as_str());
            out.append("/");
            push_escaped(&mut out, name);
            out.append("\">");
            push_escaped(&mut out, name);
            out.append("</a>");
            i = i + 1;
        }
        assert(links.take(conf.names@.len() as int) =~= links);
        out.append("</div><div class=\"container\">");
        out.append(self.content.as_str());
        out.append("</div>");
        let ghost mid = out@;
        let ghost js = conf@.js_paths;
        let ghost tags = js.map_values(|j: Seq<char>| script_tag(j));
        let mut k: usize = 0;
        while k < conf.js_paths.len()
            invariant
                k <= conf.js_paths@.len(),
                js == strings_view(conf.js_paths@),
                tags == js.map_values(|j: Seq<char>| script_tag(j)),
                out@ == mid + concat(tags.take(k as int)),
            decreases conf.js_paths.len() - k,
        {
            proof {
                lemma_concat_take(tags, k as int);
            }
            out.append("<script src=\"");
            push_escaped(&mut out, conf.js_paths[k].as_str());
            out.append("\"></script>");
            k = k + 1;
        }
        assert(tags.take(conf.js_paths@.len() as int) =~= tags);
        out.append("</body>");
        out
    }
}

} // verus!
