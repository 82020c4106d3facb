use maud::Render;
use vstd::prelude::*;

verus! {

/// The text that stands for `c` in HTML: `&`, `<`, `>` and `"` become
/// entities, every other character stands for itself.
pub open spec fn escape_char(c: char) -> Seq<char> {
    if c == '&' {
        "&amp;"@
    } else if c == '<' {
        "&lt;"@
    } else if c == '>' {
        "&gt;"@
    } else if c == '"' {
        "&quot;"@
    } else {
        seq![c]
    }
}

/// `s` escaped for use as HTML text or as an attribute value, character by
/// character.
pub open spec fn html_escape(s: Seq<char>) -> Seq<char>
    decreases s.len(),
{
    if s.len() == 0 {
        Seq::empty()
    } else {
        html_escape(s.drop_last()) + escape_char(s.last())
    }
}

/// `<str as maud::Render>::render_to`: appends `s` to `out`, with `&`, `<`,
/// `>` and `"` replaced by their entities, as maud's `Escaper` documents it.
/// This is how maud renders a string spliced into a template.
#[verifier::external_body]
pub(crate) fn push_escaped(out: &mut String, s: &str)
    ensures
        final(out)@ == old(out)@ + html_escape(s@),
{
    s.render_to(out);
}

/// Escaping commutes with concatenation.
pub proof fn lemma_escape_concat(a: Seq<char>, b: Seq<char>)
    ensures
        html_escape(a + b) == html_escape(a) + html_escape(b),
    decreases b.len(),
{
    if b.len() == 0 {
        assert(a + b =~= a);
    } else {
        lemma_escape_concat(a, b.drop_last());
        assert((a + b).drop_last() =~= a + b.drop_last());
        assert((a + b).last() == b.last());
    }
}

/// Escaped text holds none of the characters that open a tag, close a tag
/// or end an attribute value, so a spliced string cannot add markup.
pub proof fn lemma_escape_is_inert(s: Seq<char>)
    ensures
        !html_escape(s).contains('<'),
        !html_escape(s).contains('>'),
        !html_escape(s).contains('"'),
    decreases s.len(),
{
    if s.len() > 0 {
        lemma_escape_is_inert(s.drop_last());
        let c = s.last();
        reveal_strlit("&amp;");
        reveal_strlit("&lt;");
        reveal_strlit("&gt;");
        reveal_strlit("&quot;");
        let e = escape_char(c);
        let p = html_escape(s.drop_last());
        assert forall|x: char| (x == '<' || x == '>' || x == '"') implies !(p + e).contains(x) by {
            if (p + e).contains(x) {
                let k = choose|k: int| 0 <= k < (p + e).len() && (p + e)[k] == x;
                if k < p.len() {
                    assert(p[k] == x);
                } else {
                    assert(e[k - p.len()] == x);
                }
            }
        }
    }
}

/// Text without any of `&`, `<`, `>` and `"` is its own escape.
pub proof fn lemma_escape_plain(s: Seq<char>)
    requires
        !s.contains('&'),
        !s.contains('<'),
        !s.contains('>'),
        !s.contains('"'),
    ensures
        html_escape(s) == s,
    decreases s.len(),
{
    if s.len() > 0 {
        assert(!s.drop_last().contains('&') && !s.drop_last().contains('<')
            && !s.drop_last().contains('>') && !s.drop_last().contains('"')) by {
            assert forall|k: int| 0 <= k < s.drop_last().len() implies s.drop_last()[k] == s[k] by {}
        }
        lemma_escape_plain(s.drop_last());
        assert(s.last() == s[s.len() - 1]);
        assert(s.drop_last() + seq![s.last()] =~= s);
    }
}

} // verus!
