//! The sitemap document: its entries, how it is built from source paths, and its XML form.

use vstd::prelude::*;
use vstd::string::StringExecFns;
use crate::text::{lemma_replace_all_skips, occurs_at, replace_all, replace_all_exec};
use crate::xml::{element, lemma_escape_plain, push_element, push_escaped, xml_escape};

verus! {

/// The namespace written on the root element.
pub open spec fn sitemap_namespace() -> Seq<char> {
    "http://www.sitemaps.org/schemas/sitemap/0.9"@
}

/// The extension of a page's source document.
pub open spec fn source_extension() -> Seq<char> {
    ".md"@
}

/// The extension of a published page.
pub open spec fn published_extension() -> Seq<char> {
    ".html"@
}

/// The priority given to every page.
pub open spec fn default_priority() -> Seq<char> {
    "1.0"@
}

/// Where the page built from the source path `path` is published: every occurrence of
/// the source extension is replaced by the published one.
pub open spec fn published_location(path: Seq<char>) -> Seq<char> {
    replace_all(path, source_extension(), published_extension())
}

/// What went wrong while encoding a sitemap as XML. Every text value is escaped before it
/// is written, so `UrlSet::to_xml` never returns one.
#[derive(Debug, PartialEq, Eq)]
pub struct SerializationError {
    pub message: String,
}

/// One page of a sitemap.
#[derive(Debug, PartialEq, Eq)]
pub struct Url {
    pub loc: String,
    pub priority: Option<String>,
}

/// A sitemap: the namespace of its root element and its pages, in order.
#[derive(Debug, PartialEq, Eq)]
pub struct UrlSet {
    pub xlmns: String,
    pub urls: Vec<Url>,
}

/// The abstract content of a `Url`.
pub struct UrlView {
    pub loc: Seq<char>,
    pub priority: Option<Seq<char>>,
}

/// The abstract content of a `UrlSet`.
pub struct UrlSetView {
    pub xlmns: Seq<char>,
    pub urls: Seq<UrlView>,
}

impl View for Url {
    type V = UrlView;

    open spec fn view(&self) -> UrlView {
        UrlView {
            loc: self.loc@,
            priority: match self.priority {
                Some(p) => Some(p@),
                None => None,
            },
        }
    }
}

impl View for UrlSet {
    type V = UrlSetView;

    open spec fn view(&self) -> UrlSetView {
        UrlSetView { xlmns: self.xlmns@, urls: self.urls@.map_values(|u: Url| u@) }
    }
}

/// The entry built from the source path `path`.
pub open spec fn entry_of(path: Seq<char>) -> UrlView {
    UrlView { loc: published_location(path), priority: Some(default_priority()) }
}

/// The sitemap built from the source paths `paths`, one entry per path, in order.
pub open spec fn sitemap_of(paths: Seq<Seq<char>>) -> UrlSetView {
    UrlSetView { xlmns: sitemap_namespace(), urls: paths.map_values(|p: Seq<char>| entry_of(p)) }
}

/// The XML form of one entry: its location, then its priority where it has one.
pub open spec fn url_xml(u: UrlView) -> Seq<char> {
    "<url>"@ + element("loc"@, xml_escape(u.loc)) + match u.priority {
        Some(p) => element("priority"@, xml_escape(p)),
        None => Seq::empty(),
    } + "</url>"@
}

/// The XML forms of the entries `us`, one after the other.
pub open spec fn urls_xml(us: Seq<UrlView>) -> Seq<char>
    decreases us.len(),
{
    if us.len() == 0 {
        Seq::empty()
    } else {
        urls_xml(us.drop_last()) + url_xml(us.last())
    }
}

/// The start of the root element, with its namespace attribute.
pub open spec fn urlset_open(xlmns: Seq<char>) -> Seq<char> {
    "<urlset xlmns=\""@ + xml_escape(xlmns) + "\">"@
}

/// The XML document of the sitemap `d`.
pub open spec fn document_xml(d: UrlSetView) -> Seq<char> {
    urlset_open(d.xlmns) + urls_xml(d.urls) + "</urlset>"@
}

impl Url {
    /// Appends the XML form of this entry to `out`.
    fn push_xml(&self, out: &mut String)
        ensures
            final(out)@ == old(out)@ + url_xml(self@),
    {
        out.append("<url>");
        push_element(out, "loc", self.loc.as_str());
        match &self.priority {
            Some(p) => push_element(out, "priority", p.as_str()),
            None => {},
        }
        out.append("</url>");
        assert(out@ =~= old(out)@ + url_xml(self@));
    }
}

impl UrlSet {
    /// Builds the sitemap of the source paths `urls`: one entry per path, in order, each
    /// located at the path with its source extension replaced and with the default
    /// priority.
    pub fn new(urls: Vec<String>) -> (r: Self)
        ensures
            r@ == sitemap_of(urls@.map_values(|p: String| p@)),
            r.xlmns@ == sitemap_namespace(),
            r.urls.len() == urls.len(),
            forall|i: int|
                0 <= i < urls.len() ==> {
                    &&& (#[trigger] r.urls[i]).loc@ == published_location(urls[i]@)
                    &&& r.urls[i].priority is Some
                    &&& r.urls[i].priority->Some_0@ == default_priority()
                },
    {
        let ghost paths = urls@.map_values(|p: String| p@);
        let mut entries: Vec<Url> = Vec::new();
        let mut i: usize = 0;
        while i < urls.len()
            invariant
                i <= urls.len(),
                paths == urls@.map_values(|p: String| p@),
                entries.len() == i,
                forall|k: int|
                    0 <= k < i ==> {
                        &&& (#[trigger] entries[k]).loc@ == published_location(urls[k]@)
                        &&& entries[k].priority is Some
                        &&& entries[k].priority->Some_0@ == default_priority()
                    },
            decreases urls.len() - i,
        {
            proof {
                reveal_strlit(".md");
            }
            let loc = replace_all_exec(urls[i].as_str(), ".md", ".html");
            entries.push(Url { loc, priority: Some(String::from_str("1.0")) });
            i += 1;
        }
        let r = UrlSet { xlmns: String::from_str("http://www.sitemaps.org/schemas/sitemap/0.9"), urls: entries };
        assert(r@.urls =~= sitemap_of(paths).urls);
        r
    }

    /// Encodes this sitemap as an XML document: the root element `urlset` with the
    /// namespace attribute, then one `url` element per entry, in order.
    pub fn to_xml(&self) -> (r: Result<String, SerializationError>)
        ensures
            r is Ok,
            r->Ok_0@ == document_xml(self@),
    {
        let mut out = String::from_str("<urlset xlmns=\"");
        push_escaped(&mut out, self.xlmns.as_str());
        out.append("\">");
        assert(out@ =~= urlset_open(self@.xlmns));
        let mut i: usize = 0;
        while i < self.urls.len()
            invariant
                i <= self.urls.len(),
                out@ == urlset_open(self@.xlmns) + urls_xml(self@.urls.take(i as int)),
            decreases self.urls.len() - i,
        {
            self.urls[i].push_xml(&mut out);
            assert(self@.urls.take(i + 1).drop_last() =~= self@.urls.take(i as int));
            assert(out@ =~= urlset_open(self@.xlmns) + urls_xml(self@.urls.take(i + 1)));
            i += 1;
        }
        out.append("</urlset>");
        assert(self@.urls.take(i as int) =~= self@.urls);
        Ok(out)
    }
}

/// A source path whose one occurrence of the source extension is at its end is
/// published at that path with the extension swapped, and nothing else changed.
pub proof fn lemma_trailing_extension(stem: Seq<char>)
    requires
        forall|i: int|
            occurs_at(stem + source_extension(), i, source_extension()) ==> i == stem.len(),
    ensures
        published_location(stem + source_extension()) == stem + published_extension(),
{
    reveal_strlit(".md");
    let src = source_extension();
    let p = stem + src;
    assert forall|i: int| 0 <= i < stem.len() implies !occurs_at(p, i, src) by {}
    lemma_replace_all_skips(p, src, published_extension(), stem.len() as int);
    assert(p.subrange(0, stem.len() as int) =~= stem);
    assert(p.subrange(stem.len() as int, p.len() as int) =~= src);
    assert(src.subrange(0, src.len() as int) =~= src);
    assert(src.subrange(src.len() as int, src.len() as int) =~= Seq::<char>::empty());
    assert(occurs_at(src, 0, src));
    assert(replace_all(Seq::<char>::empty(), src, published_extension()) == Seq::<char>::empty());
    assert(replace_all(src, src, published_extension()) =~= published_extension()
        + Seq::<char>::empty());
    assert(p.subrange(0, stem.len() as int) + published_extension() =~= stem
        + published_extension());
}

/// Encoding depends on the document's content alone: two sitemaps with the same entries
/// and namespace encode to the same text.
pub proof fn lemma_encoding_deterministic(a: &UrlSet, b: &UrlSet)
    requires
        a@ == b@,
    ensures
        document_xml(a@) == document_xml(b@),
{
}

/// In the sitemap built from any source paths, each entry encodes as its location
/// followed by the priority element, which is always there and holds the default
/// priority.
pub proof fn lemma_entry_location_then_priority(paths: Seq<Seq<char>>, i: int)
    requires
        0 <= i < paths.len(),
    ensures
        url_xml(sitemap_of(paths).urls[i]) == "<url>"@ + element(
            "loc"@,
            xml_escape(published_location(paths[i])),
        ) + element("priority"@, "1.0"@) + "</url>"@,
{
    reveal_strlit("1.0");
    lemma_escape_plain(default_priority());
}

} // verus!
