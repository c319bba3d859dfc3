use sitemap::{Url, UrlSet};

const NS: &str = "http://www.sitemaps.org/schemas/sitemap/0.9";

fn paths(ps: &[&str]) -> Vec<String> {
    ps.iter().map(|p| p.to_string()).collect()
}

fn xml_of(set: &UrlSet) -> String {
    match set.to_xml() {
        Ok(s) => s,
        Err(e) => panic!("encoding failed: {:?}", e),
    }
}

#[test]
fn new_keeps_count_and_order() {
    let set = UrlSet::new(paths(&["c.md", "a.md", "b.md", "a.md"]));
    assert_eq!(set.urls.len(), 4);
    let locs: Vec<&str> = set.urls.iter().map(|u| u.loc.as_str()).collect();
    assert_eq!(locs, vec!["c.html", "a.html", "b.html", "a.html"]);
    assert_eq!(set.xlmns, NS);
}

#[test]
fn trailing_extension_is_swapped() {
    let set = UrlSet::new(paths(&["docs/guide/intro.md"]));
    assert_eq!(set.urls[0].loc, "docs/guide/intro.html");
}

#[test]
fn path_without_extension_is_kept() {
    let set = UrlSet::new(paths(&["", "plain.txt"]));
    assert_eq!(set.urls[0].loc, "");
    assert_eq!(set.urls[1].loc, "plain.txt");
}

#[test]
fn extension_inside_a_name_is_replaced_too() {
    let set = UrlSet::new(paths(&["x.mdx", "a.md/b"]));
    assert_eq!(set.urls[0].loc, "x.htmlx");
    assert_eq!(set.urls[1].loc, "a.html/b");
}

#[test]
fn empty_sitemap_has_root_with_namespace_only() {
    let set = UrlSet::new(Vec::new());
    assert!(set.urls.is_empty());
    assert_eq!(
        xml_of(&set),
        "<urlset xlmns=\"http://www.sitemaps.org/schemas/sitemap/0.9\"></urlset>"
    );
}

#[test]
fn encoding_twice_gives_identical_text() {
    let set = UrlSet::new(paths(&["index.md", "a&b.md"]));
    let first = xml_of(&set);
    let second = xml_of(&set);
    assert_eq!(first, second);
}

#[test]
fn every_entry_has_loc_then_priority() {
    let set = UrlSet::new(paths(&["one.md", "two.md", "three.md"]));
    for u in &set.urls {
        assert_eq!(u.priority.as_deref(), Some("1.0"));
    }
    let xml = xml_of(&set);
    let body = xml
        .strip_prefix("<urlset xlmns=\"http://www.sitemaps.org/schemas/sitemap/0.9\">")
        .unwrap()
        .strip_suffix("</urlset>")
        .unwrap();
    let entries: Vec<&str> = body.split("</url>").filter(|e| !e.is_empty()).collect();
    assert_eq!(entries.len(), 3);
    for e in entries {
        let loc = e.find("<loc>").unwrap();
        let priority = e.find("<priority>1.0</priority>").unwrap();
        assert!(loc < priority);
    }
}

#[test]
fn index_and_about() {
    let set = UrlSet::new(paths(&["index.md", "about.md"]));
    assert_eq!(
        set.urls,
        vec![
            Url { loc: "index.html".to_string(), priority: Some("1.0".to_string()) },
            Url { loc: "about.html".to_string(), priority: Some("1.0".to_string()) },
        ]
    );
    assert_eq!(
        xml_of(&set),
        "<urlset xlmns=\"http://www.sitemaps.org/schemas/sitemap/0.9\">\
         <url><loc>index.html</loc><priority>1.0</priority></url>\
         <url><loc>about.html</loc><priority>1.0</priority></url>\
         </urlset>"
    );
}

#[test]
fn doubled_extension_is_replaced_twice() {
    let set = UrlSet::new(paths(&["notes.md.md"]));
    assert_eq!(set.urls.len(), 1);
    assert_eq!(set.urls[0].loc, "notes.html.html");
    assert_eq!(set.urls[0].priority.as_deref(), Some("1.0"));
}

#[test]
fn special_characters_are_escaped() {
    let set = UrlSet::new(paths(&["a&b<c>'q\"\r.md"]));
    assert_eq!(set.urls[0].loc, "a&b<c>'q\"\r.html");
    assert_eq!(
        xml_of(&set),
        "<urlset xlmns=\"http://www.sitemaps.org/schemas/sitemap/0.9\">\
         <url><loc>a&amp;b&lt;c&gt;&apos;q&quot;&#13;.html</loc><priority>1.0</priority></url>\
         </urlset>"
    );
}

#[test]
fn namespace_attribute_is_escaped() {
    let set = UrlSet { xlmns: "a\"b".to_string(), urls: Vec::new() };
    assert_eq!(xml_of(&set), "<urlset xlmns=\"a&quot;b\"></urlset>");
}

#[test]
fn absent_priority_writes_no_element() {
    let set = UrlSet {
        xlmns: NS.to_string(),
        urls: vec![
            Url { loc: "x.html".to_string(), priority: None },
            Url { loc: "y.html".to_string(), priority: Some("0.5".to_string()) },
        ],
    };
    assert_eq!(
        xml_of(&set),
        "<urlset xlmns=\"http://www.sitemaps.org/schemas/sitemap/0.9\">\
         <url><loc>x.html</loc></url>\
         <url><loc>y.html</loc><priority>0.5</priority></url>\
         </urlset>"
    );
}

#[test]
fn non_ascii_paths_pass_through() {
    let set = UrlSet::new(paths(&["café/ünï.md"]));
    assert_eq!(set.urls[0].loc, "café/ünï.html");
}
