//! Page records: what a consumer receives for each page that the engine
//! fetched, built from the plain values of an engine result.

use scraper::{Html, Selector};
use vstd::prelude::*;

verus! {

/// The plain values of one engine result that a page record is built from.
#[derive(Debug)]
pub struct RawPage {
    /// The url of the resource.
    pub url: String,
    /// The HTTP status code.
    pub status_code: u16,
    /// The body as the engine decodes it to text.
    pub html: String,
    /// The body as the engine received it.
    pub html_bytes: Vec<u8>,
    /// The response headers in the engine's order: each name with its value
    /// as text, or `None` where the value is not visible ASCII.
    pub headers: Option<Vec<(String, Option<String>)>>,
    /// The links found on the page, when the engine collected them.
    pub links: Option<Vec<String>>,
}

/// A page as delivered to consumers: either decoded text or raw bytes.
#[derive(Debug)]
pub struct NPage {
    /// The url of the resource.
    pub url: String,
    /// The content of the page as text; empty when raw bytes are kept.
    pub content: String,
    /// The HTTP status code.
    pub status_code: u16,
    /// The raw content in bytes, when raw bytes are kept.
    pub raw_content: Option<Vec<u8>>,
    /// The HTTP headers, each name once.
    pub headers: Option<Vec<(String, String)>>,
    /// The links found on the page, each once.
    pub links: Option<Vec<String>>,
}

/// The text view of a header list as the engine hands it over.
pub open spec fn raw_headers_view(s: Seq<(String, Option<String>)>) -> Seq<(Seq<char>, Option<Seq<char>>)> {
    s.map_values(|p: (String, Option<String>)| (p.0@, match p.1 { Some(v) => Some(v@), None => None }))
}

/// The header map that a header list gives: each name with the last of its
/// values that is text; values that are not text are skipped.
pub open spec fn header_map_of(s: Seq<(Seq<char>, Option<Seq<char>>)>) -> Map<Seq<char>, Seq<char>>
    decreases s.len(),
{
    if s.len() == 0 {
        Map::empty()
    } else {
        let m = header_map_of(s.drop_last());
        match s.last().1 {
            Some(v) => m.insert(s.last().0, v),
            None => m,
        }
    }
}

/// A list of name and value pairs that holds each name once and stands for
/// the map `m`.
pub open spec fn lists_map(r: Seq<(String, String)>, m: Map<Seq<char>, Seq<char>>) -> bool {
    &&& forall|i: int, j: int| 0 <= i < j < r.len() ==> r[i].0@ != r[j].0@
    &&& forall|i: int| 0 <= i < r.len() ==> #[trigger] m.contains_key(r[i].0@) && m[r[i].0@] == r[i].1@
    &&& forall|k: Seq<char>| #[trigger] m.contains_key(k) ==> exists|i: int| 0 <= i < r.len() && r[i].0@ == k
}

/// The text view of a list of strings.
pub open spec fn strings_view(s: Seq<String>) -> Seq<Seq<char>> {
    s.map_values(|x: String| x@)
}

/// The position of the pair named `name`, if any.
fn position_of(pairs: &Vec<(String, String)>, name: &String) -> (r: Option<usize>)
    ensures
        match r {
            Some(j) => j < pairs@.len() && pairs@[j as int].0@ == name@,
            None => forall|t: int| 0 <= t < pairs@.len() ==> pairs@[t].0@ != name@,
        },
{
    let mut j: usize = 0;
    while j < pairs.len()
        invariant
            j <= pairs@.len(),
            forall|t: int| 0 <= t < j ==> pairs@[t].0@ != name@,
        decreases pairs@.len() - j,
    {
        if pairs[j].0 == *name {
            return Some(j);
        }
        j = j + 1;
    }
    None
}

/// Converts the engine's header list into a header map: each name once, with
/// the last of its values that is text.
pub fn header_map_to_hash_map(headers: &Vec<(String, Option<String>)>) -> (r: Vec<(String, String)>)
    ensures
        lists_map(r@, header_map_of(raw_headers_view(headers@))),
{
    let mut out: Vec<(String, String)> = Vec::new();
    let mut i: usize = 0;
    while i < headers.len()
        invariant
            i <= headers@.len(),
            lists_map(out@, header_map_of(raw_headers_view(headers@.subrange(0, i as int)))),
        decreases headers@.len() - i,
    {
        let ghost before = header_map_of(raw_headers_view(headers@.subrange(0, i as int)));
        proof {
            assert(raw_headers_view(headers@.subrange(0, i as int + 1)).drop_last()
                =~= raw_headers_view(headers@.subrange(0, i as int)));
        }
        let entry = &headers[i];
        match &entry.1 {
            Some(v) => {
                let ghost old_out = out@;
                let j: usize = match position_of(&out, &entry.0) {
                    Some(j) => {
                        out.set(j, (entry.0.clone(), v.clone()));
                        j
                    },
                    None => {
                        out.push((entry.0.clone(), v.clone()));
                        out.len() - 1
                    },
                };
                proof {
                    let after = header_map_of(raw_headers_view(headers@.subrange(0, i as int + 1)));
                    let sub = raw_headers_view(headers@.subrange(0, i as int + 1));
                    assert(sub.last() == (entry.0@, Some(v@)));
                    assert(after == before.insert(entry.0@, v@));
                    assert(out@[j as int].0@ == entry.0@ && out@[j as int].1@ == v@);
                    assert forall|t: int| 0 <= t < out@.len() && t != j implies out@[t] == old_out[t]
                        && out@[t].0@ != entry.0@ by {}
                    assert forall|a: int, b: int| 0 <= a < b < out@.len() implies out@[a].0@ != out@[b].0@ by {
                        if a != j && b != j {
                            assert(out@[a] == old_out[a] && out@[b] == old_out[b]);
                        }
                    }
                    assert forall|t: int| 0 <= t < out@.len() implies #[trigger] after.contains_key(out@[t].0@)
                        && after[out@[t].0@] == out@[t].1@ by {
                        if t != j {
                            assert(before.contains_key(old_out[t].0@));
                        }
                    }
                    assert forall|k: Seq<char>| #[trigger] after.contains_key(k) implies exists|t: int|
                        0 <= t < out@.len() && out@[t].0@ == k by {
                        if k == entry.0@ {
                            assert(out@[j as int].0@ == k);
                        } else {
                            assert(before.contains_key(k));
                            let t = choose|t: int| 0 <= t < old_out.len() && old_out[t].0@ == k;
                            assert(out@[t].0@ == k);
                        }
                    }
                }
            },
            None => {
                proof {
                    let after = header_map_of(raw_headers_view(headers@.subrange(0, i as int + 1)));
                    let sub = raw_headers_view(headers@.subrange(0, i as int + 1));
                    assert(sub.last().1 is None);
                    assert(after == before);
                }
            },
        }
        i = i + 1;
    }
    proof {
        assert(headers@.subrange(0, headers@.len() as int) =~= headers@);
    }
    out
}

/// Whether a list holds some string with the text `x`.
fn contains_text(list: &Vec<String>, x: &String) -> (r: bool)
    ensures
        r == strings_view(list@).contains(x@),
{
    let mut j: usize = 0;
    while j < list.len()
        invariant
            j <= list@.len(),
            forall|t: int| 0 <= t < j ==> list@[t]@ != x@,
        decreases list@.len() - j,
    {
        if list[j] == *x {
            proof {
                assert(strings_view(list@)[j as int] == x@);
            }
            return true;
        }
        j = j + 1;
    }
    proof {
        if strings_view(list@).contains(x@) {
            let t = choose|t: int| 0 <= t < list@.len() && strings_view(list@)[t] == x@;
            assert(list@[t]@ == x@);
        }
    }
    false
}

/// The links of a page, each once, in the order of their first occurrence.
pub fn unique_links(links: &Vec<String>) -> (r: Vec<String>)
    ensures
        strings_view(r@).no_duplicates(),
        strings_view(r@).to_set() == strings_view(links@).to_set(),
{
    let mut out: Vec<String> = Vec::new();
    let mut i: usize = 0;
    while i < links.len()
        invariant
            i <= links@.len(),
            strings_view(out@).no_duplicates(),
            strings_view(out@).to_set() == strings_view(links@.subrange(0, i as int)).to_set(),
        decreases links@.len() - i,
    {
        let ghost old_out = out@;
        proof {
            assert(strings_view(links@.subrange(0, i as int + 1)) =~= strings_view(
                links@.subrange(0, i as int),
            ).push(links@[i as int]@));
        }
        if !contains_text(&out, &links[i]) {
            out.push(links[i].clone());
            proof {
                assert(strings_view(out@) =~= strings_view(old_out).push(links@[i as int]@));
                strings_view(old_out).lemma_push_to_set_commute(links@[i as int]@);
            }
        } else {
            proof {
                strings_view(links@.subrange(0, i as int)).lemma_push_to_set_commute(links@[i as int]@);
                assert(strings_view(out@).to_set().contains(links@[i as int]@));
                assert(strings_view(out@).to_set() =~= strings_view(out@).to_set().insert(
                    links@[i as int]@,
                ));
            }
        }
        proof {
            strings_view(links@.subrange(0, i as int)).lemma_push_to_set_commute(links@[i as int]@);
        }
        i = i + 1;
    }
    proof {
        assert(links@.subrange(0, links@.len() as int) =~= links@);
    }
    out
}

/// `r` is the page record that the engine result `res` gives: its url and
/// status, the text body and no bytes, or the raw bytes and an empty text when
/// `raw` is set, the header map, and the links each once.
pub open spec fn is_record_of(res: RawPage, raw: bool, r: NPage) -> bool {
    &&& r.url@ == res.url@
    &&& r.status_code == res.status_code
    &&& if raw {
        r.content@ == Seq::<char>::empty() && r.raw_content == Some(res.html_bytes)
    } else {
        r.content@ == res.html@ && r.raw_content is None
    }
    &&& match res.headers {
        Some(h) => r.headers matches Some(o) && lists_map(o@, header_map_of(raw_headers_view(h@))),
        None => r.headers is None,
    }
    &&& match res.links {
        Some(l) => r.links matches Some(o) && strings_view(o@).no_duplicates() && strings_view(o@).to_set()
            == strings_view(l@).to_set(),
        None => r.links is None,
    }
}

/// Builds the page record of an engine result, with text or raw bytes as
/// `raw` says.
pub fn new_page(res: RawPage, raw: bool) -> (r: NPage)
    ensures
        is_record_of(res, raw, r),
{
    let headers = match &res.headers {
        Some(h) => Some(header_map_to_hash_map(h)),
        None => None,
    };
    let links = match &res.links {
        Some(l) => Some(unique_links(l)),
        None => None,
    };
    let RawPage { url, status_code, html, html_bytes, headers: _, links: _ } = res;
    if raw {
        NPage { url, content: String::new(), status_code, raw_content: Some(html_bytes), headers, links }
    } else {
        NPage { url, content: html, status_code, raw_content: None, headers, links }
    }
}

/// A page record carries exactly one of the two bodies: with `raw` set, the
/// engine's bytes and an empty text; without it, the engine's text and no
/// bytes.
pub proof fn lemma_record_body_exclusive(res: RawPage, raw: bool, r: NPage)
    requires
        is_record_of(res, raw, r),
    ensures
        raw ==> r.raw_content == Some(res.html_bytes) && r.content@.len() == 0,
        !raw ==> r.raw_content is None && r.content@ == res.html@,
{
}

/// The inner HTML of the first `title` element of an HTML document.
pub uninterp spec fn html_title_of(html: Seq<char>) -> Seq<char>;

/// Relies on scraper's `Html::parse_document` and `select`: the inner HTML of
/// the first `title` element of the parsed document, or an empty string when
/// there is none.
#[verifier::external_body]
fn document_title(html: &str) -> (r: String)
    ensures
        r@ == html_title_of(html@),
{
    match Selector::parse("title") {
        Ok(selector) => match Html::parse_document(html).select(&selector).next() {
            Some(title) => title.inner_html(),
            None => String::new(),
        },
        Err(_) => String::new(),
    }
}

impl NPage {
    /// The page title: the inner HTML of the first `title` element of the
    /// content, empty when there is none.
    pub fn title(&self) -> (r: String)
        ensures
            r@ == html_title_of(self.content@),
    {
        document_title(self.content.as_str())
    }
}

/// The title of a page record.
pub fn page_title(page: NPage) -> (r: String)
    ensures
        r@ == html_title_of(page.content@),
{
    page.title()
}

/// The configured request headers as name and value pairs, in order; a value
/// that is not visible ASCII becomes empty.
pub fn configuration_header_pairs(headers: &Vec<(String, Option<String>)>) -> (r: Vec<(String, String)>)
    ensures
        r@.len() == headers@.len(),
        forall|i: int| 0 <= i < headers@.len() ==> {
            &&& (#[trigger] r@[i]).0@ == headers@[i].0@
            &&& r@[i].1@ == match headers@[i].1 {
                Some(v) => v@,
                None => Seq::<char>::empty(),
            }
        },
{
    let mut out: Vec<(String, String)> = Vec::new();
    let mut i: usize = 0;
    while i < headers.len()
        invariant
            i <= headers@.len(),
            out@.len() == i,
            forall|t: int| 0 <= t < i ==> {
                &&& (#[trigger] out@[t]).0@ == headers@[t].0@
                &&& out@[t].1@ == match headers@[t].1 {
                    Some(v) => v@,
                    None => Seq::<char>::empty(),
                }
            },
        decreases headers@.len() - i,
    {
        let value = match &headers[i].1 {
            Some(v) => v.clone(),
            None => String::new(),
        };
        out.push((headers[i].0.clone(), value));
        i = i + 1;
    }
    out
}

} // verus!
