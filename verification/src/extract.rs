use crate::results::{results_view, SearchResult, SearchResultView};
use crate::text::texts_view;
use scraper::{Html, Selector};
use vstd::hash_set::StringHashSet;
use vstd::prelude::*;

verus! {

/// The elements that hold one result each.
pub const RESULT_ANCHOR: &'static str = "a[jsname=\"UWckNb\"]";

/// The attribute of such an element that holds the result's address.
pub const ADDRESS_ATTRIBUTE: &'static str = "href";

/// The element below it that holds the result's heading.
pub const RESULT_HEADING: &'static str = "h3";

/// What is read of one element of a listing: the value of its address
/// attribute, which may be missing, and the text of each heading below it, in
/// the order in which the parser yields them.
#[derive(Debug)]
pub struct Anchor {
    pub href: Option<String>,
    pub headings: Vec<String>,
}

/// What an [`Anchor`] holds.
pub struct AnchorView {
    pub href: Option<Seq<char>>,
    pub headings: Seq<Seq<char>>,
}

/// What a piece of text that may be missing holds.
pub open spec fn field_view(field: Option<String>) -> Option<Seq<char>> {
    match field {
        Some(text) => Some(text@),
        None => None,
    }
}

impl View for Anchor {
    type V = AnchorView;

    open spec fn view(&self) -> AnchorView {
        AnchorView { href: field_view(self.href), headings: texts_view(self.headings@) }
    }
}

/// What a list of anchors holds.
pub open spec fn anchors_view(anchors: Seq<Anchor>) -> Seq<AnchorView> {
    Seq::new(anchors.len(), |i: int| anchors[i]@)
}

/// What the outcome of a scan holds.
pub open spec fn scan_view(found: Option<Vec<Anchor>>) -> Option<Seq<AnchorView>> {
    match found {
        Some(anchors) => Some(anchors_view(anchors@)),
        None => None,
    }
}

/// The anchors that the parser finds in `html`, in the order in which it
/// yields them: the elements that match the selector `anchor`, each with the
/// value of its attribute `attribute` and the text below each of its
/// descendants that match the selector `heading`, these too in the order in
/// which the parser yields them. `None` where one of the two is no selector.
pub uninterp spec fn listed_anchors(
    html: Seq<char>,
    anchor: Seq<char>,
    attribute: Seq<char>,
    heading: Seq<char>,
) -> Option<Seq<AnchorView>>;

/// Parses `html` as a document with `scraper` (`Html::parse_document`,
/// `Selector::parse`, `Html::select`, `Element::attr`, `ElementRef::select`,
/// `ElementRef::text`) and reads each matching element into an [`Anchor`].
/// The claim is that what comes back depends on the four texts alone.
#[verifier::external_body]
fn scan(html: &str, anchor: &str, attribute: &str, heading: &str) -> (found: Option<Vec<Anchor>>)
    ensures
        scan_view(found) == listed_anchors(html@, anchor@, attribute@, heading@),
{
    let anchors = Selector::parse(anchor).ok()?;
    let marks = Selector::parse(heading).ok()?;
    let document = Html::parse_document(html);
    let mut found = Vec::new();
    for element in document.select(&anchors) {
        let href = element.value().attr(attribute).map(|value| value.to_string());
        let headings = element.select(&marks).map(|h| h.text().collect::<String>()).collect();
        found.push(Anchor { href, headings });
    }
    Some(found)
}

/// The text of a field; empty where the field is missing.
pub open spec fn text_of(field: Option<Seq<char>>) -> Seq<char> {
    match field {
        Some(text) => text,
        None => Seq::empty(),
    }
}

/// The title of an anchor: the text of its first heading; empty where it has
/// no heading.
pub open spec fn title_of(anchor: AnchorView) -> Seq<char> {
    if anchor.headings.len() > 0 {
        anchor.headings[0]
    } else {
        Seq::empty()
    }
}

/// Whether an anchor can become a record: it has an address and a title.
pub open spec fn acceptable(anchor: AnchorView) -> bool {
    text_of(anchor.href).len() > 0 && title_of(anchor).len() > 0
}

/// Whether no acceptable anchor before the `i`-th has the address of the
/// `i`-th.
pub open spec fn first_of_its_url(anchors: Seq<AnchorView>, i: int) -> bool {
    forall|j: int|
        0 <= j < i && acceptable(#[trigger] anchors[j]) ==> text_of(anchors[j].href) != text_of(
            anchors[i].href,
        )
}

/// Whether the `i`-th anchor becomes a record: it is acceptable, and the
/// first such anchor with its address.
pub open spec fn kept(anchors: Seq<AnchorView>, i: int) -> bool {
    acceptable(anchors[i]) && first_of_its_url(anchors, i)
}

/// The records from the first `n` anchors: one for each anchor that is kept,
/// in the order of the anchors, ranked from 1.
pub open spec fn selected(anchors: Seq<AnchorView>, n: int) -> Seq<SearchResultView>
    decreases n,
{
    if n <= 0 {
        Seq::empty()
    } else {
        let before = selected(anchors, n - 1);
        if kept(anchors, n - 1) {
            before.push(
                SearchResultView {
                    rank: before.len() + 1,
                    title: title_of(anchors[n - 1]),
                    url: text_of(anchors[n - 1].href),
                },
            )
        } else {
            before
        }
    }
}

/// The records of a listing whose anchors are `anchors`.
pub open spec fn records_of(anchors: Seq<AnchorView>) -> Seq<SearchResultView> {
    selected(anchors, anchors.len() as int)
}

/// The records of the listing page `html`. A page in which the parser cannot
/// look for anchors has none.
pub open spec fn listing_records(html: Seq<char>) -> Seq<SearchResultView> {
    match listed_anchors(html, RESULT_ANCHOR@, ADDRESS_ATTRIBUTE@, RESULT_HEADING@) {
        Some(anchors) => records_of(anchors),
        None => Seq::empty(),
    }
}

/// Whether one of `records` has the address `url`.
pub open spec fn has_url(records: Seq<SearchResultView>, url: Seq<char>) -> bool {
    exists|r: int| 0 <= r < records.len() && (#[trigger] records[r]).url == url
}

/// Whether every record has a title and an address, no address occurs twice,
/// and the ranks count from 1.
pub open spec fn well_formed(records: Seq<SearchResultView>) -> bool {
    &&& forall|r: int|
        0 <= r < records.len() ==> (#[trigger] records[r]).title.len() > 0 && records[r].url.len()
            > 0 && records[r].rank == r + 1
    &&& forall|r: int, s: int|
        0 <= r < s < records.len() ==> (#[trigger] records[r]).url != (#[trigger] records[s]).url
}

/// The records from the first `n` anchors are well formed, each stems from an
/// acceptable anchor among them, and each acceptable anchor among them has
/// its address in one record.
pub proof fn lemma_selected(anchors: Seq<AnchorView>, n: int)
    requires
        0 <= n <= anchors.len(),
    ensures
        well_formed(selected(anchors, n)),
        selected(anchors, n).len() <= n,
        forall|url: Seq<char>|
            has_url(selected(anchors, n), url) <==> exists|j: int|
                0 <= j < n && acceptable(#[trigger] anchors[j]) && text_of(anchors[j].href) == url,
    decreases n,
{
    if n > 0 {
        lemma_selected(anchors, n - 1);
        let before = selected(anchors, n - 1);
        let after = selected(anchors, n);
        let last = anchors[n - 1];
        assert forall|url: Seq<char>| has_url(after, url) <==> exists|j: int|
            0 <= j < n && acceptable(#[trigger] anchors[j]) && text_of(anchors[j].href)
                == url by {
            if has_url(after, url) {
                let r = choose|r: int| 0 <= r < after.len() && (#[trigger] after[r]).url == url;
                if r < before.len() {
                    assert(before[r].url == url);
                    assert(has_url(before, url));
                } else {
                    assert(acceptable(anchors[n - 1]) && text_of(anchors[n - 1].href) == url);
                }
            }
            if exists|j: int|
                0 <= j < n && acceptable(#[trigger] anchors[j]) && text_of(anchors[j].href)
                    == url {
                let j = choose|j: int|
                    0 <= j < n && acceptable(#[trigger] anchors[j]) && text_of(anchors[j].href)
                        == url;
                if j < n - 1 {
                    assert(has_url(before, url));
                    let r = choose|r: int|
                        0 <= r < before.len() && (#[trigger] before[r]).url == url;
                    assert(after[r].url == url);
                } else if kept(anchors, n - 1) {
                    assert(after[after.len() - 1].url == url);
                } else {
                    let i = choose|i: int|
                        0 <= i < n - 1 && acceptable(#[trigger] anchors[i]) && text_of(
                            anchors[i].href,
                        ) == text_of(anchors[n - 1].href);
                    assert(has_url(before, url));
                    let r = choose|r: int|
                        0 <= r < before.len() && (#[trigger] before[r]).url == url;
                    assert(after[r].url == url);
                }
            }
        }
        if kept(anchors, n - 1) {
            assert forall|r: int, s: int| 0 <= r < s < after.len() implies (#[trigger] after[r]).url
                != (#[trigger] after[s]).url by {
                if s == after.len() - 1 {
                    if after[r].url == after[s].url {
                        assert(before[r].url == text_of(last.href));
                        assert(has_url(before, text_of(last.href)));
                    }
                } else {
                    assert(before[r].url != before[s].url);
                }
            }
        }
    }
}

/// No record lacks a title or an address, no address occurs twice among the
/// records of one page, and of several anchors with one address the first
/// acceptable one gives the record.
pub proof fn lemma_records_well_formed(anchors: Seq<AnchorView>)
    ensures
        well_formed(records_of(anchors)),
        forall|i: int|
            0 <= i < anchors.len() && acceptable(#[trigger] anchors[i]) ==> has_url(
                records_of(anchors),
                text_of(anchors[i].href),
            ),
{
    lemma_selected(anchors, anchors.len() as int);
}

/// The records of a listing page are well formed, whatever the page holds.
pub proof fn lemma_listing_records(html: Seq<char>)
    ensures
        well_formed(listing_records(html)),
{
    match listed_anchors(html, RESULT_ANCHOR@, ADDRESS_ATTRIBUTE@, RESULT_HEADING@) {
        Some(anchors) => {
            lemma_records_well_formed(anchors);
        },
        None => {},
    }
}

fn address(anchor: &Anchor) -> (text: String)
    ensures
        text@ == text_of(anchor@.href),
{
    match &anchor.href {
        Some(text) => text.clone(),
        None => String::new(),
    }
}

fn title(anchor: &Anchor) -> (text: String)
    ensures
        text@ == title_of(anchor@),
{
    if anchor.headings.len() > 0 {
        anchor.headings[0].clone()
    } else {
        String::new()
    }
}

/// Turns the anchors of a listing into its records: an anchor without an
/// address or without a title gives none, and of several anchors with one
/// address only the first gives one.
pub fn select_results(anchors: &Vec<Anchor>) -> (results: Vec<SearchResult>)
    ensures
        results_view(results@) == records_of(anchors_view(anchors@)),
        well_formed(results_view(results@)),
{
    let ghost all = anchors_view(anchors@);
    let mut results: Vec<SearchResult> = Vec::new();
    let mut seen_urls = StringHashSet::new();
    let mut k: usize = 0;
    while k < anchors.len()
        invariant
            all == anchors_view(anchors@),
            k <= anchors@.len(),
            results_view(results@) =~= selected(all, k as int),
            forall|url: Seq<char>|
                seen_urls@.contains(url) <==> has_url(results_view(results@), url),
        decreases anchors@.len() - k,
    {
        let url: String = address(&anchors[k]);
        let title: String = title(&anchors[k]);
        proof {
            lemma_selected(all, k as int);
            assert(all[k as int] == anchors@[k as int]@);
            if has_url(selected(all, k as int), url@) {
                let j = choose|j: int|
                    0 <= j < k && acceptable(#[trigger] all[j]) && text_of(all[j].href) == url@;
                assert(!first_of_its_url(all, k as int));
            }
        }
        if !url.as_str().is_empty() && !title.as_str().is_empty() && !seen_urls.contains(
            url.as_str(),
        ) {
            let ghost before = results_view(results@);
            let ghost added = url@;
            seen_urls.insert(url.clone());
            results.push(SearchResult { rank: results.len() + 1, title, url });
            proof {
                let after = results_view(results@);
                assert(after =~= before.push(results@[results@.len() - 1]@));
                assert forall|other: Seq<char>| seen_urls@.contains(other) <==> has_url(
                    after,
                    other,
                ) by {
                    if has_url(before, other) {
                        let r = choose|r: int|
                            0 <= r < before.len() && (#[trigger] before[r]).url == other;
                        assert(after[r].url == other);
                    }
                    if other == added {
                        assert(after[after.len() - 1].url == other);
                    }
                    if has_url(after, other) && other != added {
                        let r = choose|r: int|
                            0 <= r < after.len() && (#[trigger] after[r]).url == other;
                        assert(before[r].url == other);
                    }
                }
            }
        }
        k = k + 1;
    }
    proof {
        lemma_selected(all, all.len() as int);
    }
    results
}

/// Reads the records of a listing page: the anchors that mark a result, each
/// with its address and the text of its heading, in the order in which the
/// parser yields them, less those that lack either and those whose address
/// an earlier record has.
pub fn extract_search_results(html: &str) -> (results: Vec<SearchResult>)
    ensures
        results_view(results@) == listing_records(html@),
        well_formed(results_view(results@)),
{
    match scan(html, RESULT_ANCHOR, ADDRESS_ATTRIBUTE, RESULT_HEADING) {
        Some(anchors) => select_results(&anchors),
        None => {
            let results: Vec<SearchResult> = Vec::new();
            assert(results_view(results@) =~= Seq::empty());
            results
        },
    }
}

} // verus!
