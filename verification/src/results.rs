use crate::text::{decimal, push_decimal};
use vstd::prelude::*;

verus! {

/// One result of a listing page.
#[derive(Debug)]
pub struct SearchResult {
    /// Position on the page, counted from 1.
    pub rank: usize,
    /// Text of the result's heading. Never empty.
    pub title: String,
    /// Address the result leads to. Never empty, and found once per page.
    pub url: String,
}

/// What a [`SearchResult`] holds.
pub struct SearchResultView {
    pub rank: nat,
    pub title: Seq<char>,
    pub url: Seq<char>,
}

impl View for SearchResult {
    type V = SearchResultView;

    open spec fn view(&self) -> SearchResultView {
        SearchResultView { rank: self.rank as nat, title: self.title@, url: self.url@ }
    }
}

/// What a list of results holds.
pub open spec fn results_view(results: Seq<SearchResult>) -> Seq<SearchResultView> {
    Seq::new(results.len(), |i: int| results[i]@)
}

/// The results of one page of one query, as they are written out.
#[derive(Debug)]
pub struct PageResult {
    /// Text of the query.
    pub query: String,
    /// Number of the page within the query, counted from 1.
    pub page: u32,
    /// When the page was recorded.
    pub timestamp: String,
    /// Number of results on the page.
    pub result_count: usize,
    /// The results, in the order of the page.
    pub results: Vec<SearchResult>,
}

/// What a [`PageResult`] holds.
pub struct PageResultView {
    pub query: Seq<char>,
    pub page: nat,
    pub timestamp: Seq<char>,
    pub result_count: nat,
    pub results: Seq<SearchResultView>,
}

impl View for PageResult {
    type V = PageResultView;

    open spec fn view(&self) -> PageResultView {
        PageResultView {
            query: self.query@,
            page: self.page as nat,
            timestamp: self.timestamp@,
            result_count: self.result_count as nat,
            results: results_view(self.results@),
        }
    }
}

impl SearchResult {
    /// A copy of the result.
    pub fn duplicate(&self) -> (copy: SearchResult)
        ensures
            copy@ == self@,
    {
        SearchResult { rank: self.rank, title: self.title.clone(), url: self.url.clone() }
    }
}

/// A copy of a list of results.
pub fn duplicate_results(results: &Vec<SearchResult>) -> (copy: Vec<SearchResult>)
    ensures
        results_view(copy@) == results_view(results@),
{
    let mut copy: Vec<SearchResult> = Vec::new();
    let mut k: usize = 0;
    while k < results.len()
        invariant
            k <= results@.len(),
            copy@.len() == k,
            forall|i: int| 0 <= i < k ==> copy@[i]@ == results@[i]@,
        decreases results@.len() - k,
    {
        copy.push(results[k].duplicate());
        k = k + 1;
    }
    assert(results_view(copy@) =~= results_view(results@));
    copy
}

impl PageResult {
    /// The document for one page: the query, the page's number, the time of
    /// recording and the results, with their count.
    pub fn assemble(query: &str, page: u32, timestamp: String, results: &Vec<SearchResult>) -> (doc:
        PageResult)
        ensures
            doc@ == (PageResultView {
                query: query@,
                page: page as nat,
                timestamp: timestamp@,
                result_count: results@.len(),
                results: results_view(results@),
            }),
    {
        let copy = duplicate_results(results);
        assert(results_view(copy@).len() == results_view(results@).len());
        PageResult {
            query: query.to_owned(),
            page,
            timestamp,
            result_count: copy.len(),
            results: copy,
        }
    }
}

/// The name of the file that takes a page's results: the page's number in
/// decimal, with the extension of the format.
pub open spec fn page_file(page: nat) -> Seq<char> {
    decimal(page) + ".json"@
}

/// Names the file that takes the results of the given page.
pub fn page_file_name(page: u32) -> (name: String)
    ensures
        name@ == page_file(page as nat),
{
    let mut name = String::new();
    push_decimal(&mut name, page as u64);
    name.append(".json");
    assert(name@ =~= page_file(page as nat));
    name
}

} // verus!
