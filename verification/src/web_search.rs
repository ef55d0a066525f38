//! The web-search tool: without an API key it answers with a fixed notice;
//! with one it asks the Serper search service, whose answer it trims to
//! the requested number of results.

use vstd::prelude::*;
use crate::text::owned;

verus! {

/// The web-search tool, with the optional Serper API key.
pub struct WebSearchTool {
    api_key: Option<String>,
}

/// A search request.
pub struct WebSearchInput {
    pub query: String,
    pub max_results: Option<usize>,
}

/// One search hit.
pub struct WebSearchResult {
    pub title: String,
    pub url: String,
    pub snippet: String,
}

/// The hits of a search, with the query that produced them.
pub struct WebSearchOutput {
    pub results: Vec<WebSearchResult>,
    pub query: String,
}

/// One entry of the `organic` list of a Serper answer: its `title`, `link`
/// and `snippet` fields where they are strings.
pub struct OrganicItem {
    pub title: Option<String>,
    pub link: Option<String>,
    pub snippet: Option<String>,
}

/// What a search call does: ask Serper, or answer at once.
pub enum SearchPlan {
    /// Post `{"q": query, "num": num}` to Serper with this API key.
    Serper { query: String, num: usize, api_key: String },
    /// Answer with this output.
    Done(WebSearchOutput),
}

pub open spec fn opt_text(o: Option<String>) -> Option<Seq<char>> {
    match o {
        Some(s) => Some(s@),
        None => None,
    }
}

/// A string field, or the empty text where it is missing.
pub open spec fn text_or_empty(o: Option<String>) -> Seq<char> {
    match o {
        Some(s) => s@,
        None => Seq::empty(),
    }
}

/// The number of results asked for: 5 unless the request says otherwise.
pub open spec fn wanted_results(args: WebSearchInput) -> usize {
    match args.max_results {
        Some(n) => n,
        None => 5,
    }
}

/// The number asked of Serper is the request's `max_results` whenever it
/// is given, however large, and 5 when it is not.
pub proof fn law_wanted_results(args: WebSearchInput)
    ensures
        args.max_results matches Some(n) ==> wanted_results(args) == n,
        args.max_results is None ==> wanted_results(args) == 5,
{
}

/// The notice returned while no API key is configured.
pub open spec fn stub_output(o: WebSearchOutput, query: Seq<char>) -> bool {
    &&& o.query@ == query
    &&& o.results@.len() == 1
    &&& o.results@[0].title@ == "Search not configured"@
    &&& o.results@[0].url@ == "https://example.com"@
    &&& o.results@[0].snippet@ == "Set WEB_SEARCH_API_KEY environment variable to enable web search."@
}

/// `r` is the search hit made from a Serper entry, missing fields empty.
pub open spec fn hit_from(r: WebSearchResult, item: OrganicItem) -> bool {
    &&& r.title@ == text_or_empty(item.title)
    &&& r.url@ == text_or_empty(item.link)
    &&& r.snippet@ == text_or_empty(item.snippet)
}

impl WebSearchTool {
    /// The API key the tool was made with.
    pub closed spec fn key(&self) -> Option<Seq<char>> {
        opt_text(self.api_key)
    }

    /// A tool without API key, which answers with a notice.
    pub fn new() -> (t: Self)
        ensures
            t.key() is None,
    {
        WebSearchTool { api_key: None }
    }

    /// A tool that searches with the given Serper API key.
    pub fn with_api_key(key: String) -> (t: Self)
        ensures
            t.key() == Some(key@),
    {
        WebSearchTool { api_key: Some(key) }
    }

    pub fn name(&self) -> (s: &str)
        ensures
            s@ == "web_search"@,
    {
        "web_search"
    }

    pub fn description(&self) -> (s: &str)
        ensures
            s@ == "Search the web for information. Returns titles, URLs, and snippets."@,
    {
        "Search the web for information. Returns titles, URLs, and snippets."
    }

    /// What a search call does: with an API key, ask Serper for the query
    /// and the wanted number of results (5 by default); without one, answer
    /// with the notice of `stub_output`.
    pub fn plan(&self, args: WebSearchInput) -> (p: SearchPlan)
        ensures
            self.key() matches Some(k) ==> (p matches SearchPlan::Serper { query, num, api_key } && query@
                == args.query@ && num == wanted_results(args) && api_key@ == k),
            self.key() is None ==> (p matches SearchPlan::Done(o) && stub_output(o, args.query@)),
    {
        match &self.api_key {
            Some(key) => {
                let num = match args.max_results {
                    Some(n) => n,
                    None => 5,
                };
                SearchPlan::Serper { query: args.query, num, api_key: owned(key.as_str()) }
            },
            None => {
                proof {
                    reveal_strlit("Search not configured");
                    reveal_strlit("https://example.com");
                    reveal_strlit("Set WEB_SEARCH_API_KEY environment variable to enable web search.");
                }
                let hit = WebSearchResult {
                    title: owned("Search not configured"),
                    url: owned("https://example.com"),
                    snippet: owned("Set WEB_SEARCH_API_KEY environment variable to enable web search."),
                };
                let mut results = Vec::new();
                results.push(hit);
                SearchPlan::Done(WebSearchOutput { results, query: args.query })
            },
        }
    }
}

fn text_or_empty_exec(o: Option<String>) -> (s: String)
    ensures
        s@ == text_or_empty(o),
{
    match o {
        Some(s) => s,
        None => String::new(),
    }
}

/// The output of a Serper answer: the first `num` entries of its `organic`
/// list (none when the list is missing), each with missing fields empty.
pub fn serper_output(organic: Option<Vec<OrganicItem>>, num: usize, query: &str) -> (o: WebSearchOutput)
    ensures
        o.query@ == query@,
        organic is None ==> o.results@.len() == 0,
        organic matches Some(items) ==> {
            &&& o.results@.len() == if items@.len() < num { items@.len() as int } else { num as int }
            &&& forall|k: int| 0 <= k < o.results@.len() ==> #[trigger] hit_from(o.results@[k], items@[k])
        },
{
    let mut results: Vec<WebSearchResult> = Vec::new();
    match organic {
        None => {},
        Some(items) => {
            let ghost all = items@;
            let mut items = items;
            let mut rev: Vec<OrganicItem> = Vec::new();
            // take the first `num` entries in order
            let limit = if items.len() < num { items.len() } else { num };
            items.truncate(limit);
            let ghost kept = items@;
            assert(kept =~= all.take(limit as int));
            let mut i: usize = 0;
            while i < limit
                invariant
                    limit == kept.len(),
                    i <= limit,
                    items@ == kept.take(limit - i as int),
                    results@.len() == 0,
                    rev@.len() == i,
                    forall|k: int| 0 <= k < i ==> #[trigger] rev@[k] == kept[limit - 1 - k],
                decreases limit - i,
            {
                let it = items.pop().unwrap();
                assert(kept.take(limit - i as int).drop_last() =~= kept.take(limit - i - 1));
                rev.push(it);
                i = i + 1;
            }
            let mut j: usize = 0;
            while j < limit
                invariant
                    limit == kept.len(),
                    j <= limit,
                    rev@.len() == limit - j,
                    forall|k: int| 0 <= k < limit - j ==> #[trigger] rev@[k] == kept[limit - 1 - k],
                    results@.len() == j,
                    forall|k: int| 0 <= k < j ==> #[trigger] hit_from(results@[k], kept[k]),
                decreases limit - j,
            {
                let it = rev.pop().unwrap();
                assert(it == kept[j as int]);
                let hit = WebSearchResult {
                    title: text_or_empty_exec(it.title),
                    url: text_or_empty_exec(it.link),
                    snippet: text_or_empty_exec(it.snippet),
                };
                results.push(hit);
                j = j + 1;
            }
            assert forall|k: int| 0 <= k < results@.len() implies #[trigger] hit_from(results@[k], all[k]) by {
                assert(kept[k] == all[k]);
            }
        },
    }
    WebSearchOutput { results, query: owned(query) }
}

} // verus!
