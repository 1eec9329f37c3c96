//! Web context for movie data enrichment: the approved public sources, the
//! URLs tried for a title, how each attempt ended, the report written after
//! scraping, and the check that a page is about a film.

use vstd::prelude::*;
use crate::text::{
    collapse_whitespace, collapse_whitespace_chars, contains_seq, contains_str, decimal, join,
    join_strings, push_decimal, replace_char, spec_lowercase, to_chars, to_lowercase, trim,
    trim_str, views, from_chars, byte_len,
};

verus! {

/// Maximum bytes of scraped text kept per movie.
pub const MAX_CONTEXT_CHARS: usize = 3000;

/// How a source builds its direct-hit and search URLs.
#[derive(Debug, Clone, Copy, PartialEq, Eq)]
pub enum SourceKind {
    /// `https://en.wikipedia.org/wiki/<slug>_(film)` and `.../<slug>`, with a
    /// Wikipedia search fallback.
    WikipediaFilm,
    /// `.../<slug>_(TV_series)` and `.../<slug>_(miniseries)`, no search.
    WikipediaSeries,
    /// No direct hits; a Wikidata search.
    WikidataSearch,
}

/// A known-good site that can be queried for movie data. Sources are tried
/// in order; the first that yields content wins.
pub struct ApprovedSource {
    /// Human-readable name shown in logs.
    pub name: &'static str,
    /// Base domain (used for allow-list checks and log output).
    pub domain: &'static str,
    /// How candidate and search URLs are built.
    pub kind: SourceKind,
    /// CSS selector for the infobox / structured data table.
    pub infobox_selector: &'static str,
    /// CSS selector for body paragraphs.
    pub paragraph_selector: &'static str,
}

/// All sites the scraper is permitted to contact, in the order they are tried.
pub fn approved_sources() -> (r: Vec<ApprovedSource>)
    ensures
        r@.len() == 3,
        r@[0].kind == SourceKind::WikipediaFilm,
        r@[1].kind == SourceKind::WikipediaSeries,
        r@[2].kind == SourceKind::WikidataSearch,
        r@[0].name@ == "Wikipedia (film page)"@,
        r@[1].name@ == "Wikipedia (TV/miniseries page)"@,
        r@[2].name@ == "Wikidata simple (film)"@,
        r@[0].domain@ == "en.wikipedia.org"@,
        r@[1].domain@ == "en.wikipedia.org"@,
        r@[2].domain@ == "www.wikidata.org"@,
{
    vec![
        ApprovedSource {
            name: "Wikipedia (film page)",
            domain: "en.wikipedia.org",
            kind: SourceKind::WikipediaFilm,
            infobox_selector: "table.infobox",
            paragraph_selector: "div.mw-parser-output > p",
        },
        ApprovedSource {
            name: "Wikipedia (TV/miniseries page)",
            domain: "en.wikipedia.org",
            kind: SourceKind::WikipediaSeries,
            infobox_selector: "table.infobox",
            paragraph_selector: "div.mw-parser-output > p",
        },
        ApprovedSource {
            name: "Wikidata simple (film)",
            domain: "www.wikidata.org",
            kind: SourceKind::WikidataSearch,
            infobox_selector: "table.infobox",
            paragraph_selector: "div.mw-parser-output > p",
        },
    ]
}

/// `prefix` followed by `s` and `suffix`.
pub fn framed(prefix: &str, s: &str, suffix: &str) -> (r: String)
    ensures
        r@ == prefix@ + s@ + suffix@,
{
    let mut r = String::from_str(prefix);
    r.append(s);
    r.append(suffix);
    r
}

/// The direct-hit URLs a source tries for a title slug.
pub open spec fn candidate_urls_spec(kind: SourceKind, slug: Seq<char>) -> Seq<Seq<char>> {
    match kind {
        SourceKind::WikipediaFilm => seq![
            "https://en.wikipedia.org/wiki/"@ + slug + "_(film)"@,
            "https://en.wikipedia.org/wiki/"@ + slug + ""@,
        ],
        SourceKind::WikipediaSeries => seq![
            "https://en.wikipedia.org/wiki/"@ + slug + "_(TV_series)"@,
            "https://en.wikipedia.org/wiki/"@ + slug + "_(miniseries)"@,
        ],
        SourceKind::WikidataSearch => Seq::empty(),
    }
}

impl ApprovedSource {
    /// Builds direct-hit URL candidates from a title slug.
    pub fn candidate_urls(&self, slug: &str) -> (r: Vec<String>)
        ensures
            views(r@) == candidate_urls_spec(self.kind, slug@),
    {
        let mut r: Vec<String> = Vec::new();
        match self.kind {
            SourceKind::WikipediaFilm => {
                r.push(framed("https://en.wikipedia.org/wiki/", slug, "_(film)"));
                r.push(framed("https://en.wikipedia.org/wiki/", slug, ""));
            },
            SourceKind::WikipediaSeries => {
                r.push(framed("https://en.wikipedia.org/wiki/", slug, "_(TV_series)"));
                r.push(framed("https://en.wikipedia.org/wiki/", slug, "_(miniseries)"));
            },
            SourceKind::WikidataSearch => {},
        }
        proof {
            match self.kind {
                SourceKind::WikidataSearch => {
                    assert(views(r@) =~= Seq::<Seq<char>>::empty());
                },
                _ => {
                    assert(views(r@) =~= candidate_urls_spec(self.kind, slug@));
                },
            }
        }
        r
    }
}

// ---------------------------------------------------------------------------
// Search URLs (URL encoding by the `url` crate via reqwest)
// ---------------------------------------------------------------------------

/// The serialized URL that `Url::parse_with_params` builds from a base URL
/// and query pairs, or `None` when the base does not parse.
pub uninterp spec fn spec_url_with_params(base: Seq<char>, params: Seq<(Seq<char>, Seq<char>)>) -> Option<Seq<char>>;

/// The views of query pairs.
pub open spec fn pair_views(params: Seq<(String, String)>) -> Seq<(Seq<char>, Seq<char>)> {
    params.map_values(|p: (String, String)| (p.0@, p.1@))
}

/// Calls `reqwest::Url::parse_with_params` and serializes the URL; the
/// result is named by `spec_url_with_params`.
#[verifier::external_body]
fn url_with_params(base: &str, params: &Vec<(String, String)>) -> (r: Option<String>)
    ensures
        match r {
            Some(u) => spec_url_with_params(base@, pair_views(params@)) == Some(u@),
            None => spec_url_with_params(base@, pair_views(params@)) is None,
        },
{
    reqwest::Url::parse_with_params(base, params.iter()).ok().map(|u| u.to_string())
}

/// The search fallback URL of a source for a title, if the source has one:
/// the encoded search URL, or a hand-built one with spaces as `+` when
/// encoding fails.
pub open spec fn search_url_spec(kind: SourceKind, title: Seq<char>) -> Option<Seq<char>> {
    match kind {
        SourceKind::WikipediaFilm => Some(
            match spec_url_with_params(
                "https://en.wikipedia.org/w/index.php"@,
                seq![("search"@, title + " film"@), ("ns0"@, "1"@)],
            ) {
                Some(u) => u,
                None => "https://en.wikipedia.org/w/index.php?search="@ + replace_char(title, ' ', '+')
                    + "&ns0=1"@,
            },
        ),
        SourceKind::WikipediaSeries => None,
        SourceKind::WikidataSearch => Some(
            match spec_url_with_params(
                "https://www.wikidata.org/w/index.php"@,
                seq![("search"@, title), ("ns0"@, "1"@), ("ns120"@, "1"@)],
            ) {
                Some(u) => u,
                None => "https://www.wikidata.org/w/index.php?search="@ + replace_char(title, ' ', '+')
                    + "&ns0=1&ns120=1"@,
            },
        ),
    }
}

/// `s` with every space replaced by `+`.
fn plus_for_spaces(s: &str) -> (r: String)
    ensures
        r@ == replace_char(s@, ' ', '+'),
{
    let v = to_chars(s);
    let mut out: Vec<char> = Vec::new();
    let mut i: usize = 0;
    while i < v.len()
        invariant
            i <= v.len(),
            out@ == replace_char(v@, ' ', '+').take(i as int),
        decreases v.len() - i,
    {
        if v[i] == ' ' {
            out.push('+');
        } else {
            out.push(v[i]);
        }
        assert(out@ =~= replace_char(v@, ' ', '+').take(i + 1));
        i += 1;
    }
    assert(out@ =~= replace_char(v@, ' ', '+'));
    from_chars(&out)
}

impl ApprovedSource {
    /// Builds the search/fallback URL used when direct hits miss.
    pub fn search_url(&self, title: &str) -> (r: Option<String>)
        ensures
            match r {
                Some(u) => search_url_spec(self.kind, title@) == Some(u@),
                None => search_url_spec(self.kind, title@) is None,
            },
    {
        match self.kind {
            SourceKind::WikipediaFilm => {
                let mut q = String::from_str(title);
                q.append(" film");
                let params = vec![
                    (String::from_str("search"), q),
                    (String::from_str("ns0"), String::from_str("1")),
                ];
                assert(pair_views(params@) =~= seq![("search"@, title@ + " film"@), ("ns0"@, "1"@)]);
                match url_with_params("https://en.wikipedia.org/w/index.php", &params) {
                    Some(u) => Some(u),
                    None => Some(
                        framed(
                            "https://en.wikipedia.org/w/index.php?search=",
                            plus_for_spaces(title).as_str(),
                            "&ns0=1",
                        ),
                    ),
                }
            },
            SourceKind::WikipediaSeries => None,
            SourceKind::WikidataSearch => {
                let params = vec![
                    (String::from_str("search"), String::from_str(title)),
                    (String::from_str("ns0"), String::from_str("1")),
                    (String::from_str("ns120"), String::from_str("1")),
                ];
                assert(pair_views(params@) =~= seq![("search"@, title@), ("ns0"@, "1"@), ("ns120"@, "1"@)]);
                match url_with_params("https://www.wikidata.org/w/index.php", &params) {
                    Some(u) => Some(u),
                    None => Some(
                        framed(
                            "https://www.wikidata.org/w/index.php?search=",
                            plus_for_spaces(title).as_str(),
                            "&ns0=1&ns120=1",
                        ),
                    ),
                }
            },
        }
    }
}

// ---------------------------------------------------------------------------
// Outcomes and the scrape report
// ---------------------------------------------------------------------------

/// Outcome of a single URL fetch attempt.
#[derive(Debug)]
pub enum FetchOutcome {
    /// Page fetched and useful content extracted.
    Success { chars_extracted: usize },
    /// Page fetched but no usable movie content found.
    NoContent,
    /// HTTP error (non-2xx status).
    HttpError { status: u16 },
    /// Network or parse failure.
    Error { reason: String },
    /// URL was skipped (earlier source already succeeded).
    Skipped,
}

/// A record of one URL that was visited during scraping.
#[derive(Debug)]
pub struct VisitedUrl {
    pub url: String,
    pub source_name: &'static str,
    pub outcome: FetchOutcome,
}

/// Full scrape report for a single movie title.
#[derive(Debug)]
pub struct MovieScrapedContext {
    pub title: String,
    /// The extracted factual text injected into the RAG prompt.
    pub context: String,
    /// The URL that ultimately provided the context (empty if nothing found).
    pub source_url: String,
    /// Every URL that was visited while looking for this movie.
    pub visited_urls: Vec<VisitedUrl>,
}

/// Severity of a report line.
#[derive(Debug, Clone, Copy, PartialEq, Eq)]
pub enum LogLevel {
    Debug,
    Info,
    Warn,
}

/// One line of a scrape report with the level it is logged at.
#[derive(Debug)]
pub struct ReportLine {
    pub level: LogLevel,
    pub text: String,
}

/// The summary line: found or not, context size and source.
pub open spec fn summary_line(title: Seq<char>, context: Seq<char>, source_url: Seq<char>) -> Seq<char> {
    "[RAG scrape] '"@ + title + "' — "@ + (if context.len() > 0 {
        "FOUND"@
    } else {
        "NOT FOUND"@
    }) + " ("@ + decimal(byte_len(context) as nat) + " chars) | source: "@ + (if source_url.len()
        == 0 {
        "none"@
    } else {
        source_url
    })
}

/// The line announcing how many URLs were visited.
pub open spec fn visited_count_line(title: Seq<char>, n: nat) -> Seq<char> {
    "[RAG scrape] '"@ + title + "' — visited "@ + decimal(n) + " URL(s):"@
}

/// Level of the line reporting an outcome.
pub open spec fn outcome_level(o: FetchOutcome) -> LogLevel {
    match o {
        FetchOutcome::Success { .. } => LogLevel::Info,
        FetchOutcome::NoContent => LogLevel::Debug,
        FetchOutcome::HttpError { .. } => LogLevel::Warn,
        FetchOutcome::Error { .. } => LogLevel::Warn,
        FetchOutcome::Skipped => LogLevel::Debug,
    }
}

/// Text of the line reporting one visited URL.
pub open spec fn visit_line(v: VisitedUrl) -> Seq<char> {
    let tail = "  ["@ + v.source_name@ + "]  "@ + v.url@;
    match v.outcome {
        FetchOutcome::Success { chars_extracted } => "[RAG scrape]   ✓ "@ + decimal(chars_extracted as nat)
            + " chars"@ + tail,
        FetchOutcome::NoContent => "[RAG scrape]   ○ no content"@ + tail,
        FetchOutcome::HttpError { status } => "[RAG scrape]   ✗ HTTP "@ + decimal(status as nat) + tail,
        FetchOutcome::Error { reason } => "[RAG scrape]   ✗ error: "@ + reason@ + tail,
        FetchOutcome::Skipped => "[RAG scrape]   - skipped"@ + tail,
    }
}

/// Appends `"  [<source>]  <url>"`.
fn push_visit_tail(out: &mut String, v: &VisitedUrl)
    ensures
        final(out)@ == old(out)@ + ("  ["@ + v.source_name@ + "]  "@ + v.url@),
{
    out.append("  [");
    out.append(v.source_name);
    out.append("]  ");
    out.append(v.url.as_str());
    assert(out@ =~= old(out)@ + ("  ["@ + v.source_name@ + "]  "@ + v.url@));
}

/// The report line for one visited URL.
fn visit_report_line(v: &VisitedUrl) -> (r: ReportLine)
    ensures
        r.level == outcome_level(v.outcome),
        r.text@ == visit_line(*v),
{
    let mut text = String::new();
    let level = match &v.outcome {
        FetchOutcome::Success { chars_extracted } => {
            text.append("[RAG scrape]   ✓ ");
            push_decimal(&mut text, *chars_extracted as u64);
            text.append(" chars");
            LogLevel::Info
        },
        FetchOutcome::NoContent => {
            text.append("[RAG scrape]   ○ no content");
            LogLevel::Debug
        },
        FetchOutcome::HttpError { status } => {
            text.append("[RAG scrape]   ✗ HTTP ");
            push_decimal(&mut text, *status as u64);
            LogLevel::Warn
        },
        FetchOutcome::Error { reason } => {
            text.append("[RAG scrape]   ✗ error: ");
            text.append(reason.as_str());
            LogLevel::Warn
        },
        FetchOutcome::Skipped => {
            text.append("[RAG scrape]   - skipped");
            LogLevel::Debug
        },
    };
    push_visit_tail(&mut text, v);
    proof {
        match v.outcome {
            FetchOutcome::Success { .. } => {
                assert(text@ =~= visit_line(*v));
            },
            FetchOutcome::HttpError { .. } => {
                assert(text@ =~= visit_line(*v));
            },
            FetchOutcome::Error { .. } => {
                assert(text@ =~= visit_line(*v));
            },
            _ => {
                assert(text@ =~= visit_line(*v));
            },
        }
    }
    ReportLine { level, text }
}

impl MovieScrapedContext {
    /// The human-readable scrape report: a summary line and a visited-count
    /// line at INFO, then one line per visited URL at the level its outcome
    /// calls for (success INFO, errors WARN, no content and skips DEBUG).
    pub fn log_report(&self) -> (r: Vec<ReportLine>)
        ensures
            r@.len() == 2 + self.visited_urls@.len(),
            r@[0].level == LogLevel::Info,
            r@[0].text@ == summary_line(self.title@, self.context@, self.source_url@),
            r@[1].level == LogLevel::Info,
            r@[1].text@ == visited_count_line(self.title@, self.visited_urls@.len()),
            forall|i: int|
                0 <= i < self.visited_urls@.len() ==> (#[trigger] r@[i + 2]).level == outcome_level(
                    self.visited_urls@[i].outcome,
                ) && r@[i + 2].text@ == visit_line(self.visited_urls@[i]),
    {
        let mut lines: Vec<ReportLine> = Vec::new();
        let mut head = String::new();
        head.append("[RAG scrape] '");
        head.append(self.title.as_str());
        head.append("' — ");
        let ctx_chars = to_chars(self.context.as_str());
        if ctx_chars.len() > 0 {
            head.append("FOUND");
        } else {
            head.append("NOT FOUND");
        }
        head.append(" (");
        push_decimal(&mut head, self.context.as_str().len() as u64);
        head.append(" chars) | source: ");
        let src_chars = to_chars(self.source_url.as_str());
        if src_chars.len() == 0 {
            head.append("none");
        } else {
            head.append(self.source_url.as_str());
        }
        assert(head@ =~= summary_line(self.title@, self.context@, self.source_url@));
        lines.push(ReportLine { level: LogLevel::Info, text: head });
        let mut count = String::new();
        count.append("[RAG scrape] '");
        count.append(self.title.as_str());
        count.append("' — visited ");
        push_decimal(&mut count, self.visited_urls.len() as u64);
        count.append(" URL(s):");
        assert(count@ =~= visited_count_line(self.title@, self.visited_urls@.len()));
        lines.push(ReportLine { level: LogLevel::Info, text: count });
        let mut i: usize = 0;
        while i < self.visited_urls.len()
            invariant
                i <= self.visited_urls.len(),
                lines@.len() == 2 + i,
                lines@[0].level == LogLevel::Info,
                lines@[0].text@ == summary_line(self.title@, self.context@, self.source_url@),
                lines@[1].level == LogLevel::Info,
                lines@[1].text@ == visited_count_line(self.title@, self.visited_urls@.len()),
                forall|j: int|
                    0 <= j < i ==> (#[trigger] lines@[j + 2]).level == outcome_level(
                        self.visited_urls@[j].outcome,
                    ) && lines@[j + 2].text@ == visit_line(self.visited_urls@[j]),
            decreases self.visited_urls.len() - i,
        {
            let line = visit_report_line(&self.visited_urls[i]);
            lines.push(line);
            i += 1;
        }
        lines
    }
}

/// The candidate URLs other than `succeeded`, in order.
pub open spec fn urls_other_than(candidates: Seq<Seq<char>>, succeeded: Seq<char>) -> Seq<Seq<char>> {
    candidates.filter(|u: Seq<char>| u != succeeded)
}

/// `j` is the first position of `succeeded` among the candidates.
pub open spec fn is_first_match(candidates: Seq<Seq<char>>, succeeded: Seq<char>, j: int) -> bool {
    &&& 0 <= j < candidates.len()
    &&& candidates[j] == succeeded
    &&& forall|i: int| 0 <= i < j ==> candidates[i] != succeeded
}

/// The candidates that were never tried: those after the first occurrence of
/// `succeeded`, other than `succeeded` itself (none when it does not occur).
pub open spec fn untried_after(candidates: Seq<Seq<char>>, succeeded: Seq<char>) -> Seq<Seq<char>> {
    if exists|j: int| is_first_match(candidates, succeeded, j) {
        let j = choose|j: int| is_first_match(candidates, succeeded, j);
        urls_other_than(candidates.skip(j + 1), succeeded)
    } else {
        Seq::empty()
    }
}

/// `v` records `url` from `source_name` as skipped.
pub open spec fn is_skipped_visit(v: VisitedUrl, url: Seq<char>, source_name: &'static str) -> bool {
    &&& v.url@ == url
    &&& v.source_name == source_name
    &&& v.outcome is Skipped
}

/// Records the candidate URLs that were not tried, because an earlier one
/// (`succeeded`) gave text, as skipped, after the visits already recorded.
/// The candidates before `succeeded` were tried already and are left alone.
pub fn mark_remaining_skipped(
    candidates: &Vec<String>,
    succeeded: &str,
    source_name: &'static str,
    visited: &mut Vec<VisitedUrl>,
)
    ensures
        final(visited)@.len() == old(visited)@.len() + untried_after(views(candidates@), succeeded@).len(),
        final(visited)@.take(old(visited)@.len() as int) == old(visited)@,
        forall|k: int|
            0 <= k < untried_after(views(candidates@), succeeded@).len() ==> is_skipped_visit(
                #[trigger] final(visited)@[old(visited)@.len() + k],
                untried_after(views(candidates@), succeeded@)[k],
                source_name,
            ),
{
    let ghost cs = views(candidates@);
    let target = String::from_str(succeeded);
    let mut j: usize = 0;
    while j < candidates.len()
        invariant
            j <= candidates.len(),
            cs == views(candidates@),
            target@ == succeeded@,
            forall|i: int| 0 <= i < j ==> cs[i] != succeeded@,
        ensures
            j <= candidates.len(),
            forall|i: int| 0 <= i < j ==> cs[i] != succeeded@,
            j < candidates.len() ==> cs[j as int] == succeeded@,
        decreases candidates.len() - j,
    {
        if candidates[j] == target {
            break;
        }
        j += 1;
    }
    if j == candidates.len() {
        assert(!exists|x: int| is_first_match(cs, succeeded@, x)) by {
            assert forall|x: int| !is_first_match(cs, succeeded@, x) by {
                if 0 <= x < cs.len() {
                    assert(cs[x] != succeeded@);
                }
            }
        }
        assert(untried_after(cs, succeeded@) =~= Seq::<Seq<char>>::empty());
        assert(visited@.take(visited@.len() as int) =~= visited@);
        return;
    }
    assert(is_first_match(cs, succeeded@, j as int));
    assert(untried_after(cs, succeeded@) == urls_other_than(cs.skip(j + 1), succeeded@)) by {
        let c = choose|x: int| is_first_match(cs, succeeded@, x);
        assert(is_first_match(cs, succeeded@, c));
        if c < j {
            assert(cs[c] != succeeded@);
        }
        if j < c {
            assert(cs[j as int] != succeeded@);
        }
        assert(c == j);
    }
    let ghost start = visited@;
    let ghost tail = cs.skip(j + 1);
    let mut i: usize = j + 1;
    while i < candidates.len()
        invariant
            j < i <= candidates.len(),
            cs == views(candidates@),
            tail == cs.skip(j + 1),
            target@ == succeeded@,
            visited@.len() == start.len() + urls_other_than(tail.take(i - j - 1), succeeded@).len(),
            visited@.take(start.len() as int) == start,
            forall|k: int|
                0 <= k < urls_other_than(tail.take(i - j - 1), succeeded@).len() ==> is_skipped_visit(
                    #[trigger] visited@[start.len() + k],
                    urls_other_than(tail.take(i - j - 1), succeeded@)[k],
                    source_name,
                ),
        decreases candidates.len() - i,
    {
        let ghost prev = tail.take(i - j - 1);
        let ghost next = tail.take(i - j);
        assert(next =~= prev.push(candidates@[i as int]@));
        proof {
            reveal(Seq::filter);
            assert(next.drop_last() =~= prev);
        }
        let ghost before = visited@;
        if candidates[i] != target {
            visited.push(
                VisitedUrl {
                    url: candidates[i].clone(),
                    source_name,
                    outcome: FetchOutcome::Skipped,
                },
            );
            assert(visited@.take(start.len() as int) =~= before.take(start.len() as int));
        }
        i += 1;
    }
    assert(tail.take(candidates.len() - j - 1) =~= tail);
}

// ---------------------------------------------------------------------------
// Is the page about a film?
// ---------------------------------------------------------------------------

/// Phrases typical of film and TV articles.
pub open spec fn film_signals() -> Seq<Seq<char>> {
    seq![
        "directed by"@, "starring"@, "produced by"@, "screenplay by"@, "written by"@,
        "release date"@, "running time"@, "box office"@, "cinematography"@, "distributed by"@,
        "film directed"@, "television series"@, "miniseries"@, "animated series"@, "is a film"@,
        "is an american film"@, "is a british film"@, "is a comedy film"@, "is a drama film"@,
        "is an action film"@, "is a horror film"@, "is a science fiction film"@,
        "is a documentary film"@,
    ]
}

/// Whether the lowercased text contains one of the film signals.
pub open spec fn looks_like_film(context: Seq<char>) -> bool {
    exists|i: int|
        0 <= i < film_signals().len() && contains_seq(spec_lowercase(context), #[trigger] film_signals()[i])
}

/// Heuristic check: does the scraped context look like a film/TV article?
/// Filters out disambiguation pages, ship articles and the like.
pub fn context_looks_like_film(context: &str) -> (r: bool)
    ensures
        r == looks_like_film(context@),
{
    let lower = to_lowercase(context);
    let signals = vec![
        "directed by", "starring", "produced by", "screenplay by", "written by", "release date",
        "running time", "box office", "cinematography", "distributed by", "film directed",
        "television series", "miniseries", "animated series", "is a film", "is an american film",
        "is a british film", "is a comedy film", "is a drama film", "is an action film",
        "is a horror film", "is a science fiction film", "is a documentary film",
    ];
    assert(signals@.map_values(|x: &str| x@) =~= film_signals());
    let mut i: usize = 0;
    while i < signals.len()
        invariant
            i <= signals.len(),
            signals@.len() == film_signals().len(),
            forall|k: int| 0 <= k < signals@.len() ==> #[trigger] signals@[k]@ == film_signals()[k],
            lower@ == spec_lowercase(context@),
            forall|k: int| 0 <= k < i ==> !contains_seq(lower@, #[trigger] film_signals()[k]),
        decreases signals.len() - i,
    {
        if contains_str(lower.as_str(), signals[i]) {
            assert(contains_seq(lower@, film_signals()[i as int]));
            return true;
        }
        i += 1;
    }
    false
}

// ---------------------------------------------------------------------------
// Reading a page (the scraper crate)
// ---------------------------------------------------------------------------

/// The text pieces of each element a selector picks in a page, in document
/// order, as the `scraper` crate reads them.
pub uninterp spec fn spec_element_pieces(html: Seq<char>, selector: Seq<char>) -> Seq<Seq<Seq<char>>>;

/// For each element `outer` picks in a page, each element `row` picks below
/// it, as the text pieces of each element `header` picks below that row and
/// of each element `data` picks below it, as the `scraper` crate reads them.
pub uninterp spec fn spec_table_rows(
    html: Seq<char>,
    outer: Seq<char>,
    row: Seq<char>,
    header: Seq<char>,
    data: Seq<char>,
) -> Seq<Seq<(Seq<Seq<Seq<char>>>, Seq<Seq<Seq<char>>>)>>;

/// The value of attribute `attr` (if it has one) of each element a selector
/// picks in a page, as the `scraper` crate reads it.
pub uninterp spec fn spec_element_attrs(html: Seq<char>, selector: Seq<char>, attr: Seq<char>) -> Seq<Option<Seq<char>>>;

/// The plain values of the text pieces of some elements.
pub open spec fn pieces_view(p: Seq<Vec<String>>) -> Seq<Seq<Seq<char>>> {
    p.map_values(|v: Vec<String>| views(v@))
}

/// A table row read from a page: the header cells' and the data cells' text pieces.
pub type RowPieces = (Vec<Vec<String>>, Vec<Vec<String>>);

/// The plain values of the rows of each table.
pub open spec fn tables_view(t: Seq<Vec<RowPieces>>) -> Seq<Seq<(Seq<Seq<Seq<char>>>, Seq<Seq<Seq<char>>>)>> {
    t.map_values(
        |rows: Vec<RowPieces>| rows@.map_values(|row: RowPieces| (pieces_view(row.0@), pieces_view(row.1@))),
    )
}

/// The plain values of some attribute values.
pub open spec fn attrs_view(a: Seq<Option<String>>) -> Seq<Option<Seq<char>>> {
    a.map_values(
        |x: Option<String>|
            match x {
                Some(v) => Some(v@),
                None => None,
            },
    )
}

/// Parses a page with `scraper::Html::parse_document` and returns, for each
/// element `selector` picks (none when the selector does not parse), its
/// text pieces (`ElementRef::text`), named by `spec_element_pieces`.
#[verifier::external_body]
fn element_pieces(html: &str, selector: &str) -> (r: Vec<Vec<String>>)
    ensures
        pieces_view(r@) == spec_element_pieces(html@, selector@),
{
    let doc = scraper::Html::parse_document(html);
    let Ok(sel) = scraper::Selector::parse(selector) else { return Vec::new() };
    doc.select(&sel).map(|e| e.text().map(String::from).collect()).collect()
}

/// Parses a page with `scraper::Html::parse_document` and returns, for each
/// element `outer` picks, each element `row` picks below it, as the text
/// pieces of the elements `header` and `data` pick below that row (nothing
/// when a selector does not parse), named by `spec_table_rows`.
#[verifier::external_body]
fn table_rows(html: &str, outer: &str, row: &str, header: &str, data: &str) -> (r: Vec<Vec<RowPieces>>)
    ensures
        tables_view(r@) == spec_table_rows(html@, outer@, row@, header@, data@),
{
    let doc = scraper::Html::parse_document(html);
    let (Ok(o), Ok(w), Ok(h), Ok(d)) = (scraper::Selector::parse(outer), scraper::Selector::parse(row), scraper::Selector::parse(header), scraper::Selector::parse(data)) else { return Vec::new() };
    let texts = |e: scraper::ElementRef| e.text().map(String::from).collect::<Vec<String>>();
    doc.select(&o).map(|t| t.select(&w).map(|x| (x.select(&h).map(texts).collect(), x.select(&d).map(texts).collect())).collect()).collect()
}

/// Parses a page with `scraper::Html::parse_document` and returns, for each
/// element `selector` picks (none when the selector does not parse), the
/// value of its attribute `attr` if it has one, named by `spec_element_attrs`.
#[verifier::external_body]
fn element_attrs(html: &str, selector: &str, attr: &str) -> (r: Vec<Option<String>>)
    ensures
        attrs_view(r@) == spec_element_attrs(html@, selector@, attr@),
{
    let doc = scraper::Html::parse_document(html);
    let Ok(sel) = scraper::Selector::parse(selector) else { return Vec::new() };
    doc.select(&sel).map(|e| e.value().attr(attr).map(String::from)).collect()
}

/// The links of a search results page, best match first.
pub const SEARCH_RESULT_LINKS: &'static str = "div.mw-search-result-heading a, ul.mw-search-results li a";

/// The `href` of the first search-result link of a page, if that link has one.
pub open spec fn first_result_href(html: Seq<char>) -> Option<Seq<char>> {
    let links = spec_element_attrs(html, SEARCH_RESULT_LINKS@, "href"@);
    if links.len() > 0 {
        links[0]
    } else {
        None
    }
}

/// Extract the href of the first real article result from a search results page.
pub fn extract_first_search_result_url(html: &str) -> (r: Option<String>)
    ensures
        match r {
            Some(h) => first_result_href(html@) == Some(h@),
            None => first_result_href(html@) is None,
        },
{
    let links = element_attrs(html, SEARCH_RESULT_LINKS, "href");
    if links.len() == 0 {
        return None;
    }
    assert(attrs_view(links@)[0] == match links@[0] {
        Some(v) => Some(v@),
        None => None::<Seq<char>>,
    });
    match &links[0] {
        Some(h) => Some(String::from_str(h.as_str())),
        None => None,
    }
}

/// The infobox reading of a table row: the concatenated text of its first
/// header cell and the text pieces of its first data cell.
pub open spec fn row_cell(row: (Seq<Seq<Seq<char>>>, Seq<Seq<Seq<char>>>)) -> (Option<Seq<char>>, Option<Seq<Seq<char>>>) {
    (
        if row.0.len() > 0 {
            Some(join(row.0[0], ""@))
        } else {
            None
        },
        if row.1.len() > 0 {
            Some(row.1[0])
        } else {
            None
        },
    )
}

/// The infobox rows of a page: those of the first table the infobox
/// selector picks (none when it picks nothing).
pub open spec fn first_table_cells(
    tables: Seq<Seq<(Seq<Seq<Seq<char>>>, Seq<Seq<Seq<char>>>)>>,
) -> Seq<(Option<Seq<char>>, Option<Seq<Seq<char>>>)> {
    if tables.len() > 0 {
        tables[0].map_values(|row: (Seq<Seq<Seq<char>>>, Seq<Seq<Seq<char>>>)| row_cell(row))
    } else {
        Seq::empty()
    }
}

/// The concatenated text of each element.
pub open spec fn element_texts_of(pieces: Seq<Seq<Seq<char>>>) -> Seq<Seq<char>> {
    pieces.map_values(|p: Seq<Seq<char>>| join(p, ""@))
}

/// The plain values of infobox rows.
pub open spec fn cells_view(cells: Seq<(Option<String>, Option<Vec<String>>)>) -> Seq<(Option<Seq<char>>, Option<Seq<Seq<char>>>)> {
    cells.map_values(
        |c: (Option<String>, Option<Vec<String>>)|
            (
                match c.0 {
                    Some(h) => Some(h@),
                    None => None,
                },
                match c.1 {
                    Some(v) => Some(views(v@)),
                    None => None,
                },
            ),
    )
}

/// The infobox rows of the first table.
fn first_table_cells_exec(tables: &Vec<Vec<RowPieces>>) -> (r: Vec<(Option<String>, Option<Vec<String>>)>)
    ensures
        cells_view(r@) == first_table_cells(tables_view(tables@)),
{
    let mut out: Vec<(Option<String>, Option<Vec<String>>)> = Vec::new();
    if tables.len() == 0 {
        assert(cells_view(out@) =~= first_table_cells(tables_view(tables@)));
        return out;
    }
    let rows = &tables[0];
    let ghost rv = tables_view(tables@)[0];
    assert(rv == rows@.map_values(|row: RowPieces| (pieces_view(row.0@), pieces_view(row.1@))));
    let mut i: usize = 0;
    while i < rows.len()
        invariant
            i <= rows.len(),
            rv.len() == rows@.len(),
            forall|k: int| 0 <= k < rows@.len() ==> #[trigger] rv[k] == (pieces_view(rows@[k].0@), pieces_view(rows@[k].1@)),
            cells_view(out@) =~= rv.take(i as int).map_values(|row: (Seq<Seq<Seq<char>>>, Seq<Seq<Seq<char>>>)| row_cell(row)),
        decreases rows.len() - i,
    {
        let row = &rows[i];
        assert(rv[i as int] == (pieces_view(row.0@), pieces_view(row.1@)));
        let header = if row.0.len() > 0 {
            assert(pieces_view(row.0@)[0] == views(row.0@[0]@));
            Some(join_strings(&row.0[0], ""))
        } else {
            None
        };
        let value = if row.1.len() > 0 {
            assert(pieces_view(row.1@)[0] == views(row.1@[0]@));
            Some(crate::models::clone_strings(&row.1[0]))
        } else {
            None
        };
        let ghost before = cells_view(out@);
        out.push((header, value));
        assert(cells_view(out@) =~= before.push(row_cell(rv[i as int])));
        assert(rv.take(i + 1) =~= rv.take(i as int).push(rv[i as int]));
        i += 1;
    }
    assert(rv.take(rows.len() as int) =~= rv);
    out
}

/// The concatenated text of each element.
fn element_texts_exec(pieces: &Vec<Vec<String>>) -> (r: Vec<String>)
    ensures
        views(r@) == element_texts_of(pieces_view(pieces@)),
{
    let mut out: Vec<String> = Vec::new();
    let mut i: usize = 0;
    while i < pieces.len()
        invariant
            i <= pieces.len(),
            views(out@) =~= element_texts_of(pieces_view(pieces@)).take(i as int),
        decreases pieces.len() - i,
    {
        let t = join_strings(&pieces[i], "");
        let ghost before = views(out@);
        out.push(t);
        assert(views(out@) =~= before.push(t@));
        i += 1;
    }
    out
}

/// The infobox line of a row: `<header>: <value>` with the header trimmed
/// and the value's pieces joined by spaces and their whitespace collapsed,
/// when both are non-empty.
pub open spec fn infobox_line(cell: (Option<Seq<char>>, Option<Seq<Seq<char>>>)) -> Option<Seq<char>> {
    let header = match cell.0 {
        Some(h) => trim(h),
        None => Seq::empty(),
    };
    let value = match cell.1 {
        Some(pieces) => collapse_whitespace(join(pieces, " "@), " "@),
        None => Seq::empty(),
    };
    if header.len() > 0 && value.len() > 0 {
        Some(header + ": "@ + value)
    } else {
        None
    }
}

/// The infobox lines of the rows that have one, in order.
pub open spec fn infobox_lines(cells: Seq<(Option<Seq<char>>, Option<Seq<Seq<char>>>)>) -> Seq<Seq<char>>
    decreases cells.len(),
{
    if cells.len() == 0 {
        Seq::empty()
    } else {
        let rest = infobox_lines(cells.drop_last());
        match infobox_line(cells.last()) {
            Some(l) => rest.push(l),
            None => rest,
        }
    }
}

/// The body paragraphs kept: trimmed, longer than 40 bytes, the first three.
pub open spec fn kept_paragraphs(texts: Seq<Seq<char>>) -> Seq<Seq<char>>
    decreases texts.len(),
{
    if texts.len() == 0 {
        Seq::empty()
    } else {
        let rest = kept_paragraphs(texts.drop_last());
        let t = trim(texts.last());
        if rest.len() < 3 && t.len() > 0 && byte_len(t) > 40 {
            rest.push(t)
        } else {
            rest
        }
    }
}

/// The text parts of a page: the infobox (when it has lines) headed
/// `=== Infobox ===`, then the kept paragraphs.
pub open spec fn context_parts(
    cells: Seq<(Option<Seq<char>>, Option<Seq<Seq<char>>>)>,
    texts: Seq<Seq<char>>,
) -> Seq<Seq<char>> {
    let lines = infobox_lines(cells);
    let head: Seq<Seq<char>> = if lines.len() > 0 {
        seq!["=== Infobox ===\n"@ + join(lines, "\n"@)]
    } else {
        Seq::empty()
    };
    head + kept_paragraphs(texts)
}

/// The UTF-8 width of a character.
pub open spec fn char_width(c: char) -> nat {
    if (c as u32) <= 0x7F {
        1
    } else if (c as u32) <= 0x7FF {
        2
    } else if (c as u32) <= 0xFFFF {
        3
    } else {
        4
    }
}

/// The number of bytes of the UTF-8 encoding of `s`.
pub open spec fn utf8_len(s: Seq<char>) -> nat {
    vstd::utf8::encode_utf8(s).len()
}

/// `k` is where a text over `max` bytes is cut: its first `k` characters fit
/// in `max` bytes and one more would not.
pub open spec fn is_cut_point(s: Seq<char>, max: nat, k: int) -> bool {
    0 <= k < s.len() && utf8_len(s.take(k)) <= max && utf8_len(s.take(k + 1)) > max
}

/// `s` when it takes at most `max` bytes, else its longest prefix that
/// does (the cut falls on the last character boundary within `max` bytes).
pub open spec fn cut_at_bytes(s: Seq<char>, max: nat) -> Seq<char> {
    if utf8_len(s) <= max {
        s
    } else {
        s.take(choose|k: int| is_cut_point(s, max, k))
    }
}

/// The text a page yields, from the infobox rows and the paragraph texts
/// read from it: its parts joined by blank lines, cut to at most 3000 bytes.
pub open spec fn page_context(
    cells: Seq<(Option<Seq<char>>, Option<Seq<Seq<char>>>)>,
    texts: Seq<Seq<char>>,
) -> Seq<char> {
    cut_at_bytes(join(context_parts(cells, texts), "\n\n"@), MAX_CONTEXT_CHARS as nat)
}

/// The text a page yields with a source's selectors: the infobox is read
/// from the `tr` rows (first `th`, first `td`) of the first element the
/// infobox selector picks; the paragraphs are the elements the paragraph
/// selector picks.
pub open spec fn page_text(html: Seq<char>, infobox_selector: Seq<char>, paragraph_selector: Seq<char>) -> Seq<char> {
    page_context(
        first_table_cells(spec_table_rows(html, infobox_selector, "tr"@, "th"@, "td"@)),
        element_texts_of(spec_element_pieces(html, paragraph_selector)),
    )
}

/// A text over `max` bytes has exactly one cut point.
pub proof fn lemma_cut_point(s: Seq<char>, max: nat)
    requires
        utf8_len(s) > max,
    ensures
        exists|k: int| is_cut_point(s, max, k),
        forall|a: int, b: int| is_cut_point(s, max, a) && is_cut_point(s, max, b) ==> a == b,
{
    assert(vstd::utf8::encode_utf8(s.take(0)).len() == 0) by {
        assert(s.take(0) =~= Seq::<char>::empty());
    }
    assert(s.take(s.len() as int) =~= s);
    lemma_cut_point_from(s, max, 0);
    assert forall|a: int, b: int| is_cut_point(s, max, a) && is_cut_point(s, max, b) implies a == b by {
        if a < b {
            lemma_byte_len_monotone(s, a + 1, b);
        } else if b < a {
            lemma_byte_len_monotone(s, b + 1, a);
        }
    }
}

/// From a prefix that fits, a cut point lies at or after it.
proof fn lemma_cut_point_from(s: Seq<char>, max: nat, i: int)
    requires
        0 <= i <= s.len(),
        utf8_len(s.take(i)) <= max,
        utf8_len(s.take(s.len() as int)) > max,
    ensures
        exists|k: int| i <= k && is_cut_point(s, max, k),
    decreases s.len() - i,
{
    if i == s.len() {
    } else if utf8_len(s.take(i + 1)) > max {
        assert(is_cut_point(s, max, i));
    } else {
        lemma_cut_point_from(s, max, i + 1);
    }
}

/// The text a page yields never takes more than 3000 bytes, is a prefix of
/// the page's joined text parts, and is all of them when they fit.
pub proof fn lemma_context_within_limit(
    cells: Seq<(Option<Seq<char>>, Option<Seq<Seq<char>>>)>,
    texts: Seq<Seq<char>>,
)
    ensures
        utf8_len(page_context(cells, texts)) <= MAX_CONTEXT_CHARS,
        join(context_parts(cells, texts), "\n\n"@).take(page_context(cells, texts).len() as int)
            == page_context(cells, texts),
        utf8_len(join(context_parts(cells, texts), "\n\n"@)) <= MAX_CONTEXT_CHARS ==> page_context(cells, texts)
            == join(context_parts(cells, texts), "\n\n"@),
{
    let s = join(context_parts(cells, texts), "\n\n"@);
    let max = MAX_CONTEXT_CHARS as nat;
    if utf8_len(s) > max {
        lemma_cut_point(s, max);
        let k = choose|k: int| is_cut_point(s, max, k);
        assert(page_context(cells, texts) == s.take(k));
        assert(s.take(k).len() == k);
        assert(s.take(k) =~= s.take(k));
    } else {
        assert(s.take(s.len() as int) =~= s);
    }
}

/// UTF-8 encoding distributes over concatenation.
proof fn lemma_encode_append(a: Seq<char>, b: Seq<char>)
    ensures
        vstd::utf8::encode_utf8(a + b) == vstd::utf8::encode_utf8(a) + vstd::utf8::encode_utf8(b),
    decreases a.len(),
{
    if a.len() == 0 {
        assert(a + b =~= b);
        assert(vstd::utf8::encode_utf8(a) =~= Seq::<u8>::empty());
        assert(vstd::utf8::encode_utf8(a) + vstd::utf8::encode_utf8(b) =~= vstd::utf8::encode_utf8(b));
    } else {
        lemma_encode_append(a.drop_first(), b);
        assert((a + b).drop_first() =~= a.drop_first() + b);
        assert((a + b)[0] == a[0]);
    }
}

/// The byte length of one more character.
proof fn lemma_byte_len_push(s: Seq<char>, c: char)
    ensures
        vstd::utf8::encode_utf8(s.push(c)).len() == vstd::utf8::encode_utf8(s).len() + char_width(c),
{
    lemma_encode_append(s, seq![c]);
    assert(s.push(c) =~= s + seq![c]);
    assert(seq![c].drop_first() =~= Seq::<char>::empty());
    assert(vstd::utf8::encode_utf8(Seq::<char>::empty()) =~= Seq::<u8>::empty());
    let v = c as u32;
    assert(vstd::utf8::encode_utf8(seq![c]) =~= vstd::utf8::encode_scalar(v) + Seq::<u8>::empty());
    if v <= 0x7F {
    } else if v <= 0x7FF {
    } else if v <= 0xFFFF {
        assert(!(0xD800 <= v <= 0xDFFF));
    } else {
        assert(v <= 0x10FFFF);
    }
}

/// The UTF-8 width of a character.
fn char_width_exec(c: char) -> (r: usize)
    ensures
        r == char_width(c),
{
    let v = c as u32;
    if v <= 0x7F {
        1
    } else if v <= 0x7FF {
        2
    } else if v <= 0xFFFF {
        3
    } else {
        4
    }
}

/// Cuts a text to at most `max` bytes, at the last character boundary
/// that fits.
fn cut_to_bytes(s: &str, max: usize) -> (r: String)
    ensures
        r@ == cut_at_bytes(s@, max as nat),
{
    let v = to_chars(s);
    let mut bytes: usize = 0;
    let mut i: usize = 0;
    assert(v@.take(0) =~= Seq::<char>::empty());
    assert(vstd::utf8::encode_utf8(Seq::<char>::empty()) =~= Seq::<u8>::empty());
    while i < v.len()
        invariant
            i <= v.len(),
            v@ == s@,
            bytes == vstd::utf8::encode_utf8(v@.take(i as int)).len(),
            bytes <= max,
        decreases v.len() - i,
    {
        let w = char_width_exec(v[i]);
        proof {
            lemma_byte_len_push(v@.take(i as int), v@[i as int]);
            assert(v@.take(i + 1) =~= v@.take(i as int).push(v@[i as int]));
        }
        if w > max - bytes {
            // The next character does not fit: cut before it.
            proof {
                assert(is_cut_point(s@, max as nat, i as int));
                assert(utf8_len(s@) > max) by {
                    lemma_byte_len_monotone(v@, i + 1, v@.len() as int);
                    assert(v@.take(v@.len() as int) =~= v@);
                }
                lemma_cut_point(s@, max as nat);
                let k = choose|k: int| is_cut_point(s@, max as nat, k);
                assert(k == i);
            }
            let mut out = String::new();
            crate::text::push_chars(&mut out, &v, 0, i);
            assert(out@ =~= v@.take(i as int));
            return out;
        }
        bytes = bytes + w;
        i += 1;
    }
    assert(v@.take(i as int) =~= v@);
    String::from_str(s)
}

/// Longer prefixes take at least as many bytes.
proof fn lemma_byte_len_monotone(s: Seq<char>, a: int, b: int)
    requires
        0 <= a <= b <= s.len(),
    ensures
        vstd::utf8::encode_utf8(s.take(a)).len() <= vstd::utf8::encode_utf8(s.take(b)).len(),
        a < b ==> vstd::utf8::encode_utf8(s.take(a)).len() < vstd::utf8::encode_utf8(s.take(b)).len(),
    decreases b - a,
{
    if a < b {
        lemma_byte_len_monotone(s, a, b - 1);
        lemma_byte_len_push(s.take(b - 1), s[b - 1]);
        assert(s.take(b) =~= s.take(b - 1).push(s[b - 1]));
    }
}

/// Only one prefix takes a given number of bytes.
proof fn lemma_byte_len_injective(s: Seq<char>, a: int, b: int, n: nat)
    requires
        0 <= a <= s.len(),
        0 <= b <= s.len(),
        utf8_len(s.take(a)) == n,
        utf8_len(s.take(b)) == n,
    ensures
        s.take(a) == s.take(b),
{
    if a < b {
        lemma_byte_len_monotone(s, a, b);
    } else if b < a {
        lemma_byte_len_monotone(s, b, a);
    }
}

/// Extracts the text of a page with the source's selectors: infobox rows
/// (`<header>: <value>`), then the first three substantial paragraphs,
/// joined by blank lines and cut to at most 3000 bytes at a character
/// boundary.
pub fn extract_context_from_html(html: &str, source: &ApprovedSource) -> (r: String)
    ensures
        r@ == page_text(html@, source.infobox_selector@, source.paragraph_selector@),
{
    let tables = table_rows(html, source.infobox_selector, "tr", "th", "td");
    let pieces = element_pieces(html, source.paragraph_selector);
    let cells = first_table_cells_exec(&tables);
    let texts = element_texts_exec(&pieces);
    let parts = context_parts_exec(&cells, &texts);
    let combined = join_strings(&parts, "\n\n");
    cut_to_bytes(combined.as_str(), MAX_CONTEXT_CHARS)
}

/// The infobox line of a row.
fn infobox_line_exec(cell: &(Option<String>, Option<Vec<String>>)) -> (r: Option<String>)
    ensures
        match r {
            Some(l) => infobox_line(cells_view(seq![*cell])[0]) == Some(l@),
            None => infobox_line(cells_view(seq![*cell])[0]) is None,
        },
{
    let header = match &cell.0 {
        Some(h) => trim_str(h.as_str()),
        None => String::new(),
    };
    let value = match &cell.1 {
        Some(pieces) => {
            let joined = join_strings(pieces, " ");
            collapse_whitespace_chars(&to_chars(joined.as_str()), " ")
        },
        None => String::new(),
    };
    if to_chars(header.as_str()).len() > 0 && to_chars(value.as_str()).len() > 0 {
        let mut l = header;
        l.append(": ");
        l.append(value.as_str());
        Some(l)
    } else {
        None
    }
}

/// The text parts of a page.
fn context_parts_exec(cells: &Vec<(Option<String>, Option<Vec<String>>)>, texts: &Vec<String>) -> (r: Vec<String>)
    ensures
        views(r@) == context_parts(cells_view(cells@), views(texts@)),
{
    let ghost cv = cells_view(cells@);
    let mut lines: Vec<String> = Vec::new();
    let mut i: usize = 0;
    while i < cells.len()
        invariant
            i <= cells.len(),
            cv == cells_view(cells@),
            views(lines@) == infobox_lines(cv.take(i as int)),
        decreases cells.len() - i,
    {
        assert(cv.take(i + 1).drop_last() =~= cv.take(i as int));
        assert(cells_view(seq![cells@[i as int]])[0] == cv[i as int]);
        assert(cv.take(i + 1).last() == cv[i as int]);
        match infobox_line_exec(&cells[i]) {
            Some(l) => {
                let ghost before = views(lines@);
                lines.push(l);
                assert(views(lines@) =~= before.push(lines@.last()@));
            },
            None => {},
        }
        i += 1;
    }
    assert(cv.take(cells.len() as int) =~= cv);
    let mut parts: Vec<String> = Vec::new();
    if lines.len() > 0 {
        let mut head = String::from_str("=== Infobox ===\n");
        head.append(join_strings(&lines, "\n").as_str());
        parts.push(head);
    }
    let ghost head_parts = views(parts@);
    let head_len = parts.len();
    assert(views(lines@).len() == lines@.len());
    let ghost tv = views(texts@);
    let mut j: usize = 0;
    while j < texts.len()
        invariant
            j <= texts.len(),
            tv == views(texts@),
            views(parts@) == head_parts + kept_paragraphs(tv.take(j as int)),
            head_len == head_parts.len(),
            kept_paragraphs(tv.take(j as int)).len() <= 3,
        decreases texts.len() - j,
    {
        assert(tv.take(j + 1).drop_last() =~= tv.take(j as int));
        assert(tv.take(j + 1).last() == texts@[j as int]@);
        assert(views(parts@).len() == parts@.len());
        let kept_count = parts.len() - head_len;
        let t = trim_str(texts[j].as_str());
        if kept_count < 3 && to_chars(t.as_str()).len() > 0 && t.as_str().len() > 40 {
            let ghost before = views(parts@);
            parts.push(t);
            assert(views(parts@) =~= before.push(parts@.last()@));
        }
        j += 1;
    }
    assert(tv.take(texts.len() as int) =~= tv);
    parts
}

// ---------------------------------------------------------------------------
// Scraping a title: which URLs are tried, and what their answers mean
// ---------------------------------------------------------------------------

/// A URL to try for a title: a direct candidate of a source, or its search
/// page.
pub struct Attempt {
    pub url: String,
    pub source_name: &'static str,
    pub source_domain: &'static str,
    pub is_search: bool,
    /// The other direct candidates of the same source (for skip marking).
    pub siblings: Vec<String>,
}

/// What trying a URL gave.
pub enum FetchResult {
    /// Usable text, from the page at `final_url`.
    Found { context: String, final_url: String },
    /// Nothing usable, for this reason.
    Failed(FetchOutcome),
}

/// What an attempt is, as plain values: its URL, its source's name, whether
/// it is a search page, and the other direct candidates of its source.
pub open spec fn attempt_view(a: Attempt) -> (Seq<char>, Seq<char>, bool, Seq<Seq<char>>) {
    (a.url@, a.source_name@, a.is_search, views(a.siblings@))
}

/// The attempts of one source for a title: its direct candidates for the
/// slug, then its search page when it has one.
pub open spec fn source_attempts(kind: SourceKind, name: Seq<char>, slug: Seq<char>, title: Seq<char>) -> Seq<
    (Seq<char>, Seq<char>, bool, Seq<Seq<char>>),
> {
    let direct = candidate_urls_spec(kind, slug);
    direct.map_values(|u: Seq<char>| (u, name, false, direct)) + match search_url_spec(kind, title) {
        Some(u) => seq![(u, name, true, Seq::<Seq<char>>::empty())],
        None => Seq::empty(),
    }
}

/// The attempts of the first `n` sources, in order.
pub open spec fn planned_attempts(sources: Seq<ApprovedSource>, n: int, slug: Seq<char>, title: Seq<char>) -> Seq<
    (Seq<char>, Seq<char>, bool, Seq<Seq<char>>),
>
    decreases n,
{
    if n <= 0 {
        Seq::empty()
    } else {
        planned_attempts(sources, n - 1, slug, title) + source_attempts(
            sources[n - 1].kind,
            sources[n - 1].name@,
            slug,
            title,
        )
    }
}

/// The URLs tried for a title, source by source: each source's direct
/// candidates for the title's slug, then its search page when it has one.
pub fn attempt_plan(title: &str) -> (r: Vec<Attempt>)
    ensures
        ({
            let slug = crate::normalize::slug(title@);
            r@.map_values(|a: Attempt| attempt_view(a)) == source_attempts(
                SourceKind::WikipediaFilm,
                "Wikipedia (film page)"@,
                slug,
                title@,
            ) + source_attempts(SourceKind::WikipediaSeries, "Wikipedia (TV/miniseries page)"@, slug, title@)
                + source_attempts(SourceKind::WikidataSearch, "Wikidata simple (film)"@, slug, title@)
        }),
{
    let slug = crate::normalize::title_to_slug(title);
    let sources = approved_sources();
    let mut plan: Vec<Attempt> = Vec::new();
    let mut i: usize = 0;
    while i < sources.len()
        invariant
            i <= sources@.len(),
            sources@.len() == 3,
            slug@ == crate::normalize::slug(title@),
            plan@.map_values(|a: Attempt| attempt_view(a)) == planned_attempts(sources@, i as int, slug@, title@),
        decreases sources.len() - i,
    {
        let source = &sources[i];
        let candidates = source.candidate_urls(slug.as_str());
        let ghost direct = candidate_urls_spec(source.kind, slug@);
        let ghost base = plan@.map_values(|a: Attempt| attempt_view(a));
        let mut k: usize = 0;
        while k < candidates.len()
            invariant
                k <= candidates.len(),
                views(candidates@) == direct,
                direct == candidate_urls_spec(source.kind, slug@),
                plan@.map_values(|a: Attempt| attempt_view(a)) == base + direct.map_values(
                    |u: Seq<char>| (u, source.name@, false, direct),
                ).take(k as int),
            decreases candidates.len() - k,
        {
            let ghost before = plan@.map_values(|a: Attempt| attempt_view(a));
            let a = Attempt {
                url: candidates[k].clone(),
                source_name: source.name,
                source_domain: source.domain,
                is_search: false,
                siblings: crate::models::clone_strings(&candidates),
            };
            assert(attempt_view(a) == (direct[k as int], source.name@, false, direct));
            plan.push(a);
            assert(plan@.map_values(|a: Attempt| attempt_view(a)) =~= before.push(attempt_view(a)));
            assert(direct.map_values(|u: Seq<char>| (u, source.name@, false, direct)).take(k + 1) =~= direct.map_values(
                |u: Seq<char>| (u, source.name@, false, direct),
            ).take(k as int).push((direct[k as int], source.name@, false, direct)));
            k += 1;
        }
        assert(views(candidates@).len() == candidates@.len());
        assert(direct.map_values(|u: Seq<char>| (u, source.name@, false, direct)).take(candidates.len() as int)
            =~= direct.map_values(|u: Seq<char>| (u, source.name@, false, direct)));
        let ghost mid = plan@.map_values(|a: Attempt| attempt_view(a));
        match source.search_url(title) {
            Some(u) => {
                let a = Attempt {
                    url: u,
                    source_name: source.name,
                    source_domain: source.domain,
                    is_search: true,
                    siblings: Vec::new(),
                };
                assert(views(a.siblings@) =~= Seq::<Seq<char>>::empty());
                plan.push(a);
                assert(plan@.map_values(|a: Attempt| attempt_view(a)) =~= mid.push(attempt_view(a)));
            },
            None => {},
        }
        assert(plan@.map_values(|a: Attempt| attempt_view(a)) =~= planned_attempts(
            sources@,
            i + 1,
            slug@,
            title@,
        ));
        i += 1;
    }
    assert(planned_attempts(sources@, 3, slug@, title@) =~= source_attempts(
        SourceKind::WikipediaFilm,
        "Wikipedia (film page)"@,
        slug@,
        title@,
    ) + source_attempts(SourceKind::WikipediaSeries, "Wikipedia (TV/miniseries page)"@, slug@, title@)
        + source_attempts(SourceKind::WikidataSearch, "Wikidata simple (film)"@, slug@, title@)) by {
        reveal_with_fuel(planned_attempts, 4);
        assert(Seq::<(Seq<char>, Seq<char>, bool, Seq<Seq<char>>)>::empty() + source_attempts(
            SourceKind::WikipediaFilm,
            "Wikipedia (film page)"@,
            slug@,
            title@,
        ) =~= source_attempts(SourceKind::WikipediaFilm, "Wikipedia (film page)"@, slug@, title@));
    }
    plan
}

/// Whether a search landed directly on an article rather than a results
/// page.
pub fn is_article_url(final_url: &str) -> (r: bool)
    ensures
        r == (contains_seq(final_url@, "/wiki/"@) && !contains_seq(final_url@, "Special:Search"@)),
{
    contains_str(final_url, "/wiki/") && !contains_str(final_url, "Special:Search")
}

/// The URL of a search result link: absolute links as they are, others on
/// the source's domain over HTTPS.
pub fn result_url(href: &str, domain: &str) -> (r: String)
    ensures
        r@ == (if crate::text::has_prefix(href@, "http"@) {
            href@
        } else {
            "https://"@ + domain@ + href@
        }),
{
    if crate::text::starts_with_str(href, "http") {
        String::from_str(href)
    } else {
        let mut r = String::from_str("https://");
        r.append(domain);
        r.append(href);
        r
    }
}

/// Where a search results page leads: its first result link, made
/// absolute on the source's domain; `None` when the page lists no result.
pub fn search_result_target(html: &str, domain: &str) -> (r: Option<String>)
    ensures
        match first_result_href(html@) {
            Some(h) => r matches Some(u) && u@ == (if crate::text::has_prefix(h, "http"@) {
                h
            } else {
                "https://"@ + domain@ + h
            }),
            None => r is None,
        },
{
    match extract_first_search_result_url(html) {
        Some(href) => Some(result_url(href.as_str(), domain)),
        None => None,
    }
}

/// What a fetched page means: a non-success status is an HTTP error; a page
/// with no text, or whose text does not look like a film article, has no
/// content; otherwise its text is the context.
pub fn classify_page(success: bool, status: u16, final_url: String, context: String) -> (r: FetchResult)
    ensures
        !success ==> (r matches FetchResult::Failed(FetchOutcome::HttpError { status: s }) && s == status),
        success && context@.len() == 0 ==> (r matches FetchResult::Failed(o) && o is NoContent),
        success && context@.len() > 0 && !looks_like_film(context@) ==> (r matches FetchResult::Failed(o) && o is NoContent),
        success && context@.len() > 0 && looks_like_film(context@) ==> (r matches FetchResult::Found { context: c, final_url: u }
            && c == context && u == final_url),
{
    if !success {
        return FetchResult::Failed(FetchOutcome::HttpError { status });
    }
    if to_chars(context.as_str()).len() == 0 {
        return FetchResult::Failed(FetchOutcome::NoContent);
    }
    if !context_looks_like_film(context.as_str()) {
        return FetchResult::Failed(FetchOutcome::NoContent);
    }
    FetchResult::Found { context, final_url }
}

/// The visits recorded for a title so far, and the text once found.
pub struct ScrapeSession {
    pub title: String,
    pub visited: Vec<VisitedUrl>,
    pub found: Option<(String, String)>,
}

/// `v` records `url` from `source_name` with outcome `o`.
pub open spec fn is_visit(v: VisitedUrl, url: Seq<char>, source_name: &'static str, o: FetchOutcome) -> bool {
    v.url@ == url && v.source_name == source_name && v.outcome == o
}

impl ScrapeSession {
    /// Nothing tried yet.
    pub fn new(title: &str) -> (r: ScrapeSession)
        ensures
            r.title@ == title@,
            r.visited@.len() == 0,
            r.found is None,
    {
        ScrapeSession { title: String::from_str(title), visited: Vec::new(), found: None }
    }

    /// Whether text was found (no further URL is tried).
    pub fn is_done(&self) -> (r: bool)
        ensures
            r == self.found is Some,
    {
        self.found.is_some()
    }

    /// Records what trying a URL gave. Found text ends the search: the
    /// visit is a success with the text's byte length and, for a direct
    /// candidate, the source's other candidates are recorded as skipped.
    /// A failure is recorded as its outcome; a failed search page as "no
    /// content".
    pub fn record(&mut self, attempt: &Attempt, result: FetchResult)
        requires
            old(self).found is None,
        ensures
            final(self).title == old(self).title,
            final(self).visited@.take(old(self).visited@.len() as int) == old(self).visited@,
            match result {
                FetchResult::Found { context, final_url } => {
                    &&& final(self).found == Some((context, final_url))
                    &&& is_visit(
                        final(self).visited@[old(self).visited@.len() as int],
                        attempt.url@,
                        attempt.source_name,
                        FetchOutcome::Success { chars_extracted: byte_len(context@) },
                    )
                    &&& if attempt.is_search {
                        final(self).visited@.len() == old(self).visited@.len() + 1
                    } else {
                        let skipped = untried_after(views(attempt.siblings@), attempt.url@);
                        &&& final(self).visited@.len() == old(self).visited@.len() + 1 + skipped.len()
                        &&& forall|k: int|
                            0 <= k < skipped.len() ==> is_skipped_visit(
                                #[trigger] final(self).visited@[old(self).visited@.len() + 1 + k],
                                skipped[k],
                                attempt.source_name,
                            )
                    }
                },
                FetchResult::Failed(o) => {
                    &&& final(self).found is None
                    &&& final(self).visited@.len() == old(self).visited@.len() + 1
                    &&& is_visit(
                        final(self).visited@.last(),
                        attempt.url@,
                        attempt.source_name,
                        if attempt.is_search { FetchOutcome::NoContent } else { o },
                    )
                },
            },
    {
        match result {
            FetchResult::Found { context, final_url } => {
                let chars = context.as_str().len();
                let ghost start = self.visited@;
                self.visited.push(
                    VisitedUrl {
                        url: attempt.url.clone(),
                        source_name: attempt.source_name,
                        outcome: FetchOutcome::Success { chars_extracted: chars },
                    },
                );
                if !attempt.is_search {
                    let ghost mid = self.visited@;
                    mark_remaining_skipped(&attempt.siblings, attempt.url.as_str(), attempt.source_name, &mut self.visited);
                    assert(self.visited@.take(start.len() as int) =~= start) by {
                        assert(self.visited@.take(mid.len() as int) == mid);
                        assert forall|k: int| 0 <= k < start.len() implies self.visited@[k] == start[k] by {
                            assert(self.visited@.take(mid.len() as int)[k] == mid[k]);
                        }
                    }
                    assert(self.visited@[start.len() as int] == mid[start.len() as int]) by {
                        assert(self.visited@.take(mid.len() as int)[start.len() as int] == mid[start.len() as int]);
                    }
                } else {
                    assert(self.visited@.take(start.len() as int) =~= start);
                }
                self.found = Some((context, final_url));
            },
            FetchResult::Failed(o) => {
                let outcome = if attempt.is_search {
                    FetchOutcome::NoContent
                } else {
                    o
                };
                let ghost start = self.visited@;
                self.visited.push(VisitedUrl { url: attempt.url.clone(), source_name: attempt.source_name, outcome });
                assert(self.visited@.take(start.len() as int) =~= start);
            },
        }
    }

    /// The report for the title: the text and the page it came from (both
    /// empty when nothing was found), and every visit.
    pub fn finish(self) -> (r: MovieScrapedContext)
        ensures
            r.title == self.title,
            r.visited_urls@ == self.visited@,
            match self.found {
                Some((c, u)) => r.context == c && r.source_url == u,
                None => r.context@.len() == 0 && r.source_url@.len() == 0,
            },
    {
        let (context, source_url) = match self.found {
            Some((c, u)) => (c, u),
            None => (String::new(), String::new()),
        };
        MovieScrapedContext { title: self.title, context, source_url, visited_urls: self.visited }
    }
}

} // verus!
