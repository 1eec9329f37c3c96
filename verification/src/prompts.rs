//! What the library asks the language model and how it reads the replies:
//! query enhancement, spelling correction of titles, and movie generation.

use vstd::prelude::*;
use crate::text::{
    decimal, find_char, first_index, has_prefix, has_suffix, join, join_strings, push_decimal,
    split_whitespace, starts_with_at, ends_with_at, substring, to_chars, trim, trim_bounds, views,
    words,
};
use crate::web_context::MovieScrapedContext;
use crate::text::{replace_all, replace_str};

verus! {

// ---------------------------------------------------------------------------
// Query enhancement
// ---------------------------------------------------------------------------

/// Queries of this many words or more are descriptive enough already.
pub const DESCRIPTIVE_WORDS: usize = 3;

/// Whether a query is short enough to be expanded before embedding.
pub fn needs_enhancement(query: &str) -> (r: bool)
    ensures
        r == (words(query@).len() < DESCRIPTIVE_WORDS),
{
    split_whitespace(query).len() < DESCRIPTIVE_WORDS
}

/// The user message asking the model to expand a query.
pub fn enhancement_user_message(query: &str) -> (r: String)
    ensures
        r@ == "User: \""@ + query@ + "\"\nYou:"@,
{
    let mut r = String::from_str("User: \"");
    r.append(query);
    r.append("\"\nYou:");
    r
}

/// The text before the first line break (all of it when there is none).
pub open spec fn first_line(s: Seq<char>) -> Seq<char> {
    match first_index(s, '\n') {
        Some(k) => s.take(k),
        None => s,
    }
}

/// The explanation prefixes removed from an expanded query, in the order
/// they are tried.
pub open spec fn explanation_prefixes() -> Seq<Seq<char>> {
    seq!["Note:"@, "Explanation:"@, "Justification:"@, "Reasoning:"@, "Because:"@, "This is"@]
}

/// `s` without `prefix` (then trimmed) when it starts with it.
pub open spec fn drop_prefix_trim(s: Seq<char>, prefix: Seq<char>) -> Seq<char> {
    if has_prefix(s, prefix) {
        trim(s.skip(prefix.len() as int))
    } else {
        s
    }
}

/// `s` after trying each of the first `n` prefixes in turn.
pub open spec fn drop_prefixes(s: Seq<char>, prefixes: Seq<Seq<char>>, n: int) -> Seq<char>
    decreases n,
{
    if n <= 0 {
        s
    } else {
        drop_prefix_trim(drop_prefixes(s, prefixes, n - 1), prefixes[n - 1])
    }
}

/// The model's expansion cleaned up: trimmed, cut to its first line,
/// cut before an opening parenthesis, and stripped of explanation
/// prefixes, trimming after each step.
pub open spec fn cleaned_enhancement(raw: Seq<char>) -> Seq<char> {
    let t = trim(raw);
    let one_line = if t.len() == 0 {
        t
    } else {
        trim(first_line(t))
    };
    let no_paren = match first_index(one_line, '(') {
        Some(p) => trim(one_line.take(p)),
        None => one_line,
    };
    drop_prefixes(no_paren, explanation_prefixes(), explanation_prefixes().len() as int)
}

/// `v` trimmed.
fn trim_chars(v: &Vec<char>) -> (r: Vec<char>)
    ensures
        r@ == trim(v@),
{
    let (a, b) = trim_bounds(v, 0, v.len());
    assert(v@.subrange(0, v.len() as int) =~= v@);
    to_chars(substring(v, a, b).as_str())
}

/// The prefixes as strings.
fn prefix_list() -> (r: Vec<&'static str>)
    ensures
        r@.len() == explanation_prefixes().len(),
        forall|k: int| 0 <= k < r@.len() ==> #[trigger] r@[k]@ == explanation_prefixes()[k],
{
    let r = vec!["Note:", "Explanation:", "Justification:", "Reasoning:", "Because:", "This is"];
    assert(r@.map_values(|s: &'static str| s@) =~= explanation_prefixes());
    assert forall|k: int| 0 <= k < r@.len() implies #[trigger] r@[k]@ == explanation_prefixes()[k] by {
        assert(r@.map_values(|s: &'static str| s@)[k] == r@[k]@);
    }
    r
}

/// Cleans up the model's expansion of a query.
pub fn clean_enhanced_query(raw: &str) -> (r: String)
    ensures
        r@ == cleaned_enhancement(raw@),
{
    let t = trim_chars(&to_chars(raw));
    let one_line = if t.len() == 0 {
        t
    } else {
        match find_char(&t, 0, t.len(), '\n') {
            Some(k) => {
                assert(t@.subrange(0, t.len() as int) =~= t@);
                let head = to_chars(substring(&t, 0, k).as_str());
                assert(head@ =~= t@.take(k as int));
                trim_chars(&head)
            },
            None => {
                assert(t@.subrange(0, t.len() as int) =~= t@);
                trim_chars(&t)
            },
        }
    };
    assert(one_line@.subrange(0, one_line.len() as int) =~= one_line@);
    let mut cur = match find_char(&one_line, 0, one_line.len(), '(') {
        Some(p) => {
            let head = to_chars(substring(&one_line, 0, p).as_str());
            assert(head@ =~= one_line@.take(p as int));
            trim_chars(&head)
        },
        None => one_line,
    };
    let prefixes = prefix_list();
    let ghost start = cur@;
    let mut i: usize = 0;
    while i < prefixes.len()
        invariant
            i <= prefixes.len(),
            prefixes@.len() == explanation_prefixes().len(),
            forall|k: int| 0 <= k < prefixes@.len() ==> #[trigger] prefixes@[k]@ == explanation_prefixes()[k],
            cur@ == drop_prefixes(start, explanation_prefixes(), i as int),
        decreases prefixes.len() - i,
    {
        assert(prefixes@[i as int]@ == explanation_prefixes()[i as int]);
        assert(cur@.subrange(0, cur.len() as int) =~= cur@);
        if starts_with_at(&cur, 0, cur.len(), prefixes[i]) {
            let plen = to_chars(prefixes[i]).len();
            let rest = to_chars(substring(&cur, plen, cur.len()).as_str());
            assert(rest@ =~= cur@.skip(plen as int));
            cur = trim_chars(&rest);
        }
        i += 1;
    }
    let mut out = String::new();
    crate::text::push_chars(&mut out, &cur, 0, cur.len());
    assert(cur@.subrange(0, cur.len() as int) =~= cur@);
    assert(out@ =~= cur@);
    out
}

// ---------------------------------------------------------------------------
// Spelling correction of titles
// ---------------------------------------------------------------------------

/// `"<k>. <title>"` lines, numbered from one.
pub open spec fn numbered_lines(titles: Seq<Seq<char>>) -> Seq<Seq<char>> {
    Seq::new(titles.len(), |i: int| decimal((i + 1) as nat) + ". "@ + titles[i])
}

/// The instructions before the titles.
pub const CORRECTION_PROMPT_HEAD: &'static str = "You are a movie title normalizer. For each input, return the exact canonical title of the well-known movie or TV show it refers to.\n\
Rules:\n\
- Fix spelling errors\n\
- Restore missing words (articles like \"The\", \"A\", trailing words)\n\
- Fix capitalization\n\
- Return the full official release title as it appears in movie databases\n\
- If the input does not resemble any known title, return it UNCHANGED\n\
- Do NOT add, remove, or reorder entries\n\
- Respond with ONLY a JSON array of strings, one per input, in the same order\n\n\
Examples:\n\
Input:  [\"Gaurdians of the Galaxy\", \"Matrix Reloaded\", \"Dark Kight\", \"Shawsank Redemption\", \"Termiantor 2\", \"Happy Glmore\", \"Naked GUn\", \"Matrix Revolution\", \"Figt Club\", \"Shindlers List\"]\n\
Output: [\"Guardians of the Galaxy\", \"The Matrix Reloaded\", \"The Dark Knight\", \"The Shawshank Redemption\", \"Terminator 2: Judgment Day\", \"Happy Gilmore\", \"The Naked Gun\", \"The Matrix Revolutions\", \"Fight Club\", \"Schindler's List\"]\n\n\
Input titles:\n";

/// The request after the titles.
pub const CORRECTION_PROMPT_TAIL: &'static str = "\n\nJSON array only, no explanation:";

/// The spelling-correction prompt for a batch of titles.
pub fn title_correction_prompt(titles: &Vec<String>) -> (r: String)
    ensures
        r@ == CORRECTION_PROMPT_HEAD@ + join(numbered_lines(views(titles@)), "\n"@) + CORRECTION_PROMPT_TAIL@,
{
    let mut lines: Vec<String> = Vec::new();
    let mut i: usize = 0;
    while i < titles.len()
        invariant
            i <= titles.len(),
            views(lines@) == numbered_lines(views(titles@)).take(i as int),
        decreases titles.len() - i,
    {
        let mut line = String::new();
        push_decimal(&mut line, (i + 1) as u64);
        line.append(". ");
        line.append(titles[i].as_str());
        let ghost before = views(lines@);
        lines.push(line);
        assert(views(lines@) =~= before.push(numbered_lines(views(titles@))[i as int]));
        assert(numbered_lines(views(titles@)).take(i + 1) =~= numbered_lines(views(titles@)).take(i as int).push(
            numbered_lines(views(titles@))[i as int],
        ));
        i += 1;
    }
    assert(numbered_lines(views(titles@)).take(titles.len() as int) =~= numbered_lines(views(titles@)));
    let mut r = String::from_str(CORRECTION_PROMPT_HEAD);
    r.append(join_strings(&lines, "\n").as_str());
    r.append(CORRECTION_PROMPT_TAIL);
    r
}

/// `s` with every leading copy of `p` removed (`str::trim_start_matches`).
pub open spec fn strip_leading(s: Seq<char>, p: Seq<char>) -> Seq<char>
    decreases s.len(),
{
    if p.len() > 0 && has_prefix(s, p) {
        strip_leading(s.skip(p.len() as int), p)
    } else {
        s
    }
}

/// `s` with every trailing copy of `p` removed (`str::trim_end_matches`).
pub open spec fn strip_trailing(s: Seq<char>, p: Seq<char>) -> Seq<char>
    decreases s.len(),
{
    if p.len() > 0 && has_suffix(s, p) {
        strip_trailing(s.take(s.len() - p.len()), p)
    } else {
        s
    }
}

/// The JSON of a correction reply: trimmed, with leading "```json" and
/// "```" runs and trailing "```" runs removed, trimmed again.
pub open spec fn correction_json(content: Seq<char>) -> Seq<char> {
    trim(strip_trailing(strip_leading(strip_leading(trim(content), "```json"@), "```"@), "```"@))
}

/// `v[lo..hi]` without leading copies of `p`; returns the new start.
fn strip_leading_at(v: &Vec<char>, lo: usize, hi: usize, p: &str) -> (r: usize)
    requires
        lo <= hi <= v.len(),
        p@.len() > 0,
    ensures
        lo <= r <= hi,
        v@.subrange(r as int, hi as int) == strip_leading(v@.subrange(lo as int, hi as int), p@),
{
    let plen = to_chars(p).len();
    let mut a = lo;
    while starts_with_at(v, a, hi, p)
        invariant
            lo <= a <= hi <= v.len(),
            plen == p@.len(),
            plen > 0,
            strip_leading(v@.subrange(lo as int, hi as int), p@) == strip_leading(
                v@.subrange(a as int, hi as int),
                p@,
            ),
        decreases hi - a,
    {
        assert(v@.subrange(a as int, hi as int).skip(plen as int) =~= v@.subrange(a + plen, hi as int));
        a = a + plen;
    }
    a
}

/// `v[lo..hi]` without trailing copies of `p`; returns the new end.
fn strip_trailing_at(v: &Vec<char>, lo: usize, hi: usize, p: &str) -> (r: usize)
    requires
        lo <= hi <= v.len(),
        p@.len() > 0,
    ensures
        lo <= r <= hi,
        v@.subrange(lo as int, r as int) == strip_trailing(v@.subrange(lo as int, hi as int), p@),
{
    let plen = to_chars(p).len();
    let mut b = hi;
    while ends_with_at(v, lo, b, p)
        invariant
            lo <= b <= hi <= v.len(),
            plen == p@.len(),
            plen > 0,
            strip_trailing(v@.subrange(lo as int, hi as int), p@) == strip_trailing(
                v@.subrange(lo as int, b as int),
                p@,
            ),
        decreases b - lo,
    {
        assert(v@.subrange(lo as int, b as int).take(b - lo - plen) =~= v@.subrange(lo as int, b - plen));
        b = b - plen;
    }
    b
}

/// The JSON part of a correction reply.
pub fn correction_json_exec(content: &str) -> (r: String)
    ensures
        r@ == correction_json(content@),
{
    proof {
        reveal_strlit("```json");
        reveal_strlit("```");
    }
    let v = to_chars(content);
    let (a0, b0) = trim_bounds(&v, 0, v.len());
    assert(v@.subrange(0, v.len() as int) =~= content@);
    let a1 = strip_leading_at(&v, a0, b0, "```json");
    let a2 = strip_leading_at(&v, a1, b0, "```");
    let b1 = strip_trailing_at(&v, a2, b0, "```");
    let (a3, b3) = trim_bounds(&v, a2, b1);
    substring(&v, a3, b3)
}

/// What `serde_json` makes of a text as a JSON array of strings: the
/// strings, or the text of the error when the text is not one.
pub uninterp spec fn spec_json_string_array(text: Seq<char>) -> Result<Seq<Seq<char>>, Seq<char>>;

/// Calls `serde_json::from_str::<Vec<String>>`; the strings, or the error's
/// text (its `Display`), are named by `spec_json_string_array`.
#[verifier::external_body]
pub(crate) fn parse_json_string_array(text: &str) -> (r: Result<Vec<String>, String>)
    ensures
        match r {
            Ok(v) => spec_json_string_array(text@) == Ok::<Seq<Seq<char>>, Seq<char>>(views(v@)),
            Err(e) => spec_json_string_array(text@) == Err::<Seq<Seq<char>>, Seq<char>>(e@),
        },
{
    serde_json::from_str::<Vec<String>>(text).map_err(|e| e.to_string())
}

/// Reads a correction reply for `expected` titles: its JSON array, which
/// must hold one title per input. Errors say what went wrong and show the
/// JSON that was read.
pub fn parse_title_corrections(expected: usize, content: &str) -> (r: Result<Vec<String>, String>)
    ensures
        match spec_json_string_array(correction_json(content@)) {
            Err(reason) => r matches Err(e) && e@ == "Failed to parse title corrections: "@ + reason + ". Content: "@
                + correction_json(content@),
            Ok(v) => if v.len() == expected {
                r matches Ok(c) && views(c@) == v
            } else {
                r matches Err(e) && e@ == "Response count mismatch: expected "@ + decimal(expected as nat)
                    + " titles, got "@ + decimal(v.len())
            },
        },
{
    let json = correction_json_exec(content);
    match parse_json_string_array(json.as_str()) {
        Ok(v) => {
            if v.len() == expected {
                Ok(v)
            } else {
                let mut e = String::from_str("Response count mismatch: expected ");
                push_decimal(&mut e, expected as u64);
                e.append(" titles, got ");
                push_decimal(&mut e, v.len() as u64);
                assert(views(v@).len() == v@.len());
                Err(e)
            }
        },
        Err(reason) => {
            let mut e = String::from_str("Failed to parse title corrections: ");
            e.append(reason.as_str());
            e.append(". Content: ");
            e.append(json.as_str());
            Err(e)
        },
    }
}

// ---------------------------------------------------------------------------
// Generating a movie card
// ---------------------------------------------------------------------------

/// The user message asking for one movie's data.
pub fn movie_request_message(title: &str) -> (r: String)
    ensures
        r@ == "Generate movie data for: "@ + title@,
{
    let mut r = String::from_str("Generate movie data for: ");
    r.append(title);
    r
}

/// The user message asking to parse a search query.
pub fn query_parse_message(query: &str) -> (r: String)
    ensures
        r@ == "User: \""@ + query@ + "\"\nResponse:"@,
{
    let mut r = String::from_str("User: \"");
    r.append(query);
    r.append("\"\nResponse:");
    r
}

/// The context used when scraping found nothing.
pub const NO_WEB_CONTEXT: &'static str = "No web context found. Use your best knowledge.";

/// The scraped context to generate from: the first title's context when
/// it is not empty, else a note to rely on the model's knowledge.
pub fn context_or_fallback(scraped: Vec<MovieScrapedContext>) -> (r: String)
    ensures
        r@ == (if scraped@.len() > 0 && scraped@[0].context@.len() > 0 {
            scraped@[0].context@
        } else {
            NO_WEB_CONTEXT@
        }),
{
    if scraped.len() > 0 && to_chars(scraped[0].context.as_str()).len() > 0 {
        scraped[0].context.clone()
    } else {
        String::from_str(NO_WEB_CONTEXT)
    }
}

/// The system prompt text before the scraped reference data.
pub const CONTEXT_PROMPT_HEAD: &'static str = r#"You are a movie database assistant. Generate complete movie information for the title provided.

IMPORTANT: Use the Wikipedia reference data below for accuracy.

=== WIKIPEDIA REFERENCE DATA ===
"#;

/// The system prompt text after the scraped reference data.
pub const CONTEXT_PROMPT_TAIL: &'static str = r#"
=== END REFERENCE DATA ===

Provide:
- title: The exact movie title
- year: Release year as integer (0 if unknown)
- description: A comprehensive plot description (4-5 sentences) using the reference data. Focus on the story, themes, and key plot points. DO NOT mention actors or cast members in the description - we have a separate field for that.
- actors: Top 6 billed actors from the reference data
- genres: Array of genres in order of relevance
- director: Director name (empty string if unknown)

CRITICAL: Respond with a single valid JSON object matching the exact schema."#;

/// The system prompt for generating a movie from scraped reference data.
pub fn movie_prompt_with_context(context: &str) -> (r: String)
    ensures
        r@ == CONTEXT_PROMPT_HEAD@ + context@ + CONTEXT_PROMPT_TAIL@,
{
    let mut r = String::from_str(CONTEXT_PROMPT_HEAD);
    r.append(context);
    r.append(CONTEXT_PROMPT_TAIL);
    r
}

// ---------------------------------------------------------------------------
// Library prompts
// ---------------------------------------------------------------------------

/// The system message asking for the filter criteria of a question.
pub const DATA_POINTS_PROMPT: &'static str = r#"
Analyze the user's movie-related question and extract filter criteria matching this database schema:

**Target Filters to Identify:**
- `actors`: Names of performers/voices mentioned
- `directors`: Names of filmmakers referenced
- `genres`: Movie categories specified (15 character max)
- `plot_keywords` - Descriptive terms in plots

**Response Requirements:**
1. Output JSON with *only* specified filter types present in query
2. Use exact noun phrases from the question
3. Support multi-criteria searches through array values
4. Do not add any additional context to the users question. If the user did not specify a movie name, don't include it in the JSON. If the user did not include any genres, do not include it in the JSON.
5. IMPORTANT!: Use only json in your response. Do not include any words outside of the requested JSON. The response is only to include the JSON response. Do not provide any markdown or rich text. Just {*}
7. Make sure that you ONLY included in the JSON response what the USER asked for. Make sure you did not add any actors, directors, and/or any movies the user did not ask for.

**Examples:**
Q: "Comedy movies by Christopher Nolan"
A: {"genres": ["Comedy"], "directors": ["Christopher Nolan"]}

Q: "Sci-fi films with Tom Cruise"
A: {"genres": ["Sci-fi"], "actors": ["Tom Cruise"]}

Q: "Dramas about war with Meryl Streep"
A: {"genres": ["Drama"], "actors": ["Meryl Streep"], "plot_keywords": ["war"]}

Q: "Suggest an action movie that is also a drama"
A: {"genres": ["Action", "Drama"]}

Q: "Suggest a romance movie"
A: {"genres": ["Romance"]}

**Important!**
- You are not to answer the users question. You are to only analyze the question and find the relevant data points. Another AI will answer the question. You are helping them to answer the question.
"#;

/// The system message asking for the ids of the library's movies that match
/// a request; `{USER_MOVIE_LIBRARY}` stands for the library as JSON.
pub const MOVIE_ID_MATCHER_PROMPT: &'static str = r#"
=== Movie ID Matcher System ===
You are a specialized matching system that returns only movie IDs based on user queries.

Primary Function: Match user queries to movies in the library and return ONLY a comma-separated list of movie IDs.

***IMPORTANT***
- NEVER use any data in examples to answer any user questions. They are simply guidelines.
- Always use === DVD Library === below for movie recommendations, do not use or recommend movies outside of this library for recommendations. This is crucial!
- Try to interpret the users meaning and map common genre synonyms to actual database genres.
- Genre synonym mapping examples:
  * "chick flicks" or "chic fliks" → search for "romance" genre
  * "scary movies" → search for "horror" genre
  * "action flicks" → search for "action" genre
  * "funny movies" or "comedies" → search for "comedy" genre
  * "kids movies" → search for "family" or "children" genre
  * "thrillers" → search for "thriller" genre
- If the user says "and", or "or" in their query try to use that to match. e.g. if the user says find me a scary movie staring Jack Nicholson, the movie should be horror AND have Jack Nicholson in it.

** CRITICAL: Your response must ONLY contain movie IDs separated by commas. No other text, explanations, or descriptions. **

=== DVD Library ===
{USER_MOVIE_LIBRARY}

=== Response Format ===
ONLY return movie IDs in this exact format: 12,34,78,99,272,891,1100

Examples of CORRECT responses:
- Single match: 42
- Multiple matches: 15,67,123,456
- No matches: (return empty response)

Examples of INCORRECT responses:
- "Here are the movie IDs: 12,34,78"
- "Comedy movies: 12,34,78"
- "12, 34, 78" (spaces not allowed)
- Any text before or after the numbers

=== Core Directives ===
1. [MATCHING RULES - STRICT ENFORCEMENT REQUIRED]
- Match user queries against movie titles, genres, actors, directors, years
- Return IDs ONLY of movies that match ALL specified criteria exactly
- Limit results to 20 most relevant matches maximum
- **ZERO TOLERANCE POLICY**: If a movie doesn't meet ALL criteria, exclude it completely
- **ACTOR VERIFICATION CRITICAL**: When matching by actor/actress, ONLY return movies where that person is explicitly listed in the cast/actors field of that specific movie entry. Do NOT assume or infer actor participation based on external knowledge. NO EXCEPTIONS.
- **DIRECTOR VERIFICATION CRITICAL**: When matching by director, ONLY return movies where that person is explicitly listed in the director field of that specific movie entry. Do NOT assume or infer director involvement based on external knowledge. NO EXCEPTIONS.
- **GENRE VERIFICATION CRITICAL**: When matching by genre, ONLY return movies where that genre (or its mapped equivalent from user synonyms) is explicitly listed in the genre field of that specific movie entry. Use the genre synonym mapping above to translate user terms to database genres, but still verify the mapped genre exists in the movie's data. NO EXCEPTIONS.
- **STRICT DATA ADHERENCE**: Only use the exact data provided in each movie entry. If an actor is not listed in a movie's cast, director is not listed in the director field, or genre is not listed in the genre field, that movie must NOT be included in results.
- **MULTI-CRITERIA QUERIES**: When user specifies multiple criteria (e.g., "horror movies with Tom Hanks"), the movie must satisfy EVERY single criterion. If it fails any one criterion, exclude it entirely.

2. [OUTPUT CONSTRAINTS]
- NEVER include explanatory text
- NEVER include movie titles or descriptions
- NEVER include spaces after commas
- NEVER include any formatting or punctuation except commas
- Return empty response if no matches found
- Final item in the list should never have a comma eg: 12,34,78, this is incorrect because 78 is the final entry and should not have a comma.

3. [FORBIDDEN ACTIONS]
- Do not explain your reasoning
- Do not ask questions
- Do not provide movie details
- Do not use movies outside the provided library
- Do not use external knowledge about actors/directors/genres/movies - only use the provided library data
- Do not assume actor participation if not explicitly listed in the movie's data
- Do not assume director involvement if not explicitly listed in the movie's data
- Do not assume genre classification if not explicitly listed in the movie's data

=== Processing Workflow ===
1. Analyze user query for keywords (genre, actor, director, year, etc.)
2. For actor queries: Verify the actor is explicitly listed in each movie's cast/actors field
3. For director queries: Verify the director is explicitly listed in each movie's director field
4. For genre queries: First map user genre synonyms to database genres using the synonym mapping above, then verify the mapped genre is explicitly listed in each movie's genre field
5. Match against library entries using ONLY the provided data
6. Extract movie IDs of movies that meet ALL criteria
7. Return ONLY the comma-separated ID list

**ACTOR MATCHING EXAMPLE**:
Query: "comedies with Adam Sandler"
Process: Find movies where genre contains "comedy" AND actors field explicitly contains "Adam Sandler"
Do NOT include movies just because you think Adam Sandler might be in them.

=== FINAL VERIFICATION CHECKLIST ===
Before returning any movie ID, verify:
✓ Does this movie meet EVERY criterion specified in the user query?
✓ Is each actor/director/genre explicitly listed in this movie's data?
✓ Am I using ONLY the provided library data, not external knowledge?
✓ If the query has multiple criteria, does this movie satisfy ALL of them?

If ANY answer is "no", DO NOT include that movie ID.

**CRITICAL REMINDER**: Better to return fewer accurate results than many inaccurate ones. When in doubt, exclude the movie.

Remember: Your ONLY output should be movie IDs separated by commas. Nothing else.
"#;

/// The system message for questions about the user's own library;
/// `{USER_MOVIE_LIBRARY}` stands for the library as JSON.
pub const USER_LIBRARY_PROMPT: &'static str = r#"
=== Movie Library Expert System ===
Primary Function: Specialized assistant for analyzing and recommending from user-owned media

=== Active Dataset ===
{USER_MOVIE_LIBRARY}

=== Core Directives ===
1. [TRUTH ENFORCEMENT]
- Treat library data as absolute authority
- Response template for missing titles: "Title not found in library"

2. [OPERATIONAL BOUNDARIES]
+ Permitted Actions:
  * Collection analytics (counts/genres/years)
  * Cross-library recommendations
  * Ownership verification

- Forbidden Actions:
  * External title suggestions
  * Hypothetical statements
  * Creative extrapolation

=== Processing Workflow ===
1. Input Analysis
   Example: "Recommend war movies"

2. Library Scan Sequence:
   - Filter genre=War
   - Cross-reference director filmography

3. Valid Output:
   "Your collection contains:
   1. Saving Private Ryan (Spielberg)
   2. 1917 (Mendes)
   3. Dunkirk (Nolan)"

=== Compliance Architecture ===
* Validation: Real-time dataset checksum
* Security: Blocked external data access
* Legal: Pre-delivery audit screening

=== Example Interactions ===
[User] "Do I own any Star Wars movies?"
[System] "Library contains:
- Star Wars: Episode IV (1977)
- Rogue One: Star Wars Story (2016)"

[User] "Suggest something like The Dark Knight"
[System] "Movies like The Dark Knight:
1. Inception (Nolan)
2. Heat (Crime thriller)
3. The Prestige (Bale)"

***IMPORTANT ***
NEVER USE EXAMPLES as data for questions. It is only intended to illustrate question and response styles.
"#;

/// The user message sent with `DATA_POINTS_PROMPT`.
pub fn related_keys_question(question: &str) -> (r: String)
    ensures
        r@ == "User question: "@ + question@,
{
    let mut r = String::from_str("User question: ");
    r.append(question);
    r
}

/// `USER_LIBRARY_PROMPT` with the library (as JSON) in place of
/// `{USER_MOVIE_LIBRARY}`.
pub fn user_library_prompt(library_json: &str) -> (r: String)
    ensures
        r@ == replace_all(USER_LIBRARY_PROMPT@, "{USER_MOVIE_LIBRARY}"@, library_json@),
{
    proof {
        reveal_strlit("{USER_MOVIE_LIBRARY}");
    }
    replace_str(USER_LIBRARY_PROMPT, "{USER_MOVIE_LIBRARY}", library_json)
}

} // verus!
