//! Retrieval-augmented answers: refining the query the model extracted,
//! choosing whether to search, and writing the retrieved movies into the
//! prompt as CSV.

use vstd::prelude::*;
use crate::models::{FullMovie, StructuredQuery, actor_names, director_name};
use crate::text::{int_decimal, join, join_strings, push_int, replace_all, replace_str, views};

verus! {

/// Result of the query extraction step.
pub struct ExtractedQuery {
    pub structured_query: StructuredQuery,
    pub is_movie_query: bool,
}

/// Whether the query names any actor, director, title or description
/// keyword.
pub open spec fn has_non_genre_criteria(q: StructuredQuery) -> bool {
    q.actors@.len() > 0 || q.directors@.len() > 0 || q.title_keywords@.len() > 0
        || q.description_keywords@.len() > 0
}

/// `r` holds the criteria of `q`, with the genres dropped when other
/// criteria exist (genres are too restrictive in combination).
pub open spec fn refined_criteria(q: StructuredQuery, r: StructuredQuery) -> bool {
    &&& r.actors@ == q.actors@
    &&& r.directors@ == q.directors@
    &&& r.title_keywords@ == q.title_keywords@
    &&& r.description_keywords@ == q.description_keywords@
    &&& r.genres@ == (if has_non_genre_criteria(q) {
        Seq::empty()
    } else {
        q.genres@
    })
}

/// Whether the query has any search criterion at all.
pub open spec fn has_any_criteria(q: StructuredQuery) -> bool {
    has_non_genre_criteria(q) || q.genres@.len() > 0
}

impl ExtractedQuery {
    /// Refines the query the model extracted: it is a movie query when it
    /// has any criterion, and its genres are dropped when other criteria
    /// exist (genres are too restrictive in combination).
    pub fn from_structured(q: StructuredQuery) -> (r: ExtractedQuery)
        ensures
            r.is_movie_query == has_any_criteria(q),
            refined_criteria(q, r.structured_query),
    {
        let mut q = q;
        let has_other = q.actors.len() > 0 || q.directors.len() > 0 || q.title_keywords.len() > 0
            || q.description_keywords.len() > 0;
        let is_movie_query = has_other || q.genres.len() > 0;
        if has_other {
            if q.genres.len() > 0 {
                q.genres.clear();
            }
            assert(q.genres@ =~= Seq::<String>::empty());
        }
        ExtractedQuery { structured_query: q, is_movie_query }
    }
}

/// The extraction step's result from what the query parser gave: none when
/// parsing failed or the message is not about movies (no criterion at all),
/// else the refined movie query.
pub fn extracted_query(parsed: Result<StructuredQuery, String>) -> (r: Option<ExtractedQuery>)
    ensures
        match parsed {
            Ok(q) => if has_any_criteria(q) {
                r matches Some(e) && e.is_movie_query && refined_criteria(q, e.structured_query)
            } else {
                r is None
            },
            Err(_) => r is None,
        },
{
    match parsed {
        Ok(q) => {
            let e = ExtractedQuery::from_structured(q);
            if e.is_movie_query {
                Some(e)
            } else {
                None
            }
        },
        Err(_) => None,
    }
}

/// The query to search with: the extracted one when the message was a
/// movie query, else none (and the prompt gets no movie list).
pub fn search_query_of(extracted: &Option<ExtractedQuery>) -> (r: Option<&StructuredQuery>)
    ensures
        match extracted {
            Some(e) => if e.is_movie_query {
                r == Some(&e.structured_query)
            } else {
                r is None
            },
            None => r is None,
        },
{
    match extracted {
        Some(e) => if e.is_movie_query {
            Some(&e.structured_query)
        } else {
            None
        },
        None => None,
    }
}

/// Why the complete retrieval flow stops before searching.
pub open spec fn flow_error(extracted: Option<bool>) -> Option<Seq<char>> {
    match extracted {
        None => Some("Failed to extract search query"@),
        Some(is_movie) => if is_movie {
            None
        } else {
            Some("Not a movie query"@)
        },
    }
}

/// The query the complete retrieval flow searches with, or why it stops:
/// no query could be extracted, or the message is not about movies.
pub fn flow_query(extracted: Option<ExtractedQuery>) -> (r: Result<StructuredQuery, String>)
    ensures
        match extracted {
            None => r matches Err(e) && Some(e@) == flow_error(None),
            Some(x) => if x.is_movie_query {
                r matches Ok(q) && q == x.structured_query
            } else {
                r matches Err(e) && Some(e@) == flow_error(Some(false))
            },
        },
{
    match extracted {
        None => Err(String::from_str("Failed to extract search query")),
        Some(x) => if x.is_movie_query {
            Ok(x.structured_query)
        } else {
            Err(String::from_str("Not a movie query"))
        },
    }
}

/// The answer given when no movie matched, without asking the model.
pub const NO_MATCH_ANSWER: &'static str = "I couldn't find any movies in your collection that match your query.";

/// The answer to give without the model: the fixed reply when nothing was
/// retrieved.
pub fn answer_without_model(movies: &Vec<FullMovie>) -> (r: Option<String>)
    ensures
        match r {
            Some(a) => movies@.len() == 0 && a@ == NO_MATCH_ANSWER@,
            None => movies@.len() > 0,
        },
{
    if movies.len() == 0 {
        Some(String::from_str(NO_MATCH_ANSWER))
    } else {
        None
    }
}

/// The answer prompt: the template with `{RETRIEVED_MOVIES}` replaced by
/// the movies as JSON, then `{USER_QUESTION}` by the question.
pub fn fill_answer_prompt(template: &str, movies_json: &str, question: &str) -> (r: String)
    ensures
        r@ == replace_all(
            replace_all(template@, "{RETRIEVED_MOVIES}"@, movies_json@),
            "{USER_QUESTION}"@,
            question@,
        ),
{
    proof {
        reveal_strlit("{RETRIEVED_MOVIES}");
        reveal_strlit("{USER_QUESTION}");
    }
    let first = replace_str(template, "{RETRIEVED_MOVIES}", movies_json);
    replace_str(first.as_str(), "{USER_QUESTION}", question)
}

// ---------------------------------------------------------------------------
// The movie list as CSV
// ---------------------------------------------------------------------------

/// Movies written into the prompt at most.
pub const CONTEXT_MOVIES: usize = 15;

/// `s` with each double quote doubled, as CSV fields need.
pub open spec fn csv_escape(s: Seq<char>) -> Seq<char> {
    replace_all(s, "\""@, "\"\""@)
}

/// A movie's CSV row: quoted title, year, quoted director (`Unknown` when
/// there is none), quoted `; `-separated cast.
pub open spec fn movie_row(m: FullMovie) -> Seq<char> {
    let director = match director_name(m) {
        Some(n) => n,
        None => "Unknown"@,
    };
    "\""@ + csv_escape(m.name@) + "\","@ + int_decimal(m.release_year as int) + ",\""@ + csv_escape(director)
        + "\",\""@ + csv_escape(join(actor_names(m), "; "@)) + "\""@
}

/// The text before the CSV.
pub const CONTEXT_HEADER: &'static str = "\n\n=== YOUR COMPLETE DVD LIBRARY (CSV FORMAT) ===\n";

/// The instructions after the CSV.
pub const CONTEXT_FOOTER: &'static str = "\n\nCRITICAL INSTRUCTIONS:\n1. The CSV above contains ALL movies in the user's DVD library.\n2. You may ONLY mention movies from the 'Title' column above.\n3. You have NO knowledge of any other movies.\n4. When recommending, pick ONLY from the Titles listed above.\n5. If the user asks about a movie not in the Title column, say they don't own it.";

/// The text when nothing was retrieved.
pub const NO_MOVIES_CONTEXT: &'static str = "\n\nNo movies found matching the query.";

/// The CSV header row.
pub const CSV_HEADER_ROW: &'static str = "Title,Year,Director,Actors";

/// The movie context of a prompt: a fixed note when there are no movies,
/// else the header, the CSV of the first fifteen movies, and the
/// instructions.
pub open spec fn movie_context(movies: Seq<FullMovie>) -> Seq<char> {
    if movies.len() == 0 {
        NO_MOVIES_CONTEXT@
    } else {
        let shown = if movies.len() > CONTEXT_MOVIES {
            movies.take(CONTEXT_MOVIES as int)
        } else {
            movies
        };
        CONTEXT_HEADER@ + join(seq![CSV_HEADER_ROW@] + shown.map_values(|m: FullMovie| movie_row(m)), "\n"@)
            + CONTEXT_FOOTER@
    }
}

/// `s` with its double quotes doubled.
fn csv_escape_exec(s: &str) -> (r: String)
    ensures
        r@ == csv_escape(s@),
{
    proof {
        reveal_strlit("\"");
    }
    replace_str(s, "\"", "\"\"")
}

/// The names of a movie's cast.
fn cast_of(m: &FullMovie) -> (r: Vec<String>)
    ensures
        views(r@) == actor_names(*m),
{
    let mut r: Vec<String> = Vec::new();
    let mut i: usize = 0;
    while i < m.actors.len()
        invariant
            i <= m.actors.len(),
            views(r@) == actor_names(*m).take(i as int),
        decreases m.actors.len() - i,
    {
        let ghost before = views(r@);
        r.push(m.actors[i].name.clone());
        assert(actor_names(*m)[i as int] == m.actors@[i as int].name@);
        assert(views(r@) =~= before.push(m.actors@[i as int].name@));
        assert(actor_names(*m).take(i + 1) =~= actor_names(*m).take(i as int).push(actor_names(*m)[i as int]));
        i += 1;
    }
    assert(actor_names(*m).take(m.actors.len() as int) =~= actor_names(*m));
    r
}

/// A movie's CSV row.
fn movie_row_exec(m: &FullMovie) -> (r: String)
    ensures
        r@ == movie_row(*m),
{
    let mut r = String::from_str("\"");
    r.append(csv_escape_exec(m.name.as_str()).as_str());
    r.append("\",");
    push_int(&mut r, m.release_year as i64);
    r.append(",\"");
    let director = match &m.director {
        Some(d) => csv_escape_exec(d.name.as_str()),
        None => csv_escape_exec("Unknown"),
    };
    r.append(director.as_str());
    r.append("\",\"");
    let cast = join_strings(&cast_of(m), "; ");
    r.append(csv_escape_exec(cast.as_str()).as_str());
    r.append("\"");
    r
}

/// Formats the retrieved movies for the prompt: CSV of the first fifteen
/// (title, year, director, cast), between a header and instructions that
/// limit the answer to these movies.
pub fn format_movies_for_context(movies: &Vec<FullMovie>) -> (r: String)
    ensures
        r@ == movie_context(movies@),
{
    if movies.len() == 0 {
        return String::from_str(NO_MOVIES_CONTEXT);
    }
    let ghost shown = if movies@.len() > CONTEXT_MOVIES {
        movies@.take(CONTEXT_MOVIES as int)
    } else {
        movies@
    };
    let n = if movies.len() > CONTEXT_MOVIES {
        CONTEXT_MOVIES
    } else {
        movies.len()
    };
    let mut lines: Vec<String> = Vec::new();
    lines.push(String::from_str(CSV_HEADER_ROW));
    let mut i: usize = 0;
    while i < n
        invariant
            n == shown.len(),
            n <= movies@.len(),
            shown == movies@.take(n as int),
            i <= n,
            views(lines@) == seq![CSV_HEADER_ROW@] + shown.take(i as int).map_values(|m: FullMovie| movie_row(m)),
        decreases n - i,
    {
        let ghost before = views(lines@);
        lines.push(movie_row_exec(&movies[i]));
        assert(shown[i as int] == movies@[i as int]);
        assert(shown.take(i + 1).map_values(|m: FullMovie| movie_row(m)) =~= shown.take(i as int).map_values(
            |m: FullMovie| movie_row(m),
        ).push(movie_row(movies@[i as int])));
        assert(views(lines@) =~= before.push(movie_row(movies@[i as int])));
        i += 1;
    }
    assert(shown.take(n as int) =~= shown);
    let csv = join_strings(&lines, "\n");
    let mut r = String::from_str(CONTEXT_HEADER);
    r.append(csv.as_str());
    r.append(CONTEXT_FOOTER);
    r
}

} // verus!
