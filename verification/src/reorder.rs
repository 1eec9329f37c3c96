//! Reordering a movie's cast by billing with a language model: the request,
//! the checks a reply must pass, where results are written, and how a CSV
//! error is located.

use vstd::prelude::*;
use crate::models::{Actor, FullMovie, actor_names};
use crate::json_extract::{extract_json_array, json_array_slice};
use crate::prompts::{parse_json_string_array, spec_json_string_array};
use crate::text::{
    decimal, find_char, find_seq, first_index, int_decimal, join, occurrence_from,
    join_strings, push_decimal, push_int, replace_all, replace_str, spec_lowercase, split_char,
    split_on, substring, to_chars, to_lowercase, trim, trim_str, views, is_ascii_alnum,
};

verus! {

// ---------------------------------------------------------------------------
// Settings
// ---------------------------------------------------------------------------

/// Model used when none is configured.
pub const DEFAULT_REORDER_MODEL: &'static str = "qwen2.5:14b";

/// Attempts per movie before giving up.
pub const MAX_RETRY_ATTEMPTS: usize = 4;

/// Movies after which the model is unloaded to clear its state.
pub const RESET_MODEL_EVERY: usize = 50;

/// Largest edit distance between a returned name and an original one.
pub const MAX_EDIT_DISTANCE: usize = 2;

/// `http://<host>:<port>` of the Ollama server (defaults `localhost` and
/// `11434`), and the model (default `qwen2.5:14b`).
pub fn reorder_settings(host: Option<String>, port: Option<String>, model: Option<String>) -> (r: (String, String))
    ensures
        r.0@ == "http://"@ + (match host {
            Some(h) => h@,
            None => "localhost"@,
        }) + ":"@ + (match port {
            Some(p) => p@,
            None => "11434"@,
        }),
        r.1@ == (match model {
            Some(m) => m@,
            None => DEFAULT_REORDER_MODEL@,
        }),
{
    let mut url = String::from_str("http://");
    match &host {
        Some(h) => url.append(h.as_str()),
        None => url.append("localhost"),
    }
    url.append(":");
    match &port {
        Some(p) => url.append(p.as_str()),
        None => url.append("11434"),
    }
    let model = match model {
        Some(m) => m,
        None => String::from_str(DEFAULT_REORDER_MODEL),
    };
    (url, model)
}

/// Whether the model is unloaded before the movie at `idx`: every fifty
/// movies, not before the first.
pub fn needs_model_reset(idx: usize) -> (r: bool)
    ensures
        r == (idx > 0 && idx % RESET_MODEL_EVERY == 0),
{
    idx > 0 && idx % RESET_MODEL_EVERY == 0
}

/// The row of the input file a movie came from (its header is row 1).
pub fn csv_row_of(start: usize, idx: usize) -> (r: usize)
    requires
        start + idx + 2 <= usize::MAX,
    ensures
        r == start + idx + 2,
{
    start + idx + 2
}

/// Which movies to process: from `start`, `count` of them (all remaining
/// when not given), within the `total` the file holds. Returns the end
/// index and how many movies that is, or why `start` is refused.
pub fn select_range(start: usize, count: Option<usize>, total: usize) -> (r: Result<(usize, usize), String>)
    requires
        count matches Some(c) ==> start + c <= usize::MAX,
    ensures
        start >= total ==> (r matches Err(e) && e@ == "Start index "@ + decimal(start as nat)
            + " is beyond the total number of movies ("@ + decimal(total as nat) + ")"@),
        start < total ==> (r matches Ok((end, n)) && end == (match count {
            Some(c) => if start + c < total {
                (start + c) as usize
            } else {
                total
            },
            None => total,
        }) && n == end - start),
{
    if start >= total {
        let mut e = String::from_str("Start index ");
        push_decimal(&mut e, start as u64);
        e.append(" is beyond the total number of movies (");
        push_decimal(&mut e, total as u64);
        e.append(")");
        return Err(e);
    }
    let end = match count {
        Some(c) => if start + c < total {
            start + c
        } else {
            total
        },
        None => total,
    };
    Ok((end, end - start))
}

// ---------------------------------------------------------------------------
// Output paths (std::path)
// ---------------------------------------------------------------------------

/// What `Path::file_stem` gives for a path.
pub uninterp spec fn spec_file_stem(path: Seq<char>) -> Option<Seq<char>>;

/// What `Path::extension` gives for a path.
pub uninterp spec fn spec_extension(path: Seq<char>) -> Option<Seq<char>>;

/// What `PathBuf::set_file_name` makes of a path and a file name.
pub uninterp spec fn spec_with_file_name(path: Seq<char>, name: Seq<char>) -> Seq<char>;

/// Calls `Path::file_stem`; the result is named by `spec_file_stem`.
#[verifier::external_body]
fn file_stem(path: &str) -> (r: Option<String>)
    ensures
        match r {
            Some(s) => spec_file_stem(path@) == Some(s@),
            None => spec_file_stem(path@) is None,
        },
{
    std::path::Path::new(path).file_stem().map(|s| s.to_string_lossy().into_owned())
}

/// Calls `Path::extension`; the result is named by `spec_extension`.
#[verifier::external_body]
fn extension(path: &str) -> (r: Option<String>)
    ensures
        match r {
            Some(s) => spec_extension(path@) == Some(s@),
            None => spec_extension(path@) is None,
        },
{
    std::path::Path::new(path).extension().map(|s| s.to_string_lossy().into_owned())
}

/// Calls `PathBuf::set_file_name` on a copy of the path; the result is
/// named by `spec_with_file_name`.
#[verifier::external_body]
fn with_file_name(path: &str, name: &str) -> (r: String)
    ensures
        r@ == spec_with_file_name(path@, name@),
{
    let mut p = std::path::PathBuf::from(path);
    p.set_file_name(name);
    p.to_string_lossy().into_owned()
}

/// The text of an optional part, empty when absent.
pub open spec fn part_or_empty(s: Option<Seq<char>>) -> Seq<char> {
    match s {
        Some(x) => x,
        None => Seq::empty(),
    }
}

/// The output path: the one given, else the input's file name replaced by
/// `<stem>_reordered.csv` (next to the input).
pub fn generate_output_path(input_path: &str, output: Option<String>) -> (r: String)
    ensures
        r@ == (match output {
            Some(o) => o@,
            None => spec_with_file_name(input_path@, part_or_empty(spec_file_stem(input_path@)) + "_reordered.csv"@),
        }),
{
    match output {
        Some(o) => o,
        None => {
            let mut name = match file_stem(input_path) {
                Some(st) => st,
                None => String::new(),
            };
            name.append("_reordered.csv");
            with_file_name(input_path, name.as_str())
        },
    }
}

/// Where movies that could not be reordered go: the input's file name
/// replaced by `<stem>-failed.<extension>`.
pub fn generate_failed_output_path(input_path: &str) -> (r: String)
    ensures
        r@ == spec_with_file_name(
            input_path@,
            part_or_empty(spec_file_stem(input_path@)) + "-failed."@ + part_or_empty(spec_extension(input_path@)),
        ),
{
    let stem = match file_stem(input_path) {
        Some(s) => s,
        None => String::new(),
    };
    let ext = match extension(input_path) {
        Some(e) => e,
        None => String::new(),
    };
    let mut name = stem;
    name.append("-failed.");
    name.append(ext.as_str());
    with_file_name(input_path, name.as_str())
}

// ---------------------------------------------------------------------------
// The request
// ---------------------------------------------------------------------------

/// The user message describing a movie and the cast to reorder.
pub fn reorder_request_message(movie: &FullMovie) -> (r: String)
    ensures
        r@ == "Movie Title: "@ + movie.name@ + "\nRelease Year: "@ + int_decimal(movie.release_year as int)
            + " (IMPORTANT: Use this year to identify the correct version of the movie)\n\nActors to reorder (these actors ARE in the "@
            + int_decimal(movie.release_year as int) + " "@ + movie.name@ + " version): "@ + join(
            actor_names(*movie),
            ", "@,
        ),
{
    let mut r = String::from_str("Movie Title: ");
    r.append(movie.name.as_str());
    r.append("\nRelease Year: ");
    push_int(&mut r, movie.release_year as i64);
    r.append(" (IMPORTANT: Use this year to identify the correct version of the movie)\n\nActors to reorder (these actors ARE in the ");
    push_int(&mut r, movie.release_year as i64);
    r.append(" ");
    r.append(movie.name.as_str());
    r.append(" version): ");
    let names = cast_names_of(movie);
    r.append(join_strings(&names, ", ").as_str());
    r
}

/// The names of a movie's cast.
fn cast_names_of(m: &FullMovie) -> (r: Vec<String>)
    ensures
        views(r@) == actor_names(*m),
{
    let mut r: Vec<String> = Vec::new();
    let mut i: usize = 0;
    while i < m.actors.len()
        invariant
            i <= m.actors.len(),
            views(r@) == actor_names(*m).take(i as int),
        decreases m.actors.len() - i,
    {
        let ghost before = views(r@);
        r.push(m.actors[i].name.clone());
        assert(actor_names(*m)[i as int] == m.actors@[i as int].name@);
        assert(views(r@) =~= before.push(m.actors@[i as int].name@));
        assert(actor_names(*m).take(i + 1) =~= actor_names(*m).take(i as int).push(actor_names(*m)[i as int]));
        i += 1;
    }
    assert(actor_names(*m).take(m.actors.len() as int) =~= actor_names(*m));
    r
}

/// The system message of a reordering request.
pub const REORDER_SYSTEM_PROMPT: &'static str = r#"You are a movie expert assistant. Your task is to reorder a list of actors for a given movie based on their BILLING ORDER (the order they appear in the opening/closing credits), NOT their popularity or fame.

!!!!! CRITICAL RULES - FOLLOW EXACTLY OR YOUR RESPONSE WILL BE REJECTED !!!!!

1. ABSOLUTELY NEVER ADD ANY ACTORS NOT IN THE PROVIDED LIST
2. ABSOLUTELY NEVER REMOVE ANY ACTORS FROM THE PROVIDED LIST
3. Output array MUST contain THE EXACT SAME ACTORS as input - NO MORE, NO LESS
4. Output array MUST have the EXACT SAME COUNT as input list
5. Your ONLY job is to REORDER the existing actors - DO NOT ADD OR REMOVE ANYONE
6. You may fix minor spelling errors in actor names (e.g., "Kurt Russel" -> "Kurt Russell")
7. CONVERT ALL ACCENTED CHARACTERS TO ENGLISH EQUIVALENTS (e.g., "Renée" -> "Renee", "José" -> "Jose", "Zoë" -> "Zoe")
8. USE ONLY STANDARD ENGLISH LETTERS (a-z, A-Z) - NO ACCENTED CHARACTERS ALLOWED

DO NOT ADD ACTORS. DO NOT REMOVE ACTORS. ONLY REORDER THE EXACT LIST PROVIDED.

Billing order reflects each actor's role size in THIS SPECIFIC MOVIE, not their overall career fame.

Example: Ryan Reynolds appears in "Bullet Train" but has a very small cameo role, so he should be near the END of the billing order despite being more famous than the leads.

Ordering Guidelines:
- Lead roles (most screen time, central to plot) come first
- Supporting roles come in the middle
- Cameos and minor roles come last - even if the actor is very famous
- Base ordering on the SIZE and IMPORTANCE of each actor's role in THIS SPECIFIC MOVIE
- If you're unsure, make your best educated guess based on the movie title, year, and description

REMINDER: Use ONLY the actors provided in the input list. DO NOT ADD any actors even if you think they should be included.

TWO-STEP PROCESS:
Step 1: Reorder the actors by billing importance
Step 2: BEFORE returning your answer, verify your reordered list has the EXACT SAME COUNT as the input
        - Count the input actors
        - Count your output actors
        - If counts don't match, fix your list to match the input count exactly
        - Only return your answer after verifying the counts match

Output Format:
- Return ONLY a JSON array: ["Actor Name 1", "Actor Name 2", "Actor Name 3"]
- The array must contain EXACTLY the same actors as provided, just reordered
- Do not include any explanation or additional text - ONLY the JSON array"#;

/// The system message asking the model to explain a CSV parsing error.
pub const CSV_DEBUG_SYSTEM_PROMPT: &'static str = r#"You are a CSV parsing debugging expert. Analyze the error and the problematic CSV line to identify the root cause and suggest fixes.

Provide:
1. Root cause of the parsing error
2. Which field(s) are causing the issue
3. Concrete fix suggestions for this specific line

IMPORTANT! The CSV should have exactly 8 fields per row:
- Title
- Year
- Description
- Actors
- Genres
- Director
- AddedOn
- Location

Do not provide code solutions. Just explain the issue with this specific line.

Be VERY concise and actionable."#;

/// The user message asking about a CSV parsing error on a line.
pub fn csv_debug_message(error_msg: &str, line_number: usize, line: &str) -> (r: String)
    ensures
        r@ == "CSV Parsing Error:\n"@ + error_msg@ + "\n\nProblematic Line "@ + decimal(line_number as nat)
            + " Content:\n"@ + line@ + "\n\nWhat's wrong with this line and how to fix it?"@,
{
    let mut r = String::from_str("CSV Parsing Error:\n");
    r.append(error_msg);
    r.append("\n\nProblematic Line ");
    push_decimal(&mut r, line_number as u64);
    r.append(" Content:\n");
    r.append(line);
    r.append("\n\nWhat's wrong with this line and how to fix it?");
    r
}

// ---------------------------------------------------------------------------
// Checking a reply
// ---------------------------------------------------------------------------

/// The minimum number of single-character insertions, deletions and
/// substitutions that turn `a` into `b`.
pub open spec fn edit_distance(a: Seq<char>, b: Seq<char>) -> nat
    decreases a.len() + b.len(),
{
    if a.len() == 0 {
        b.len()
    } else if b.len() == 0 {
        a.len()
    } else {
        let sub = edit_distance(a.drop_last(), b.drop_last()) + if a.last() == b.last() {
            0nat
        } else {
            1nat
        };
        let del = edit_distance(a.drop_last(), b) + 1;
        let ins = edit_distance(a, b.drop_last()) + 1;
        if sub <= del && sub <= ins {
            sub
        } else if del <= ins {
            del
        } else {
            ins
        }
    }
}

/// Calls `strsim::levenshtein`, which the crate documents as "the minimum
/// number of insertions, deletions, and substitutions required to change
/// one string into the other", over characters.
#[verifier::external_body]
fn levenshtein(a: &str, b: &str) -> (r: usize)
    ensures
        r == edit_distance(a@, b@),
{
    strsim::levenshtein(a, b)
}

/// Characters allowed in a returned name: ASCII letters and digits, space,
/// `.`, `-`, `'`, `,` and `"`.
pub open spec fn allowed_name_char(c: char) -> bool {
    ('a' <= c <= 'z') || ('A' <= c <= 'Z') || ('0' <= c <= '9') || c == ' ' || c == '.' || c == '-'
        || c == '\'' || c == ',' || c == '"'
}

/// Whether every character of a name is allowed.
pub open spec fn english_name(s: Seq<char>) -> bool {
    forall|i: int| 0 <= i < s.len() ==> allowed_name_char(#[trigger] s[i])
}

/// Whether a returned name is within the allowed edit distance of some
/// original name (both lowercased).
pub open spec fn near_original(name: Seq<char>, originals: Seq<Seq<char>>) -> bool {
    exists|i: int|
        0 <= i < originals.len() && edit_distance(spec_lowercase(name), spec_lowercase(#[trigger] originals[i]))
            <= MAX_EDIT_DISTANCE
}

/// The first name with a character other than plain English ones, if any.
pub open spec fn first_non_english(names: Seq<Seq<char>>) -> Option<int> {
    if exists|i: int| 0 <= i < names.len() && !english_name(#[trigger] names[i]) {
        Some(
            choose|i: int|
                0 <= i < names.len() && !english_name(names[i]) && forall|j: int| 0 <= j < i ==> english_name(#[trigger] names[j]),
        )
    } else {
        None
    }
}

/// The first name not close to any original name, if any.
pub open spec fn first_unmatched(names: Seq<Seq<char>>, originals: Seq<Seq<char>>) -> Option<int> {
    if exists|i: int| 0 <= i < names.len() && !near_original(#[trigger] names[i], originals) {
        Some(
            choose|i: int|
                0 <= i < names.len() && !near_original(names[i], originals) && forall|j: int|
                    0 <= j < i ==> near_original(#[trigger] names[j], originals),
        )
    } else {
        None
    }
}

/// Why a reordered cast is rejected, if it is: a name with characters other
/// than plain English ones (the first such name), a different number of
/// names, or a name not close to any original one (the first such name).
pub open spec fn reorder_rejection(originals: Seq<Seq<char>>, reordered: Seq<Seq<char>>) -> Option<Seq<char>> {
    match first_non_english(reordered) {
        Some(i) => Some("Actor name contains non-English characters: '"@ + reordered[i] + "'"@),
        None => if reordered.len() != originals.len() {
            Some("AI returned "@ + decimal(reordered.len()) + " actors but expected exactly "@ + decimal(
                originals.len(),
            ) + ". Ignoring response."@)
        } else {
            match first_unmatched(reordered, originals) {
                Some(i) => Some("AI returned actor '"@ + reordered[i]
                    + "' not matching any original actor (max edit distance 2). Ignoring response."@),
                None => None,
            }
        },
    }
}

/// A name passes the character check exactly when every character is an
/// ASCII letter or digit, or one of space `.` `-` `'` `,` `"`.
pub proof fn lemma_english_name_chars(name: Seq<char>)
    ensures
        english_name(name) <==> forall|j: int|
            0 <= j < name.len() ==> is_ascii_alnum(#[trigger] name[j]) || name[j] == ' ' || name[j] == '.'
                || name[j] == '-' || name[j] == '\'' || name[j] == ',' || name[j] == '"',
{
    assert forall|c: char| #[trigger] allowed_name_char(c) <==> (is_ascii_alnum(c) || c == ' ' || c == '.' || c == '-'
        || c == '\'' || c == ',' || c == '"') by {
    }
}

/// Names made only of ASCII letters, digits, space, `.`, `-`, `'`, `,` and
/// `"` are never rejected for their characters: the reply is then judged
/// only by its length and how close each name is to an original one.
pub proof fn lemma_plain_names_pass(originals: Seq<Seq<char>>, reordered: Seq<Seq<char>>)
    requires
        forall|i: int, j: int|
            0 <= i < reordered.len() && 0 <= j < reordered[i].len() ==> is_ascii_alnum(#[trigger] reordered[i][j])
                || reordered[i][j] == ' ' || reordered[i][j] == '.' || reordered[i][j] == '-' || reordered[i][j]
                == '\'' || reordered[i][j] == ',' || reordered[i][j] == '"',
    ensures
        first_non_english(reordered) is None,
        reorder_rejection(originals, reordered) is None <==> reordered.len() == originals.len() && forall|i: int|
            0 <= i < reordered.len() ==> near_original(#[trigger] reordered[i], originals),
{
    assert forall|i: int| 0 <= i < reordered.len() implies english_name(#[trigger] reordered[i]) by {
        lemma_english_name_chars(reordered[i]);
        assert forall|j: int| 0 <= j < reordered[i].len() implies is_ascii_alnum(#[trigger] reordered[i][j])
            || reordered[i][j] == ' ' || reordered[i][j] == '.' || reordered[i][j] == '-' || reordered[i][j] == '\''
            || reordered[i][j] == ',' || reordered[i][j] == '"' by {}
    }
    lemma_accepted_reorder(originals, reordered);
}

/// An accepted reordering has exactly as many names as the original cast,
/// every name in plain English characters and close to an original name;
/// any other reply is rejected.
pub proof fn lemma_accepted_reorder(originals: Seq<Seq<char>>, reordered: Seq<Seq<char>>)
    ensures
        reorder_rejection(originals, reordered) is None <==> {
            &&& reordered.len() == originals.len()
            &&& forall|i: int| 0 <= i < reordered.len() ==> english_name(#[trigger] reordered[i])
            &&& forall|i: int| 0 <= i < reordered.len() ==> near_original(#[trigger] reordered[i], originals)
        },
{
    if exists|i: int| 0 <= i < reordered.len() && !english_name(#[trigger] reordered[i]) {
        lemma_first_bad_from(reordered, originals, true, 0);
    }
    if exists|i: int| 0 <= i < reordered.len() && !near_original(#[trigger] reordered[i], originals) {
        lemma_first_bad_from(reordered, originals, false, 0);
    }
}

/// When some name from position `k` on fails a check and none before `k`
/// does, a first failing name exists.
proof fn lemma_first_bad_from(names: Seq<Seq<char>>, originals: Seq<Seq<char>>, chars: bool, k: int)
    requires
        0 <= k <= names.len(),
        chars ==> forall|j: int| 0 <= j < k ==> english_name(#[trigger] names[j]),
        !chars ==> forall|j: int| 0 <= j < k ==> near_original(#[trigger] names[j], originals),
        chars ==> exists|i: int| k <= i < names.len() && !english_name(#[trigger] names[i]),
        !chars ==> exists|i: int| k <= i < names.len() && !near_original(#[trigger] names[i], originals),
    ensures
        chars ==> exists|i: int|
            0 <= i < names.len() && !english_name(names[i]) && forall|j: int| 0 <= j < i ==> english_name(#[trigger] names[j]),
        !chars ==> exists|i: int|
            0 <= i < names.len() && !near_original(names[i], originals) && forall|j: int|
                0 <= j < i ==> near_original(#[trigger] names[j], originals),
    decreases names.len() - k,
{
    if chars {
        if !english_name(names[k]) {
            assert(0 <= k < names.len() && !english_name(names[k]) && forall|j: int| 0 <= j < k ==> english_name(#[trigger] names[j]));
        } else {
            lemma_first_bad_from(names, originals, chars, k + 1);
        }
    } else {
        if !near_original(names[k], originals) {
            assert(0 <= k < names.len() && !near_original(names[k], originals) && forall|j: int|
                0 <= j < k ==> near_original(#[trigger] names[j], originals));
        } else {
            lemma_first_bad_from(names, originals, chars, k + 1);
        }
    }
}

/// Whether every character of a name is allowed.
fn is_english_name(s: &String) -> (r: bool)
    ensures
        r == english_name(s@),
{
    let v = to_chars(s.as_str());
    let mut i: usize = 0;
    while i < v.len()
        invariant
            i <= v.len(),
            v@ == s@,
            forall|k: int| 0 <= k < i ==> allowed_name_char(#[trigger] v@[k]),
        decreases v.len() - i,
    {
        let c = v[i];
        let ok = ('a' <= c && c <= 'z') || ('A' <= c && c <= 'Z') || ('0' <= c && c <= '9') || c == ' '
            || c == '.' || c == '-' || c == '\'' || c == ',' || c == '"';
        if !ok {
            return false;
        }
        i += 1;
    }
    true
}

/// Whether a name is close to some original name.
fn is_near_original(name: &String, originals: &Vec<String>) -> (r: bool)
    ensures
        r == near_original(name@, views(originals@)),
{
    let lower = to_lowercase(name.as_str());
    let mut i: usize = 0;
    while i < originals.len()
        invariant
            i <= originals.len(),
            lower@ == spec_lowercase(name@),
            forall|k: int|
                0 <= k < i ==> edit_distance(spec_lowercase(name@), spec_lowercase(#[trigger] views(originals@)[k]))
                    > MAX_EDIT_DISTANCE,
        decreases originals.len() - i,
    {
        assert(views(originals@)[i as int] == originals@[i as int]@);
        let other = to_lowercase(originals[i].as_str());
        if levenshtein(lower.as_str(), other.as_str()) <= MAX_EDIT_DISTANCE {
            return true;
        }
        i += 1;
    }
    false
}

/// Checks a reordered cast against the original names.
pub fn check_reordered(originals: &Vec<String>, reordered: &Vec<String>) -> (r: Result<(), String>)
    ensures
        match r {
            Ok(()) => reorder_rejection(views(originals@), views(reordered@)) is None,
            Err(e) => reorder_rejection(views(originals@), views(reordered@)) == Some(e@),
        },
{
    let ghost rv = views(reordered@);
    let ghost ov = views(originals@);
    let mut i: usize = 0;
    while i < reordered.len()
        invariant
            i <= reordered.len(),
            rv == views(reordered@),
            forall|k: int| 0 <= k < i ==> english_name(#[trigger] rv[k]),
        decreases reordered.len() - i,
    {
        assert(rv[i as int] == reordered@[i as int]@);
        if !is_english_name(&reordered[i]) {
            proof {
                assert(first_non_english(rv) == Some(i as int)) by {
                    assert(0 <= i < rv.len() && !english_name(rv[i as int]));
                    let c = choose|k: int|
                        0 <= k < rv.len() && !english_name(rv[k]) && forall|j: int| 0 <= j < k ==> english_name(#[trigger] rv[j]);
                    if c < i {
                        assert(english_name(rv[c]));
                    }
                    if c > i {
                        assert(english_name(rv[i as int]));
                    }
                }
            }
            let mut e = String::from_str("Actor name contains non-English characters: '");
            e.append(reordered[i].as_str());
            e.append("'");
            return Err(e);
        }
        i += 1;
    }
    assert(first_non_english(rv) is None);
    assert(rv.len() == reordered@.len());
    assert(ov.len() == originals@.len());
    if reordered.len() != originals.len() {
        let mut e = String::from_str("AI returned ");
        push_decimal(&mut e, reordered.len() as u64);
        e.append(" actors but expected exactly ");
        push_decimal(&mut e, originals.len() as u64);
        e.append(". Ignoring response.");
        return Err(e);
    }
    let mut j: usize = 0;
    while j < reordered.len()
        invariant
            j <= reordered.len(),
            rv == views(reordered@),
            ov == views(originals@),
            rv.len() == ov.len(),
            first_non_english(rv) is None,
            forall|k: int| 0 <= k < j ==> near_original(#[trigger] rv[k], ov),
        decreases reordered.len() - j,
    {
        assert(rv[j as int] == reordered@[j as int]@);
        if !is_near_original(&reordered[j], originals) {
            proof {
                assert(first_unmatched(rv, ov) == Some(j as int)) by {
                    assert(0 <= j < rv.len() && !near_original(rv[j as int], ov));
                    let c = choose|k: int|
                        0 <= k < rv.len() && !near_original(rv[k], ov) && forall|m: int|
                            0 <= m < k ==> near_original(#[trigger] rv[m], ov);
                    if c < j {
                        assert(near_original(rv[c], ov));
                    }
                    if c > j {
                        assert(near_original(rv[j as int], ov));
                    }
                }
            }
            let mut e = String::from_str("AI returned actor '");
            e.append(reordered[j].as_str());
            e.append("' not matching any original actor (max edit distance 2). Ignoring response.");
            return Err(e);
        }
        j += 1;
    }
    assert(first_unmatched(rv, ov) is None);
    Ok(())
}

/// Reads a reordering reply: the JSON array in the trimmed reply must parse
/// as names that pass `check_reordered`. A parse failure is reported as
/// `Failed to parse JSON response: <error>. Response was: <trimmed reply>`.
pub fn reordered_from_reply(originals: &Vec<String>, reply: &str) -> (r: Result<Vec<String>, String>)
    ensures
        match spec_json_string_array(json_array_slice(trim(reply@))) {
            Err(reason) => r matches Err(e) && e@ == "Failed to parse JSON response: "@ + reason + ". Response was: "@
                + trim(reply@),
            Ok(names) => match reorder_rejection(views(originals@), names) {
                None => r matches Ok(v) && views(v@) == names,
                Some(why) => r matches Err(e) && e@ == why,
            },
        },
{
    let content = trim_str(reply);
    let json = extract_json_array(content.as_str());
    match parse_json_string_array(json.as_str()) {
        Err(reason) => {
            let mut e = String::from_str("Failed to parse JSON response: ");
            e.append(reason.as_str());
            e.append(". Response was: ");
            e.append(content.as_str());
            Err(e)
        },
        Ok(names) => match check_reordered(originals, &names) {
            Ok(()) => Ok(names),
            Err(e) => Err(e),
        },
    }
}

/// The error after every attempt failed.
pub fn retries_exhausted(last_error: &str) -> (r: String)
    ensures
        r@ == "Failed after "@ + decimal(MAX_RETRY_ATTEMPTS as nat) + " attempts. Last error: "@ + last_error@,
{
    let mut r = String::from_str("Failed after ");
    push_decimal(&mut r, MAX_RETRY_ATTEMPTS as u64);
    r.append(" attempts. Last error: ");
    r.append(last_error);
    r
}

/// What to do after an attempt to reorder a movie's cast.
#[derive(Debug)]
pub enum RetryStep {
    /// Use the reordered cast.
    Done(Vec<String>),
    /// Try again: attempt number `next`, after the failure `error`.
    Retry { next: usize, error: String },
    /// Stop trying; the movie keeps its cast and is reported with this message.
    GiveUp(String),
}

/// The decision after attempt number `attempt` (counted from 1): a
/// reordered cast is used; a failure is retried until `MAX_RETRY_ATTEMPTS`
/// attempts have failed, after which the last error is reported.
pub fn after_attempt(attempt: usize, result: Result<Vec<String>, String>) -> (r: RetryStep)
    requires
        1 <= attempt <= MAX_RETRY_ATTEMPTS,
    ensures
        match result {
            Ok(names) => r == RetryStep::Done(names),
            Err(e) => if attempt < MAX_RETRY_ATTEMPTS {
                r matches RetryStep::Retry { next, error } && next == attempt + 1 && error@ == e@
            } else {
                r matches RetryStep::GiveUp(m) && m@ == "Failed after "@ + decimal(MAX_RETRY_ATTEMPTS as nat)
                    + " attempts. Last error: "@ + e@
            },
        },
{
    match result {
        Ok(names) => RetryStep::Done(names),
        Err(e) => if attempt < MAX_RETRY_ATTEMPTS {
            RetryStep::Retry { next: attempt + 1, error: e }
        } else {
            RetryStep::GiveUp(retries_exhausted(e.as_str()))
        },
    }
}

/// Replaces a movie's cast by the reordered names (new actors, not yet
/// stored), keeping everything else.
pub fn apply_reordered(movie: &mut FullMovie, names: Vec<String>)
    ensures
        actor_names(*final(movie)) == views(names@),
        forall|i: int| 0 <= i < final(movie).actors@.len() ==> (#[trigger] final(movie).actors@[i]).id == 0,
        final(movie).id == old(movie).id,
        final(movie).name == old(movie).name,
        final(movie).description == old(movie).description,
        final(movie).director == old(movie).director,
        final(movie).genres == old(movie).genres,
        final(movie).added_on == old(movie).added_on,
        final(movie).location == old(movie).location,
        final(movie).release_year == old(movie).release_year,
{
    let mut actors: Vec<Actor> = Vec::new();
    let mut i: usize = 0;
    while i < names.len()
        invariant
            i <= names.len(),
            actors@.len() == i,
            forall|k: int| 0 <= k < i ==> (#[trigger] actors@[k]).name@ == names@[k]@ && actors@[k].id == 0,
        decreases names.len() - i,
    {
        actors.push(Actor::from_name(names[i].clone()));
        i += 1;
    }
    movie.actors = actors;
    assert(actor_names(*movie) =~= views(names@));
}

// ---------------------------------------------------------------------------
// The failed-movies file
// ---------------------------------------------------------------------------

/// A field of the failed-movies file: quoted (inner quotes doubled) when it
/// holds a comma, a quote or a line break.
pub open spec fn escape_field(s: Seq<char>) -> Seq<char> {
    if s.contains(',') || s.contains('"') || s.contains('\n') {
        "\""@ + replace_all(s, "\""@, "\"\""@) + "\""@
    } else {
        s
    }
}

/// A field of the failed-movies file.
fn escape_field_exec(s: &str) -> (r: String)
    ensures
        r@ == escape_field(s@),
{
    let v = to_chars(s);
    assert(v@.subrange(0, v.len() as int) =~= s@);
    let needs = find_char(&v, 0, v.len(), ',').is_some() || find_char(&v, 0, v.len(), '"').is_some()
        || find_char(&v, 0, v.len(), '\n').is_some();
    proof {
        crate::text::lemma_first_index_props(s@, ',');
        crate::text::lemma_first_index_props(s@, '"');
        crate::text::lemma_first_index_props(s@, '\n');
        assert(s@.contains(',') <==> first_index(s@, ',') is Some) by {
            if s@.contains(',') {
                let k = choose|k: int| 0 <= k < s@.len() && s@[k] == ',';
            }
        }
        assert(s@.contains('"') <==> first_index(s@, '"') is Some) by {
            if s@.contains('"') {
                let k = choose|k: int| 0 <= k < s@.len() && s@[k] == '"';
            }
        }
        assert(s@.contains('\n') <==> first_index(s@, '\n') is Some) by {
            if s@.contains('\n') {
                let k = choose|k: int| 0 <= k < s@.len() && s@[k] == '\n';
            }
        }
    }
    if needs {
        proof {
            reveal_strlit("\"");
        }
        let mut r = String::from_str("\"");
        r.append(replace_str(s, "\"", "\"\"").as_str());
        r.append("\"");
        r
    } else {
        String::from_str(s)
    }
}

/// The line of the failed-movies file for a movie and its error (without
/// the line break): title, year, description, `; `-separated cast and
/// genres, director, date added, location and error, each escaped.
pub fn failed_movie_line(movie: &FullMovie, error: &str) -> (r: String)
    ensures
        r@ == escape_field(movie.name@) + ","@ + int_decimal(movie.release_year as int) + ","@ + escape_field(
            part_or_empty(crate::models::opt_view(movie.description)),
        ) + ","@ + escape_field(join(actor_names(*movie), "; "@)) + ","@ + escape_field(
            join(views(movie.genres@), "; "@),
        ) + ","@ + escape_field(part_or_empty(crate::models::director_name(*movie))) + ","@ + escape_field(
            part_or_empty(crate::models::opt_view(movie.added_on)),
        ) + ","@ + escape_field(part_or_empty(crate::models::opt_view(movie.location))) + ","@ + escape_field(
            error@,
        ),
{
    let actors = join_strings(&cast_names_of(movie), "; ");
    let genres = join_strings(&movie.genres, "; ");
    let director = match &movie.director {
        Some(d) => d.name.clone(),
        None => String::new(),
    };
    let description = match &movie.description {
        Some(d) => d.clone(),
        None => String::new(),
    };
    let added_on = match &movie.added_on {
        Some(d) => d.clone(),
        None => String::new(),
    };
    let location = match &movie.location {
        Some(d) => d.clone(),
        None => String::new(),
    };
    let mut r = escape_field_exec(movie.name.as_str());
    r.append(",");
    push_int(&mut r, movie.release_year as i64);
    r.append(",");
    r.append(escape_field_exec(description.as_str()).as_str());
    r.append(",");
    r.append(escape_field_exec(actors.as_str()).as_str());
    r.append(",");
    r.append(escape_field_exec(genres.as_str()).as_str());
    r.append(",");
    r.append(escape_field_exec(director.as_str()).as_str());
    r.append(",");
    r.append(escape_field_exec(added_on.as_str()).as_str());
    r.append(",");
    r.append(escape_field_exec(location.as_str()).as_str());
    r.append(",");
    r.append(escape_field_exec(error).as_str());
    r
}

/// The header line of the failed-movies file.
pub const FAILED_HEADER: &'static str = "Title,Year,Description,Actors,Genres,Director,AddedOn,Location,Error";

// ---------------------------------------------------------------------------
// Locating a CSV error
// ---------------------------------------------------------------------------

/// Whether `c` is an ASCII digit.
pub open spec fn is_digit(c: char) -> bool {
    '0' <= c <= '9'
}

/// The value of a string of ASCII digits.
pub open spec fn digits_value(s: Seq<char>) -> nat
    decreases s.len(),
{
    if s.len() == 0 {
        0
    } else {
        digits_value(s.drop_last()) * 10 + ((s.last() as int) - ('0' as int)) as nat
    }
}

/// What `str::parse::<usize>` gives: an optional `+` then one or more ASCII
/// digits whose value fits in `usize`; anything else fails.
pub open spec fn parse_usize(s: Seq<char>) -> Option<usize> {
    let digits = unsigned_digits(s);
    if digits.len() > 0 && all_digits(digits) && digits_value(digits) <= usize::MAX {
        Some(digits_value(digits) as usize)
    } else {
        None
    }
}

/// The digits of an unsigned number: `s` without a leading `+`.
pub open spec fn unsigned_digits(s: Seq<char>) -> Seq<char> {
    if s.len() > 0 && s[0] == '+' {
        s.skip(1)
    } else {
        s
    }
}

/// Whether every character is an ASCII digit.
pub open spec fn all_digits(s: Seq<char>) -> bool {
    forall|i: int| 0 <= i < s.len() ==> is_digit(#[trigger] s[i])
}

/// Parses a decimal `usize` as `str::parse` does.
pub fn parse_usize_exec(s: &str) -> (r: Option<usize>)
    ensures
        r == parse_usize(s@),
{
    let v = to_chars(s);
    let start: usize = if v.len() > 0 && v[0] == '+' {
        1
    } else {
        0
    };
    let ghost digits = unsigned_digits(s@);
    assert(digits =~= v@.skip(start as int));
    if start >= v.len() {
        return None;
    }
    let mut value: usize = 0;
    let mut i: usize = start;
    while i < v.len()
        invariant
            start <= i <= v.len(),
            v@ == s@,
            digits == v@.skip(start as int),
            digits == unsigned_digits(s@),
            forall|k: int| start <= k < i ==> is_digit(#[trigger] v@[k]),
            value == digits_value(v@.subrange(start as int, i as int)),
        decreases v.len() - i,
    {
        let c = v[i];
        if !('0' <= c && c <= '9') {
            assert(!is_digit(digits[i - start]));
            assert(!all_digits(digits));
            return None;
        }
        let d = (c as u32 - '0' as u32) as usize;
        assert(v@.subrange(start as int, i + 1).drop_last() =~= v@.subrange(start as int, i as int));
        assert(d == (c as int) - ('0' as int));
        if value > (usize::MAX - d) / 10 {
            proof {
                assert(digits_value(v@.subrange(start as int, i + 1)) == value * 10 + d);
                assert(value * 10 + d > usize::MAX) by (nonlinear_arith)
                    requires
                        value > (usize::MAX - d) / 10,
                        d <= 9,
                ;
                assert(v@.subrange(start as int, i + 1) =~= digits.take(i + 1 - start));
                if all_digits(digits) {
                    lemma_digits_value_monotone(digits, i + 1 - start);
                }
            }
            return None;
        }
        assert(value * 10 + d <= usize::MAX) by (nonlinear_arith)
            requires
                value <= (usize::MAX - d) / 10,
                d <= 9,
        ;
        value = value * 10 + d;
        i += 1;
    }
    assert(v@.subrange(start as int, v.len() as int) =~= digits);
    Some(value)
}

/// A prefix of a digit string is worth at most the whole string.
proof fn lemma_digits_value_monotone(s: Seq<char>, k: int)
    requires
        0 <= k <= s.len(),
        all_digits(s),
    ensures
        digits_value(s.take(k)) <= digits_value(s),
    decreases s.len() - k,
{
    if k < s.len() {
        lemma_digits_value_monotone(s, k + 1);
        assert(s.take(k + 1).drop_last() =~= s.take(k));
        assert(is_digit(s[k]));
    } else {
        assert(s.take(k) =~= s);
    }
}

/// What `str::parse::<i32>` gives: an optional sign then one or more ASCII
/// digits whose signed value fits in `i32`; anything else fails.
pub open spec fn parse_i32(s: Seq<char>) -> Option<i32> {
    if s.len() > 0 && s[0] == '-' {
        let d = s.skip(1);
        if d.len() > 0 && all_digits(d) && digits_value(d) <= 2147483648 {
            Some((0 - digits_value(d)) as i32)
        } else {
            None
        }
    } else {
        let d = unsigned_digits(s);
        if d.len() > 0 && all_digits(d) && digits_value(d) <= 2147483647 {
            Some(digits_value(d) as i32)
        } else {
            None
        }
    }
}

/// The value of the characters of `v` from `start` on, when they are all
/// digits and worth at most `limit`.
fn digits_up_to(v: &Vec<char>, start: usize, limit: u64) -> (r: Option<u64>)
    requires
        start <= v@.len(),
        limit <= 4294967296,
    ensures
        match r {
            Some(x) => all_digits(v@.skip(start as int)) && x == digits_value(v@.skip(start as int)) && x <= limit,
            None => !(all_digits(v@.skip(start as int)) && digits_value(v@.skip(start as int)) <= limit),
        },
{
    let ghost digits = v@.skip(start as int);
    let mut value: u64 = 0;
    let mut i: usize = start;
    assert(v@.subrange(start as int, start as int) =~= Seq::<char>::empty());
    while i < v.len()
        invariant
            start <= i <= v@.len(),
            digits == v@.skip(start as int),
            limit <= 4294967296,
            forall|k: int| start <= k < i ==> is_digit(#[trigger] v@[k]),
            value == digits_value(v@.subrange(start as int, i as int)),
            value <= limit,
        decreases v.len() - i,
    {
        let c = v[i];
        if !('0' <= c && c <= '9') {
            assert(!is_digit(digits[i - start]));
            return None;
        }
        let d = (c as u32 - '0' as u32) as u64;
        assert(v@.subrange(start as int, i + 1).drop_last() =~= v@.subrange(start as int, i as int));
        assert(d == (c as int) - ('0' as int));
        assert(value * 10 + d <= 42949672969) by (nonlinear_arith)
            requires
                value <= 4294967296,
                d <= 9,
        ;
        let next = value * 10 + d;
        assert(next == digits_value(v@.subrange(start as int, i + 1)));
        if next > limit {
            proof {
                assert(v@.subrange(start as int, i + 1) =~= digits.take(i + 1 - start));
                if all_digits(digits) {
                    lemma_digits_value_monotone(digits, i + 1 - start);
                }
            }
            return None;
        }
        value = next;
        i += 1;
    }
    assert(v@.subrange(start as int, v.len() as int) =~= digits);
    Some(value)
}

/// Parses a decimal `i32` as `str::parse` does.
pub fn parse_i32_exec(s: &str) -> (r: Option<i32>)
    ensures
        r == parse_i32(s@),
{
    let v = to_chars(s);
    if v.len() > 0 && v[0] == '-' {
        if v.len() == 1 {
            return None;
        }
        match digits_up_to(&v, 1, 2147483648) {
            Some(x) => Some((0 - (x as i64)) as i32),
            None => None,
        }
    } else {
        let start: usize = if v.len() > 0 && v[0] == '+' {
            1
        } else {
            0
        };
        assert(unsigned_digits(s@) =~= v@.skip(start as int));
        if start >= v.len() {
            return None;
        }
        match digits_up_to(&v, start, 2147483647) {
            Some(x) => Some(x as i32),
            None => None,
        }
    }
}

/// The lines of a text as `str::lines` gives them: split at `\n`, a `\r`
/// before a `\n` dropped, no final empty line after a trailing `\n`.
pub open spec fn text_lines(s: Seq<char>) -> Seq<Seq<char>> {
    let parts = split_on(s, '\n');
    let ended = parts.drop_last().map_values(
        |p: Seq<char>| if p.len() > 0 && p.last() == '\r' { p.drop_last() } else { p },
    );
    if parts.last().len() == 0 {
        ended
    } else {
        ended.push(parts.last())
    }
}

/// The text between the first `sep` and the next one (or the end).
pub open spec fn second_piece(msg: Seq<char>, sep: Seq<char>) -> Option<Seq<char>> {
    match occurrence_from(msg, sep, 0) {
        Some(k) => {
            let rest = msg.skip(k + sep.len());
            Some(
                match occurrence_from(rest, sep, 0) {
                    Some(j) => rest.take(j),
                    None => rest,
                },
            )
        },
        None => None,
    }
}

/// The line number an error message gives after `line: ` (up to a comma,
/// trimmed), if it parses.
pub open spec fn error_line_number(msg: Seq<char>) -> Option<usize> {
    match second_piece(msg, "line: "@) {
        Some(after) => parse_usize(trim(split_on(after, ',')[0])),
        None => None,
    }
}

/// Where a CSV error points: the line number the message gives and that
/// line of the text, when the message gives one within the text.
pub open spec fn error_line(msg: Seq<char>, content: Seq<char>) -> Option<(usize, Seq<char>)> {
    match error_line_number(msg) {
        Some(n) => if 0 < n <= text_lines(content).len() {
            Some((n, text_lines(content)[n - 1]))
        } else {
            None
        },
        None => None,
    }
}

/// The lines of a text.
fn lines_of(s: &str) -> (r: Vec<String>)
    ensures
        views(r@) == text_lines(s@),
{
    let parts = split_char(s, '\n');
    proof {
        crate::text::lemma_split_on_nonempty(s@, '\n');
    }
    let mut r: Vec<String> = Vec::new();
    let mut i: usize = 0;
    let n = parts.len();
    let ghost ended = split_on(s@, '\n').drop_last().map_values(
        |p: Seq<char>| if p.len() > 0 && p.last() == '\r' { p.drop_last() } else { p },
    );
    while i + 1 < n
        invariant
            n == parts.len(),
            n >= 1,
            i + 1 <= n,
            views(parts@) == split_on(s@, '\n'),
            ended == split_on(s@, '\n').drop_last().map_values(
                |p: Seq<char>| if p.len() > 0 && p.last() == '\r' { p.drop_last() } else { p },
            ),
            views(r@) == ended.take(i as int),
        decreases n - i,
    {
        let v = to_chars(parts[i].as_str());
        let line = if v.len() > 0 && v[v.len() - 1] == '\r' {
            substring(&v, 0, v.len() - 1)
        } else {
            assert(v@.subrange(0, v.len() as int) =~= v@);
            substring(&v, 0, v.len())
        };
        assert(views(parts@)[i as int] == parts@[i as int]@);
        let ghost before = views(r@);
        r.push(line);
        assert(views(r@) =~= before.push(ended[i as int]));
        assert(ended.take(i + 1) =~= ended.take(i as int).push(ended[i as int]));
        i += 1;
    }
    assert(ended.take(i as int) =~= ended);
    assert(views(parts@)[n - 1] == parts@[n - 1]@);
    if to_chars(parts[n - 1].as_str()).len() > 0 {
        let ghost before = views(r@);
        r.push(parts[n - 1].clone());
        assert(views(r@) =~= before.push(split_on(s@, '\n').last()));
    }
    r
}

/// Finds the line a CSV error message points at (`line: <n>` in the
/// message) and returns its number and text.
pub fn extract_error_line(error_msg: &str, csv_content: &str) -> (r: Option<(usize, String)>)
    ensures
        match error_line(error_msg@, csv_content@) {
            Some((n, line)) => r matches Some((m, l)) && m == n && l@ == line,
            None => r is None,
        },
{
    let msg = to_chars(error_msg);
    let sep = to_chars("line: ");
    let k = match find_seq(&msg, &sep, 0) {
        Some(k) => k,
        None => return None,
    };
    let rest = to_chars(substring(&msg, k + sep.len(), msg.len()).as_str());
    assert(rest@ =~= msg@.skip(k + sep@.len()));
    let piece = match find_seq(&rest, &sep, 0) {
        Some(j) => substring(&rest, 0, j),
        None => substring(&rest, 0, rest.len()),
    };
    assert(rest@.subrange(0, rest.len() as int) =~= rest@);
    proof {
        assert(second_piece(error_msg@, "line: "@) == Some(piece@)) by {
            match occurrence_from(rest@, sep@, 0) {
                Some(j) => {
                    assert(rest@.subrange(0, j) =~= rest@.take(j));
                },
                None => {},
            }
        }
    }
    let fields = split_char(piece.as_str(), ',');
    proof {
        crate::text::lemma_split_on_nonempty(piece@, ',');
    }
    assert(views(fields@)[0] == fields@[0]@);
    let n = match parse_usize_exec(trim_str(fields[0].as_str()).as_str()) {
        Some(n) => n,
        None => return None,
    };
    let lines = lines_of(csv_content);
    if n > 0 && n <= lines.len() {
        assert(views(lines@)[n - 1] == lines@[n - 1]@);
        Some((n, lines[n - 1].clone()))
    } else {
        None
    }
}

} // verus!
