//! The catalogue API's request rules: query defaults, checking titles
//! against the catalogue before generating movie cards, planning the
//! generation stream, and chat session previews.

use vstd::prelude::*;
use crate::models::{actor_names, director_name, FullMovie};
use crate::text::{
    from_chars, has_prefix, spec_lowercase, starts_with_at, substring, to_chars, to_lowercase,
    views,
};

verus! {

// ---------------------------------------------------------------------------
// Requests and their defaults
// ---------------------------------------------------------------------------

/// Request to generate movie data from titles using AI.
pub struct GenerateMoviesRequest {
    pub titles: Vec<String>,
    pub model: Option<String>,
    /// Chip positions parallel to titles, for ordering on the frontend.
    pub positions: Vec<usize>,
}

/// Query of the random-movies endpoint.
pub struct RandomMoviesQuery {
    pub count: i64,
}

/// Query of the recent-releases endpoint.
pub struct RecentReleasesQuery {
    pub min_year: i32,
    pub max_year: i32,
    pub limit: i64,
}

/// Random movies returned when the query gives no count.
pub fn default_count() -> (r: i64)
    ensures
        r == 3,
{
    3
}

/// Earliest release year when the query gives none.
pub fn default_min_year() -> (r: i32)
    ensures
        r == 2020,
{
    2020
}

/// Latest release year when the query gives none.
pub fn default_max_year() -> (r: i32)
    ensures
        r == 2026,
{
    2026
}

/// Movies returned when the query gives no limit.
pub fn default_limit() -> (r: i64)
    ensures
        r == 50,
{
    50
}

/// Why a generation request is refused before any work.
pub open spec fn generation_request_error(titles: Seq<String>) -> Option<Seq<char>> {
    if titles.len() == 0 {
        Some("No movie titles provided"@)
    } else {
        None
    }
}

/// The refusal of a request without titles, if it is one.
pub fn check_generation_request(request: &GenerateMoviesRequest) -> (r: Option<String>)
    ensures
        match r {
            Some(e) => generation_request_error(request.titles@) == Some(e@),
            None => generation_request_error(request.titles@) is None,
        },
{
    if request.titles.len() == 0 {
        Some(String::from_str("No movie titles provided"))
    } else {
        None
    }
}

// ---------------------------------------------------------------------------
// Chat session previews
// ---------------------------------------------------------------------------

/// A stored chat turn.
pub struct StoredChatMessage {
    pub role: String,
    pub content: String,
}

/// Chat session with first query preview.
pub struct ChatSessionWithPreview {
    pub id: i32,
    pub session_id: String,
    pub created_at: String,
    pub updated_at: String,
    pub first_query: Option<String>,
}

/// The content of the first turn written by the user, if any.
pub open spec fn first_user_content(messages: Seq<StoredChatMessage>) -> Option<Seq<char>>
    decreases messages.len(),
{
    if messages.len() == 0 {
        None
    } else if messages[0].role@ == "user"@ {
        Some(messages[0].content@)
    } else {
        first_user_content(messages.drop_first())
    }
}

/// The content of the first turn written by the user, if any.
pub fn first_user_query(messages: &Vec<StoredChatMessage>) -> (r: Option<String>)
    ensures
        match r {
            Some(c) => first_user_content(messages@) == Some(c@),
            None => first_user_content(messages@) is None,
        },
{
    let user = String::from_str("user");
    let mut i: usize = 0;
    assert(messages@.skip(0) =~= messages@);
    while i < messages.len()
        invariant
            i <= messages.len(),
            user@ == "user"@,
            first_user_content(messages@) == first_user_content(messages@.skip(i as int)),
        decreases messages.len() - i,
    {
        assert(messages@.skip(i as int).drop_first() =~= messages@.skip(i + 1));
        if messages[i].role == user {
            return Some(messages[i].content.clone());
        }
        i += 1;
    }
    None
}

/// A session listed with the first thing the user asked in it; when its
/// history could not be read there is no preview.
pub fn session_preview(
    id: i32,
    session_id: String,
    created_at: String,
    updated_at: String,
    history: Option<Vec<StoredChatMessage>>,
) -> (r: ChatSessionWithPreview)
    ensures
        r.id == id,
        r.session_id == session_id,
        r.created_at == created_at,
        r.updated_at == updated_at,
        match history {
            Some(h) => match r.first_query {
                Some(q) => first_user_content(h@) == Some(q@),
                None => first_user_content(h@) is None,
            },
            None => r.first_query is None,
        },
{
    let first_query = match &history {
        Some(h) => first_user_query(h),
        None => None,
    };
    ChatSessionWithPreview { id, session_id, created_at, updated_at, first_query }
}

// ---------------------------------------------------------------------------
// Titles against the catalogue
// ---------------------------------------------------------------------------

/// `s` without a leading `"the "`.
pub open spec fn strip_the(s: Seq<char>) -> Seq<char> {
    if has_prefix(s, "the "@) {
        s.subrange(4, s.len() as int)
    } else {
        s
    }
}

/// Whether a lowercased title is in the lowercased catalogue names, also
/// when one side lacks a leading `"the "`.
pub open spec fn catalog_has(catalog: Seq<Seq<char>>, s: Seq<char>) -> bool {
    ||| catalog.contains(s)
    ||| catalog.contains(strip_the(s))
    ||| exists|i: int| 0 <= i < catalog.len() && #[trigger] strip_the(catalog[i]) == strip_the(s)
}

/// The lowercased names of the catalogue's movies.
pub open spec fn lowered_names(catalog: Seq<FullMovie>) -> Seq<Seq<char>> {
    catalog.map_values(|m: FullMovie| spec_lowercase(m.name@))
}

/// The spelling corrections to use: the model's, when it answered with one
/// per title, else the titles themselves.
pub open spec fn chosen_corrections(titles: Seq<Seq<char>>, correction: Option<Seq<Seq<char>>>) -> Seq<Seq<char>> {
    match correction {
        Some(c) => if c.len() == titles.len() {
            c
        } else {
            titles
        },
        None => titles,
    }
}

/// The views of an optional list of strings.
pub open spec fn opt_views(v: Option<Vec<String>>) -> Option<Seq<Seq<char>>> {
    match v {
        Some(c) => Some(views(c@)),
        None => None,
    }
}

/// `s` without a leading `"the "`.
pub fn strip_the_exec(s: &str) -> (r: String)
    ensures
        r@ == strip_the(s@),
{
    let v = to_chars(s);
    assert(v@.subrange(0, v.len() as int) =~= v@);
    if starts_with_at(&v, 0, v.len(), "the ") {
        proof {
            reveal_strlit("the ");
        }
        substring(&v, 4, v.len())
    } else {
        from_chars(&v)
    }
}

/// The lowercased names of the catalogue's movies.
pub fn catalog_names(catalog: &Vec<FullMovie>) -> (r: Vec<String>)
    ensures
        views(r@) == lowered_names(catalog@),
{
    let mut r: Vec<String> = Vec::new();
    let mut i: usize = 0;
    while i < catalog.len()
        invariant
            i <= catalog.len(),
            views(r@) == lowered_names(catalog@.take(i as int)),
        decreases catalog.len() - i,
    {
        r.push(to_lowercase(catalog[i].name.as_str()));
        assert(lowered_names(catalog@.take(i + 1)) =~= lowered_names(catalog@.take(i as int)).push(
            spec_lowercase(catalog@[i as int].name@),
        ));
        assert(views(r@) =~= lowered_names(catalog@.take(i + 1)));
        i += 1;
    }
    assert(catalog@.take(catalog.len() as int) =~= catalog@);
    r
}

/// Whether a lowercased title is in the catalogue names.
pub fn in_catalog(catalog: &Vec<String>, s: &String) -> (r: bool)
    ensures
        r == catalog_has(views(catalog@), s@),
{
    let stripped = strip_the_exec(s.as_str());
    let mut i: usize = 0;
    while i < catalog.len()
        invariant
            i <= catalog.len(),
            stripped@ == strip_the(s@),
            forall|k: int|
                0 <= k < i ==> #[trigger] views(catalog@)[k] != s@ && views(catalog@)[k] != strip_the(s@)
                    && strip_the(views(catalog@)[k]) != strip_the(s@),
        decreases catalog.len() - i,
    {
        let c_stripped = strip_the_exec(catalog[i].as_str());
        assert(views(catalog@)[i as int] == catalog@[i as int]@);
        if catalog[i] == *s || catalog[i] == stripped || c_stripped == stripped {
            return true;
        }
        assert(views(catalog@)[i as int] != s@);
        assert(views(catalog@)[i as int] != strip_the(s@));
        assert(strip_the(views(catalog@)[i as int]) != strip_the(s@));
        i += 1;
    }
    assert forall|k: int| 0 <= k < views(catalog@).len() implies views(catalog@)[k] != s@ by {}
    assert forall|k: int| 0 <= k < views(catalog@).len() implies views(catalog@)[k] != strip_the(s@) by {}
    false
}

/// The spelling corrections to use.
pub fn corrections_or_originals(titles: &Vec<String>, correction: Option<Vec<String>>) -> (r: Vec<String>)
    ensures
        views(r@) == chosen_corrections(views(titles@), opt_views(correction)),
{
    match correction {
        Some(c) => if c.len() == titles.len() {
            c
        } else {
            titles.clone()
        },
        None => titles.clone(),
    }
}

/// Per-title status: already in catalog and/or a spelling suggestion.
pub struct TitleValidation {
    pub original: String,
    pub already_in_catalog: bool,
    pub suggestion: Option<String>,
}

/// Whether the title, as typed or as corrected, is in the catalogue.
pub open spec fn already_in(catalog: Seq<Seq<char>>, original: Seq<char>, corrected: Seq<char>) -> bool {
    catalog_has(catalog, spec_lowercase(corrected)) || catalog_has(catalog, spec_lowercase(original))
}

/// The suggestion for a title: the correction, when the title is not in
/// the catalogue and the correction differs from it other than in case.
pub open spec fn suggestion_for(catalog: Seq<Seq<char>>, original: Seq<char>, corrected: Seq<char>) -> Option<Seq<char>> {
    if already_in(catalog, original, corrected) {
        None
    } else if spec_lowercase(corrected) != spec_lowercase(original) {
        Some(corrected)
    } else {
        None
    }
}

/// A spelling suggestion is only ever the correction itself, for a title
/// not in the catalogue whose correction differs from it other than in
/// case; a correction that only changes case is never suggested.
pub proof fn lemma_suggestion_only_on_real_change(catalog: Seq<Seq<char>>, original: Seq<char>, corrected: Seq<char>)
    ensures
        spec_lowercase(corrected) == spec_lowercase(original) ==> suggestion_for(catalog, original, corrected) is None,
        suggestion_for(catalog, original, corrected) matches Some(s) ==> s == corrected && spec_lowercase(corrected)
            != spec_lowercase(original) && !catalog_has(catalog, spec_lowercase(original)) && !catalog_has(
            catalog,
            spec_lowercase(corrected),
        ),
{
}

/// Checks each title against the catalogue. `correction` is the spelling
/// model's answer, one correction per title, when it gave one.
pub fn validate_titles(
    titles: &Vec<String>,
    correction: Option<Vec<String>>,
    catalog: &Vec<FullMovie>,
) -> (r: Vec<TitleValidation>)
    ensures
        r@.len() == titles@.len(),
        forall|i: int|
            0 <= i < titles@.len() ==> {
                let corr = chosen_corrections(views(titles@), opt_views(correction))[i];
                &&& (#[trigger] r@[i]).original@ == titles@[i]@
                &&& r@[i].already_in_catalog == already_in(lowered_names(catalog@), titles@[i]@, corr)
                &&& match r@[i].suggestion {
                    Some(s) => suggestion_for(lowered_names(catalog@), titles@[i]@, corr) == Some(s@),
                    None => suggestion_for(lowered_names(catalog@), titles@[i]@, corr) is None,
                }
            },
{
    let ghost corr_all = chosen_corrections(views(titles@), opt_views(correction));
    let corrected = corrections_or_originals(titles, correction);
    let names = catalog_names(catalog);
    let mut r: Vec<TitleValidation> = Vec::new();
    let mut i: usize = 0;
    while i < titles.len()
        invariant
            i <= titles.len(),
            views(corrected@) == corr_all,
            corr_all.len() == titles@.len(),
            views(names@) == lowered_names(catalog@),
            r@.len() == i,
            forall|j: int|
                0 <= j < i ==> {
                    &&& (#[trigger] r@[j]).original@ == titles@[j]@
                    &&& r@[j].already_in_catalog == already_in(lowered_names(catalog@), titles@[j]@, corr_all[j])
                    &&& match r@[j].suggestion {
                        Some(s) => suggestion_for(lowered_names(catalog@), titles@[j]@, corr_all[j]) == Some(s@),
                        None => suggestion_for(lowered_names(catalog@), titles@[j]@, corr_all[j]) is None,
                    }
                },
        decreases titles.len() - i,
    {
        assert(views(corrected@)[i as int] == corrected@[i as int]@);
        let original_lower = to_lowercase(titles[i].as_str());
        let corrected_lower = to_lowercase(corrected[i].as_str());
        let already = in_catalog(&names, &corrected_lower) || in_catalog(&names, &original_lower);
        let suggestion = if already {
            None
        } else if corrected_lower != original_lower {
            Some(corrected[i].clone())
        } else {
            None
        };
        r.push(TitleValidation { original: titles[i].clone(), already_in_catalog: already, suggestion });
        i += 1;
    }
    r
}

// ---------------------------------------------------------------------------
// Planning the generation stream
// ---------------------------------------------------------------------------

/// Why a title needs the user before a card can be generated.
#[derive(Debug)]
pub enum NeedsInputReason {
    /// The title looks misspelt; this is the proposed spelling.
    Suggestion(String),
}

/// A movie card.
#[derive(Debug)]
pub struct AiMovieData {
    pub title: String,
    pub year: i32,
    pub description: String,
    pub actors: Vec<String>,
    pub genres: Vec<String>,
    pub director: String,
    pub already_in_catalog: bool,
    pub input_title: Option<String>,
    pub position: usize,
}

/// One event of the generation stream.
#[derive(Debug)]
pub enum GenerateStreamEvent {
    /// A finished card.
    Movie(AiMovieData),
    /// A title that needs the user's decision.
    NeedsInput { original: String, reason: NeedsInputReason, position: usize },
}

/// What happens to one title of a generation request.
#[derive(Debug, Clone, Copy, PartialEq, Eq)]
pub enum TitleOutcome {
    /// The catalogue already has it: its card is sent as is.
    InCatalog,
    /// A spelling suggestion is sent for the user to accept.
    NeedsInput,
    /// A card is generated for it.
    Generate,
}

/// The first catalogue index from `j` on whose lowercased name equals the
/// lowercased title, also when one side lacks a leading `"the "`.
pub open spec fn match_from(catalog: Seq<Seq<char>>, s: Seq<char>, j: int) -> Option<int>
    decreases catalog.len() - j,
{
    if j >= catalog.len() || j < 0 {
        None
    } else if catalog[j] == s || strip_the(catalog[j]) == strip_the(s) {
        Some(j)
    } else {
        match_from(catalog, s, j + 1)
    }
}

/// The catalogue entry a title stands for: looked up as corrected, then
/// as typed.
pub open spec fn catalog_match(catalog: Seq<Seq<char>>, original: Seq<char>, corrected: Seq<char>) -> Option<int> {
    match match_from(catalog, spec_lowercase(corrected), 0) {
        Some(k) => Some(k),
        None => match_from(catalog, spec_lowercase(original), 0),
    }
}

/// What happens to a title.
pub open spec fn outcome_of(catalog: Seq<Seq<char>>, original: Seq<char>, corrected: Seq<char>) -> TitleOutcome {
    if catalog_match(catalog, original, corrected) is Some {
        TitleOutcome::InCatalog
    } else if spec_lowercase(corrected) != spec_lowercase(original) {
        TitleOutcome::NeedsInput
    } else {
        TitleOutcome::Generate
    }
}

/// In a generation plan a title is only put to the user when its
/// correction differs from it other than in case and neither is in the
/// catalogue.
pub proof fn lemma_plan_asks_only_on_real_change(catalog: Seq<Seq<char>>, original: Seq<char>, corrected: Seq<char>)
    ensures
        spec_lowercase(corrected) == spec_lowercase(original) ==> outcome_of(catalog, original, corrected)
            != TitleOutcome::NeedsInput,
        outcome_of(catalog, original, corrected) == TitleOutcome::NeedsInput ==> spec_lowercase(corrected)
            != spec_lowercase(original) && catalog_match(catalog, original, corrected) is None,
{
}

/// The position of title `i`: the one given for it, else its index.
pub open spec fn position_of(positions: Seq<usize>, i: int) -> int {
    if 0 <= i < positions.len() {
        positions[i] as int
    } else {
        i
    }
}

/// The indices below `n` whose outcome is (`generate`) or is not
/// (`!generate`) `Generate`, in order.
pub open spec fn indices_where(outcomes: Seq<TitleOutcome>, n: int, generate: bool) -> Seq<int>
    decreases n,
{
    if n <= 0 {
        Seq::empty()
    } else {
        let rest = indices_where(outcomes, n - 1, generate);
        if (outcomes[n - 1] == TitleOutcome::Generate) == generate {
            rest.push(n - 1)
        } else {
            rest
        }
    }
}

/// Every requested title is handled exactly once: its index is either among
/// those answered by an event or among those generated, never both, and
/// each list is in request order.
pub proof fn lemma_every_title_handled_once(outcomes: Seq<TitleOutcome>, n: int)
    requires
        0 <= n <= outcomes.len(),
    ensures
        indices_where(outcomes, n, false).len() + indices_where(outcomes, n, true).len() == n,
        forall|k: int|
            0 <= k < n ==> (indices_where(outcomes, n, false).contains(k) != indices_where(outcomes, n, true).contains(k)),
        forall|a: int, b: int|
            0 <= a < b < indices_where(outcomes, n, false).len() ==> indices_where(outcomes, n, false)[a]
                < indices_where(outcomes, n, false)[b],
        forall|a: int, b: int|
            0 <= a < b < indices_where(outcomes, n, true).len() ==> indices_where(outcomes, n, true)[a]
                < indices_where(outcomes, n, true)[b],
    decreases n,
{
    lemma_indices_below(outcomes, n, false);
    lemma_indices_below(outcomes, n, true);
    if n > 0 {
        lemma_every_title_handled_once(outcomes, n - 1);
        let ev = indices_where(outcomes, n, false);
        let gen = indices_where(outcomes, n, true);
        let ev0 = indices_where(outcomes, n - 1, false);
        let gen0 = indices_where(outcomes, n - 1, true);
        lemma_indices_below(outcomes, n - 1, false);
        lemma_indices_below(outcomes, n - 1, true);
        assert forall|k: int| 0 <= k < n implies (ev.contains(k) != gen.contains(k)) by {
            if k < n - 1 {
                if ev.contains(k) && !ev0.contains(k) {
                    let a = choose|a: int| 0 <= a < ev.len() && ev[a] == k;
                    if a < ev0.len() {
                        assert(ev[a] == ev0[a]);
                    }
                }
                if gen.contains(k) && !gen0.contains(k) {
                    let a = choose|a: int| 0 <= a < gen.len() && gen[a] == k;
                    if a < gen0.len() {
                        assert(gen[a] == gen0[a]);
                    }
                }
                if ev0.contains(k) {
                    let a = choose|a: int| 0 <= a < ev0.len() && ev0[a] == k;
                    assert(ev[a] == ev0[a]);
                }
                if gen0.contains(k) {
                    let a = choose|a: int| 0 <= a < gen0.len() && gen0[a] == k;
                    assert(gen[a] == gen0[a]);
                }
            } else {
                if outcomes[n - 1] == TitleOutcome::Generate {
                    assert(gen[gen.len() - 1] == n - 1);
                    if ev.contains(k) {
                        let a = choose|a: int| 0 <= a < ev.len() && ev[a] == k;
                        assert(ev[a] == ev0[a]);
                    }
                } else {
                    assert(ev[ev.len() - 1] == n - 1);
                    if gen.contains(k) {
                        let a = choose|a: int| 0 <= a < gen.len() && gen[a] == k;
                        assert(gen[a] == gen0[a]);
                    }
                }
            }
        }
    }
}

/// The indices kept among the first `n` are below `n`.
proof fn lemma_indices_below(outcomes: Seq<TitleOutcome>, n: int, generate: bool)
    ensures
        forall|a: int| 0 <= a < indices_where(outcomes, n, generate).len() ==> 0 <= #[trigger] indices_where(outcomes, n, generate)[a] < n,
    decreases n,
{
    if n > 0 {
        lemma_indices_below(outcomes, n - 1, generate);
        let rest = indices_where(outcomes, n - 1, generate);
        let all = indices_where(outcomes, n, generate);
        assert forall|a: int| 0 <= a < all.len() implies 0 <= #[trigger] all[a] < n by {
            if a < rest.len() {
                assert(all[a] == rest[a]);
            }
        }
    }
}

/// `d` is the card of catalogue movie `m` for a title typed as `original`
/// at `position`.
pub open spec fn is_catalog_card(d: AiMovieData, m: FullMovie, original: Seq<char>, position: int) -> bool {
    &&& d.title@ == m.name@
    &&& d.year == m.release_year
    &&& d.description@ == (match m.description {
        Some(s) => s@,
        None => Seq::empty(),
    })
    &&& views(d.actors@) == actor_names(m)
    &&& views(d.genres@) == views(m.genres@)
    &&& d.director@ == (match director_name(m) {
        Some(n) => n,
        None => Seq::empty(),
    })
    &&& d.already_in_catalog
    &&& d.input_title matches Some(t) && t@ == original
    &&& d.position == position
}

/// `e` is the event sent up front for title `i`.
pub open spec fn is_event_for(
    e: GenerateStreamEvent,
    catalog: Seq<FullMovie>,
    titles: Seq<Seq<char>>,
    corrected: Seq<Seq<char>>,
    positions: Seq<usize>,
    i: int,
) -> bool {
    match catalog_match(lowered_names(catalog), titles[i], corrected[i]) {
        Some(k) => e matches GenerateStreamEvent::Movie(d) && is_catalog_card(
            d,
            catalog[k],
            titles[i],
            position_of(positions, i),
        ),
        None => e matches GenerateStreamEvent::NeedsInput { original, reason, position } && original@
            == titles[i] && (reason matches NeedsInputReason::Suggestion(s) && s@ == corrected[i])
            && position == position_of(positions, i),
    }
}

/// A match found from `j` on is at or after `j` and is a real match.
pub proof fn lemma_match_from_props(catalog: Seq<Seq<char>>, s: Seq<char>, j: int)
    ensures
        match_from(catalog, s, j) matches Some(k) ==> 0 <= j <= k < catalog.len() && (catalog[k] == s
            || strip_the(catalog[k]) == strip_the(s)),
    decreases catalog.len() - j,
{
    if j < catalog.len() && j >= 0 && !(catalog[j] == s || strip_the(catalog[j]) == strip_the(s)) {
        lemma_match_from_props(catalog, s, j + 1);
    }
}

/// The outcome of every title.
pub open spec fn outcomes_of(catalog: Seq<FullMovie>, titles: Seq<Seq<char>>, corrected: Seq<Seq<char>>) -> Seq<TitleOutcome> {
    Seq::new(titles.len(), |i: int| outcome_of(lowered_names(catalog), titles[i], corrected[i]))
}

/// The work a generation stream does: the events sent at once (catalogue
/// cards and spelling questions) and the titles, with their positions, to
/// generate cards for, each in request order.
pub struct GenerationPlan {
    pub events: Vec<GenerateStreamEvent>,
    pub clean_titles: Vec<(String, usize)>,
}

/// The first catalogue index whose lowercased name matches the lowercased
/// title.
fn find_in_catalog(names: &Vec<String>, lower: &String) -> (r: Option<usize>)
    ensures
        match r {
            Some(k) => match_from(views(names@), lower@, 0) == Some(k as int),
            None => match_from(views(names@), lower@, 0) is None,
        },
{
    let stripped = strip_the_exec(lower.as_str());
    let mut i: usize = 0;
    while i < names.len()
        invariant
            i <= names.len(),
            stripped@ == strip_the(lower@),
            match_from(views(names@), lower@, 0) == match_from(views(names@), lower@, i as int),
        decreases names.len() - i,
    {
        assert(views(names@)[i as int] == names@[i as int]@);
        let c_stripped = strip_the_exec(names[i].as_str());
        if names[i] == *lower || c_stripped == stripped {
            return Some(i);
        }
        i += 1;
    }
    None
}

/// The names of a movie's cast.
fn cast_names(m: &FullMovie) -> (r: Vec<String>)
    ensures
        views(r@) == actor_names(*m),
{
    let mut r: Vec<String> = Vec::new();
    let mut i: usize = 0;
    while i < m.actors.len()
        invariant
            i <= m.actors.len(),
            views(r@) == actor_names(*m).take(i as int),
        decreases m.actors.len() - i,
    {
        let ghost before = views(r@);
        r.push(m.actors[i].name.clone());
        assert(actor_names(*m)[i as int] == m.actors@[i as int].name@);
        assert(views(r@) =~= before.push(m.actors@[i as int].name@));
        assert(actor_names(*m).take(i + 1) =~= actor_names(*m).take(i as int).push(actor_names(*m)[i as int]));
        i += 1;
    }
    assert(actor_names(*m).take(m.actors.len() as int) =~= actor_names(*m));
    r
}

/// The card of a catalogue movie for a title typed as `original`.
fn catalog_card(m: &FullMovie, original: String, position: usize) -> (d: AiMovieData)
    ensures
        is_catalog_card(d, *m, original@, position as int),
{
    AiMovieData {
        title: m.name.clone(),
        year: m.release_year,
        description: match &m.description {
            Some(s) => s.clone(),
            None => String::new(),
        },
        actors: cast_names(m),
        genres: m.genres.clone(),
        director: match &m.director {
            Some(d) => d.name.clone(),
            None => String::new(),
        },
        already_in_catalog: true,
        input_title: Some(original),
        position,
    }
}

/// Plans a generation stream: each title found in the catalogue (as
/// corrected, then as typed) gets its catalogue card, each other title
/// whose correction differs gets a spelling question, and the rest are
/// generated. `correction` is the spelling model's answer, when it gave
/// one; positions default to the title's index.
pub fn plan_generation(
    titles: &Vec<String>,
    correction: Option<Vec<String>>,
    positions: &Vec<usize>,
    catalog: &Vec<FullMovie>,
) -> (r: GenerationPlan)
    ensures
        ({
            let corrected = chosen_corrections(views(titles@), opt_views(correction));
            let outcomes = outcomes_of(catalog@, views(titles@), corrected);
            let ev = indices_where(outcomes, titles@.len() as int, false);
            let gen = indices_where(outcomes, titles@.len() as int, true);
            &&& r.events@.len() == ev.len()
            &&& forall|j: int|
                0 <= j < ev.len() ==> is_event_for(
                    #[trigger] r.events@[j],
                    catalog@,
                    views(titles@),
                    corrected,
                    positions@,
                    ev[j],
                )
            &&& r.clean_titles@.len() == gen.len()
            &&& forall|j: int|
                0 <= j < gen.len() ==> (#[trigger] r.clean_titles@[j]).0@ == titles@[gen[j]]@
                    && r.clean_titles@[j].1 == position_of(positions@, gen[j])
        }),
{
    let ghost tv = views(titles@);
    let ghost corr_all = chosen_corrections(tv, opt_views(correction));
    let ghost outcomes = outcomes_of(catalog@, tv, corr_all);
    let corrected = corrections_or_originals(titles, correction);
    let names = catalog_names(catalog);
    let mut events: Vec<GenerateStreamEvent> = Vec::new();
    let mut clean: Vec<(String, usize)> = Vec::new();
    let mut i: usize = 0;
    while i < titles.len()
        invariant
            i <= titles.len(),
            tv == views(titles@),
            views(corrected@) == corr_all,
            corr_all.len() == titles@.len(),
            outcomes == outcomes_of(catalog@, tv, corr_all),
            views(names@) == lowered_names(catalog@),
            lowered_names(catalog@).len() == catalog@.len(),
            events@.len() == indices_where(outcomes, i as int, false).len(),
            forall|j: int|
                0 <= j < indices_where(outcomes, i as int, false).len() ==> is_event_for(
                    #[trigger] events@[j],
                    catalog@,
                    tv,
                    corr_all,
                    positions@,
                    indices_where(outcomes, i as int, false)[j],
                ),
            clean@.len() == indices_where(outcomes, i as int, true).len(),
            forall|j: int|
                0 <= j < indices_where(outcomes, i as int, true).len() ==> (#[trigger] clean@[j]).0@
                    == titles@[indices_where(outcomes, i as int, true)[j]]@ && clean@[j].1
                    == position_of(positions@, indices_where(outcomes, i as int, true)[j]),
        decreases titles.len() - i,
    {
        assert(views(corrected@)[i as int] == corrected@[i as int]@);
        assert(tv[i as int] == titles@[i as int]@);
        let original_lower = to_lowercase(titles[i].as_str());
        let corrected_lower = to_lowercase(corrected[i].as_str());
        let found = match find_in_catalog(&names, &corrected_lower) {
            Some(k) => Some(k),
            None => find_in_catalog(&names, &original_lower),
        };
        let pos = if i < positions.len() {
            positions[i]
        } else {
            i
        };
        let ghost ev_before = indices_where(outcomes, i as int, false);
        let ghost gen_before = indices_where(outcomes, i as int, true);
        assert(outcomes[i as int] == outcome_of(lowered_names(catalog@), tv[i as int], corr_all[i as int]));
        match found {
            Some(k) => {
                proof {
                    lemma_match_from_props(views(names@), corrected_lower@, 0);
                    lemma_match_from_props(views(names@), original_lower@, 0);
                }
                assert(k < catalog.len());
                let card = catalog_card(&catalog[k], titles[i].clone(), pos);
                events.push(GenerateStreamEvent::Movie(card));
                assert(indices_where(outcomes, i + 1, false) == ev_before.push(i as int));
                assert(indices_where(outcomes, i + 1, true) == gen_before);
            },
            None => {
                if corrected_lower != original_lower {
                    events.push(
                        GenerateStreamEvent::NeedsInput {
                            original: titles[i].clone(),
                            reason: NeedsInputReason::Suggestion(corrected[i].clone()),
                            position: pos,
                        },
                    );
                    assert(indices_where(outcomes, i + 1, false) == ev_before.push(i as int));
                    assert(indices_where(outcomes, i + 1, true) == gen_before);
                } else {
                    clean.push((titles[i].clone(), pos));
                    assert(indices_where(outcomes, i + 1, true) == gen_before.push(i as int));
                    assert(indices_where(outcomes, i + 1, false) == ev_before);
                }
            },
        }
        i += 1;
    }
    GenerationPlan { events, clean_titles: clean }
}

/// One item of the generation stream as sent: an event (its JSON is the
/// data), an `error` event with a text, or the final `done`.
#[derive(Debug)]
pub enum GenerationItem {
    Event(GenerateStreamEvent),
    Error(String),
    Done,
}

/// `item` is what the stream sends for a title generated from `result`:
/// the model's card, marked with the title as typed and its position, or
/// an `error` event with the model's error.
pub open spec fn is_generated_item(
    item: GenerationItem,
    title: Seq<char>,
    position: usize,
    result: Result<AiMovieData, String>,
) -> bool {
    match result {
        Ok(m) => item matches GenerationItem::Event(GenerateStreamEvent::Movie(c)) && c.title == m.title && c.year
            == m.year && c.description == m.description && c.actors == m.actors && c.genres == m.genres
            && c.director == m.director && c.already_in_catalog == m.already_in_catalog && (c.input_title matches Some(
            t) && t@ == title) && c.position == position,
        Err(e) => item matches GenerationItem::Error(x) && x@ == e@,
    }
}

/// What the stream sends for a title once the model answered: its card,
/// marked with the title as typed and its position, or an `error` event.
pub fn generated_item(title: String, position: usize, result: Result<AiMovieData, String>) -> (r: GenerationItem)
    ensures
        is_generated_item(r, title@, position, result),
{
    match result {
        Ok(m) => {
            let mut m = m;
            m.input_title = Some(title);
            m.position = position;
            GenerationItem::Event(GenerateStreamEvent::Movie(m))
        },
        Err(e) => GenerationItem::Error(e),
    }
}

/// The whole generation stream: the planned events (catalogue cards and
/// spelling questions) first, then one item per title to generate, from
/// the model's result for it, in order, then `done`.
pub fn generation_stream(plan: GenerationPlan, results: Vec<Result<AiMovieData, String>>) -> (r: Vec<GenerationItem>)
    requires
        results@.len() == plan.clean_titles@.len(),
    ensures
        r@.len() == plan.events@.len() + results@.len() + 1,
        forall|j: int| 0 <= j < plan.events@.len() ==> #[trigger] r@[j] == GenerationItem::Event(plan.events@[j]),
        forall|j: int|
            0 <= j < results@.len() ==> is_generated_item(
                #[trigger] r@[plan.events@.len() + j],
                plan.clean_titles@[j].0@,
                plan.clean_titles@[j].1,
                results@[j],
            ),
        r@.last() is Done,
{
    let ghost evs = plan.events@;
    let ghost titles = plan.clean_titles@;
    let ghost res = results@;
    let mut out: Vec<GenerationItem> = Vec::new();
    let mut events = plan.events;
    while events.len() > 0
        invariant
            out@.len() + events@.len() == evs.len(),
            events@ == evs.skip(out@.len() as int),
            forall|j: int| 0 <= j < out@.len() ==> #[trigger] out@[j] == GenerationItem::Event(evs[j]),
        decreases events.len(),
    {
        let ghost before = events@;
        let e = events.remove(0);
        assert(e == evs[out@.len() as int]);
        out.push(GenerationItem::Event(e));
        assert(events@ =~= evs.skip(out@.len() as int));
    }
    let n = out.len();
    let mut titles_left = plan.clean_titles;
    let mut results_left = results;
    assert(titles_left@ =~= titles.skip(0));
    assert(results_left@ =~= res.skip(0));
    while results_left.len() > 0
        invariant
            n == evs.len(),
            titles.len() == res.len(),
            out@.len() >= n,
            (out@.len() - n) + results_left@.len() == res.len(),
            titles_left@ == titles.skip(out@.len() - n),
            results_left@ == res.skip(out@.len() - n),
            forall|j: int| 0 <= j < n ==> #[trigger] out@[j] == GenerationItem::Event(evs[j]),
            forall|j: int|
                0 <= j < out@.len() - n ==> is_generated_item(
                    #[trigger] out@[n + j],
                    titles[j].0@,
                    titles[j].1,
                    res[j],
                ),
        decreases results_left.len(),
    {
        let k = out.len() - n;
        let result = results_left.remove(0);
        let (title, position) = titles_left.remove(0);
        let item = generated_item(title, position, result);
        out.push(item);
        assert(results_left@ =~= res.skip(out@.len() - n));
        assert(titles_left@ =~= titles.skip(out@.len() - n));
        assert(out@[n + k as int] == item);
    }
    out.push(GenerationItem::Done);
    out
}

} // verus!
