//! Entity extraction: which genres, people and leftover title text a free-text
//! query mentions, judged against the names the catalogue holds.

use vstd::prelude::*;
use crate::models::{actor_names, director_name, genre_names, FullMovie};
use crate::search::{norm, normalize};
use crate::text::{
    byte_len, collapse_whitespace, collapse_whitespace_chars, contains_seq, contains_str,
    has_prefix, has_suffix, replace_all, replace_str, spec_lowercase, split_whitespace,
    starts_with_str, ends_with_str, to_chars, to_lowercase, trim, trim_str, views,
    words,
};

verus! {

// ---------------------------------------------------------------------------
// Unique name lists
// ---------------------------------------------------------------------------

/// `acc` with `x` appended unless already present.
pub open spec fn add_unique(acc: Seq<Seq<char>>, x: Seq<char>) -> Seq<Seq<char>> {
    if acc.contains(x) {
        acc
    } else {
        acc.push(x)
    }
}

/// `acc` extended by the members of `xs` not yet present, in order.
pub open spec fn add_all_unique(acc: Seq<Seq<char>>, xs: Seq<Seq<char>>) -> Seq<Seq<char>>
    decreases xs.len(),
{
    if xs.len() == 0 {
        acc
    } else {
        add_unique(add_all_unique(acc, xs.drop_last()), xs.last())
    }
}

/// Each name lowercased.
pub open spec fn lowercased(xs: Seq<Seq<char>>) -> Seq<Seq<char>> {
    xs.map_values(|x: Seq<char>| spec_lowercase(x))
}

/// Distinct lowercased genres of the movies, in order of first appearance.
pub open spec fn catalogue_genres(movies: Seq<FullMovie>) -> Seq<Seq<char>>
    decreases movies.len(),
{
    if movies.len() == 0 {
        Seq::empty()
    } else {
        add_all_unique(catalogue_genres(movies.drop_last()), lowercased(genre_names(movies.last())))
    }
}

/// Distinct lowercased actor names of the movies, in order of first appearance.
pub open spec fn catalogue_actors(movies: Seq<FullMovie>) -> Seq<Seq<char>>
    decreases movies.len(),
{
    if movies.len() == 0 {
        Seq::empty()
    } else {
        add_all_unique(catalogue_actors(movies.drop_last()), lowercased(actor_names(movies.last())))
    }
}

/// Distinct lowercased director names of the movies, in order of first appearance.
pub open spec fn catalogue_directors(movies: Seq<FullMovie>) -> Seq<Seq<char>>
    decreases movies.len(),
{
    if movies.len() == 0 {
        Seq::empty()
    } else {
        let rest = catalogue_directors(movies.drop_last());
        match director_name(movies.last()) {
            Some(d) => add_unique(rest, spec_lowercase(d)),
            None => rest,
        }
    }
}

/// Appends `x` to `acc` unless an equal string is already there.
pub fn push_unique(acc: &mut Vec<String>, x: String)
    ensures
        views(final(acc)@) == add_unique(views(old(acc)@), x@),
{
    let mut i: usize = 0;
    while i < acc.len()
        invariant
            i <= acc.len(),
            forall|j: int| 0 <= j < i ==> acc@[j]@ != x@,
        decreases acc.len() - i,
    {
        if acc[i] == x {
            assert(views(acc@)[i as int] == x@);
            return;
        }
        i += 1;
    }
    assert(!views(acc@).contains(x@)) by {
        if views(acc@).contains(x@) {
            let k = choose|k: int| 0 <= k < views(acc@).len() && views(acc@)[k] == x@;
            assert(acc@[k]@ == x@);
        }
    }
    let ghost before = acc@;
    acc.push(x);
    assert(views(acc@) =~= views(before).push(x@));
}

/// Extracts all unique genres, actors and directors (lowercased) from the
/// movies, each list in order of first appearance.
pub fn extract_entities_from_movies(movies: &Vec<FullMovie>) -> (r: (Vec<String>, Vec<String>, Vec<String>))
    ensures
        views(r.0@) == catalogue_genres(movies@),
        views(r.1@) == catalogue_actors(movies@),
        views(r.2@) == catalogue_directors(movies@),
{
    let mut genres: Vec<String> = Vec::new();
    let mut actors: Vec<String> = Vec::new();
    let mut directors: Vec<String> = Vec::new();
    let mut i: usize = 0;
    assert(views(genres@) =~= Seq::<Seq<char>>::empty());
    assert(views(actors@) =~= Seq::<Seq<char>>::empty());
    assert(views(directors@) =~= Seq::<Seq<char>>::empty());
    while i < movies.len()
        invariant
            i <= movies.len(),
            views(genres@) == catalogue_genres(movies@.take(i as int)),
            views(actors@) == catalogue_actors(movies@.take(i as int)),
            views(directors@) == catalogue_directors(movies@.take(i as int)),
        decreases movies.len() - i,
    {
        let m = &movies[i];
        assert(movies@.take(i + 1).drop_last() =~= movies@.take(i as int));
        assert(movies@.take(i + 1).last() == *m);
        let ghost g0 = views(genres@);
        let mut k: usize = 0;
        while k < m.genres.len()
            invariant
                k <= m.genres.len(),
                views(genres@) == add_all_unique(g0, lowercased(genre_names(*m)).take(k as int)),
            decreases m.genres.len() - k,
        {
            assert(lowercased(genre_names(*m)).take(k + 1).drop_last() =~= lowercased(genre_names(*m)).take(k as int));
            assert(lowercased(genre_names(*m))[k as int] == spec_lowercase(m.genres@[k as int]@));
            push_unique(&mut genres, to_lowercase(m.genres[k].as_str()));
            k += 1;
        }
        assert(lowercased(genre_names(*m)).take(m.genres.len() as int) =~= lowercased(genre_names(*m)));
        let ghost a0 = views(actors@);
        let mut k: usize = 0;
        while k < m.actors.len()
            invariant
                k <= m.actors.len(),
                views(actors@) == add_all_unique(a0, lowercased(actor_names(*m)).take(k as int)),
            decreases m.actors.len() - k,
        {
            assert(lowercased(actor_names(*m)).take(k + 1).drop_last() =~= lowercased(actor_names(*m)).take(k as int));
            assert(lowercased(actor_names(*m))[k as int] == spec_lowercase(m.actors@[k as int].name@));
            push_unique(&mut actors, to_lowercase(m.actors[k].name.as_str()));
            k += 1;
        }
        assert(lowercased(actor_names(*m)).take(m.actors.len() as int) =~= lowercased(actor_names(*m)));
        match &m.director {
            Some(d) => push_unique(&mut directors, to_lowercase(d.name.as_str())),
            None => {},
        }
        i += 1;
    }
    assert(movies@.take(movies.len() as int) =~= movies@);
    (genres, actors, directors)
}

// ---------------------------------------------------------------------------
// Matching a query against known names
// ---------------------------------------------------------------------------

/// A query word equals the genre or its plural with a trailing `s`.
pub open spec fn genre_mentioned(query_words: Seq<Seq<char>>, genre: Seq<char>) -> bool {
    exists|k: int|
        0 <= k < query_words.len() && (#[trigger] query_words[k] == genre || query_words[k]
            == genre.push('s'))
}

/// The normalized genres the query mentions, without repeats, in catalogue order.
pub open spec fn matched_genres(all: Seq<Seq<char>>, query_words: Seq<Seq<char>>) -> Seq<Seq<char>>
    decreases all.len(),
{
    if all.len() == 0 {
        Seq::empty()
    } else {
        let acc = matched_genres(all.drop_last(), query_words);
        let g = norm(all.last());
        if genre_mentioned(query_words, g) {
            add_unique(acc, g)
        } else {
            acc
        }
    }
}

/// A word longer than three bytes counts as a significant name part.
pub open spec fn significant(w: Seq<char>) -> bool {
    byte_len(w) > 3
}

/// How many query words are significant.
pub open spec fn significant_count(ws: Seq<Seq<char>>) -> nat
    decreases ws.len(),
{
    if ws.len() == 0 {
        0
    } else {
        significant_count(ws.drop_last()) + if significant(ws.last()) {
            1nat
        } else {
            0nat
        }
    }
}

/// The name appears in the query as whole words.
pub open spec fn whole_name_in(query: Seq<char>, name: Seq<char>) -> bool {
    query == name || contains_seq(seq![' '] + query + seq![' '], seq![' '] + name + seq![' '])
}

/// Some significant part of the name is a query word.
pub open spec fn some_part_in(query_words: Seq<Seq<char>>, parts: Seq<Seq<char>>) -> bool {
    exists|i: int| 0 <= i < parts.len() && significant(#[trigger] parts[i]) && query_words.contains(parts[i])
}

/// Every significant part of the name is a query word.
pub open spec fn all_parts_in(query_words: Seq<Seq<char>>, parts: Seq<Seq<char>>) -> bool {
    forall|i: int| 0 <= i < parts.len() && significant(#[trigger] parts[i]) ==> query_words.contains(parts[i])
}

/// Whether the query names the person `name` (normalized): as whole words;
/// for a multi-word name, by a significant part (by all of them when the
/// query itself has two or more significant words); for a one-word name of
/// more than two bytes, as a standalone query word.
pub open spec fn person_mentioned(query: Seq<char>, query_words: Seq<Seq<char>>, name: Seq<char>) -> bool {
    let parts = words(name);
    if whole_name_in(query, name) {
        true
    } else if parts.len() > 1 && (if significant_count(query_words) >= 2 {
        all_parts_in(query_words, parts) && some_part_in(query_words, parts)
    } else {
        some_part_in(query_words, parts)
    }) {
        true
    } else {
        parts.len() == 1 && byte_len(parts[0]) > 2 && (query_words.contains(parts[0]) || query
            == parts[0] || has_prefix(query, parts[0].push(' ')) || has_suffix(
            query,
            seq![' '] + parts[0],
        ))
    }
}

/// The normalized people the query mentions, without repeats, in catalogue order.
pub open spec fn matched_people(all: Seq<Seq<char>>, query: Seq<char>, query_words: Seq<Seq<char>>) -> Seq<Seq<char>>
    decreases all.len(),
{
    if all.len() == 0 {
        Seq::empty()
    } else {
        let acc = matched_people(all.drop_last(), query, query_words);
        let n = norm(all.last());
        if person_mentioned(query, query_words, n) {
            add_unique(acc, n)
        } else {
            acc
        }
    }
}

/// Whether `ws` holds a string equal to `w`.
fn has_word(ws: &Vec<String>, w: &String) -> (r: bool)
    ensures
        r == views(ws@).contains(w@),
{
    let mut i: usize = 0;
    while i < ws.len()
        invariant
            i <= ws.len(),
            forall|j: int| 0 <= j < i ==> ws@[j]@ != w@,
        decreases ws.len() - i,
    {
        if ws[i] == *w {
            assert(views(ws@)[i as int] == w@);
            return true;
        }
        i += 1;
    }
    assert(!views(ws@).contains(w@)) by {
        if views(ws@).contains(w@) {
            let k = choose|k: int| 0 <= k < views(ws@).len() && views(ws@)[k] == w@;
            assert(ws@[k]@ == w@);
        }
    }
    false
}

/// Whether the genre (normalized) is mentioned by a query word.
fn genre_in_words(query_words: &Vec<String>, genre: &String) -> (r: bool)
    ensures
        r == genre_mentioned(views(query_words@), genre@),
{
    let mut plural = genre.clone();
    crate::text::push_char(&mut plural, 's');
    let mut i: usize = 0;
    while i < query_words.len()
        invariant
            i <= query_words.len(),
            plural@ == genre@.push('s'),
            forall|j: int|
                0 <= j < i ==> !(#[trigger] views(query_words@)[j] == genre@ || views(query_words@)[j]
                    == genre@.push('s')),
        decreases query_words.len() - i,
    {
        assert(views(query_words@)[i as int] == query_words@[i as int]@);
        if query_words[i] == *genre || query_words[i] == plural {
            return true;
        }
        i += 1;
    }
    false
}

/// Counts the significant query words.
fn count_significant(ws: &Vec<String>) -> (r: usize)
    ensures
        r == significant_count(views(ws@)),
{
    let mut n: usize = 0;
    let mut i: usize = 0;
    while i < ws.len()
        invariant
            i <= ws.len(),
            n <= i,
            n == significant_count(views(ws@.take(i as int))),
        decreases ws.len() - i,
    {
        assert(views(ws@.take(i + 1)).drop_last() =~= views(ws@.take(i as int)));
        assert(views(ws@.take(i + 1)).last() == ws@[i as int]@);
        let l = ws[i].as_str().len();
        assert(l == byte_len(ws@[i as int]@));
        if l > 3 {
            n += 1;
        }
        i += 1;
    }
    assert(ws@.take(ws.len() as int) =~= ws@);
    n
}

/// The normalized genres of `all` that the query words mention.
pub fn genres_in_query(all: &Vec<String>, query_words: &Vec<String>) -> (r: Vec<String>)
    ensures
        views(r@) == matched_genres(views(all@), views(query_words@)),
{
    let mut out: Vec<String> = Vec::new();
    let mut i: usize = 0;
    assert(views(out@) =~= Seq::<Seq<char>>::empty());
    while i < all.len()
        invariant
            i <= all.len(),
            views(out@) == matched_genres(views(all@.take(i as int)), views(query_words@)),
        decreases all.len() - i,
    {
        assert(views(all@.take(i + 1)).drop_last() =~= views(all@.take(i as int)));
        assert(views(all@.take(i + 1)).last() == all@[i as int]@);
        let g = normalize(all[i].as_str());
        if genre_in_words(query_words, &g) {
            push_unique(&mut out, g);
        }
        i += 1;
    }
    assert(all@.take(all.len() as int) =~= all@);
    out
}

/// Whether the query mentions the person (normalized name).
fn person_in_query(query: &String, query_words: &Vec<String>, significant_words: usize, name: &String) -> (r: bool)
    requires
        significant_words == significant_count(views(query_words@)),
    ensures
        r == person_mentioned(query@, views(query_words@), name@),
{
    let parts = split_whitespace(name.as_str());
    if *query == *name {
        return true;
    }
    let mut padded_query = String::new();
    crate::text::push_char(&mut padded_query, ' ');
    padded_query.append(query.as_str());
    crate::text::push_char(&mut padded_query, ' ');
    let mut padded_name = String::new();
    crate::text::push_char(&mut padded_name, ' ');
    padded_name.append(name.as_str());
    crate::text::push_char(&mut padded_name, ' ');
    assert(padded_query@ =~= seq![' '] + query@ + seq![' ']);
    assert(padded_name@ =~= seq![' '] + name@ + seq![' ']);
    if contains_str(padded_query.as_str(), padded_name.as_str()) {
        return true;
    }
    if parts.len() > 1 {
        // any significant part among the query words; all of them
        let mut any = false;
        let mut all = true;
        let mut i: usize = 0;
        while i < parts.len()
            invariant
                i <= parts.len(),
                views(parts@) == words(name@),
                any <==> exists|j: int|
                    0 <= j < i && significant(#[trigger] views(parts@)[j]) && views(query_words@).contains(views(parts@)[j]),
                all <==> forall|j: int|
                    0 <= j < i && significant(#[trigger] views(parts@)[j]) ==> views(query_words@).contains(views(parts@)[j]),
            decreases parts.len() - i,
        {
            assert(views(parts@)[i as int] == parts@[i as int]@);
            let l = parts[i].as_str().len();
            assert(l == byte_len(parts@[i as int]@));
            let sig = l > 3;
            let found = has_word(query_words, &parts[i]);
            if sig && found {
                any = true;
            }
            if sig && !found {
                all = false;
            }
            i += 1;
        }
        let hit = if significant_words >= 2 {
            all && any
        } else {
            any
        };
        if hit {
            return true;
        }
        return false;
    }
    if parts.len() == 1 {
        assert(views(parts@)[0] == parts@[0]@);
        let word = &parts[0];
        let l = word.as_str().len();
        assert(l == byte_len(parts@[0]@));
        if l > 2 {
            let mut with_space = word.clone();
            crate::text::push_char(&mut with_space, ' ');
            let mut space_word = String::new();
            crate::text::push_char(&mut space_word, ' ');
            space_word.append(word.as_str());
            assert(space_word@ =~= seq![' '] + word@);
            return has_word(query_words, word) || *query == *word || starts_with_str(
                query.as_str(),
                with_space.as_str(),
            ) || ends_with_str(query.as_str(), space_word.as_str());
        }
    }
    false
}

/// The normalized people of `all` that the query mentions.
pub fn people_in_query(all: &Vec<String>, query: &String, query_words: &Vec<String>) -> (r: Vec<String>)
    requires
        views(query_words@) == words(query@),
    ensures
        views(r@) == matched_people(views(all@), query@, views(query_words@)),
{
    let significant_words = count_significant(query_words);
    let mut out: Vec<String> = Vec::new();
    let mut i: usize = 0;
    assert(views(out@) =~= Seq::<Seq<char>>::empty());
    while i < all.len()
        invariant
            i <= all.len(),
            significant_words == significant_count(views(query_words@)),
            views(out@) == matched_people(views(all@.take(i as int)), query@, views(query_words@)),
        decreases all.len() - i,
    {
        assert(views(all@.take(i + 1)).drop_last() =~= views(all@.take(i as int)));
        assert(views(all@.take(i + 1)).last() == all@[i as int]@);
        let n = normalize(all[i].as_str());
        if person_in_query(query, query_words, significant_words, &n) {
            push_unique(&mut out, n);
        }
        i += 1;
    }
    assert(all@.take(all.len() as int) =~= all@);
    out
}

// ---------------------------------------------------------------------------
// Leftover title text
// ---------------------------------------------------------------------------

/// Words and phrases that never belong to a title.
pub open spec fn stop_phrases() -> Seq<Seq<char>> {
    seq![
        "movies"@, "movie"@, "films"@, "film"@, "show"@, "shows"@, "about"@, "with"@,
        "starring"@, "featuring"@, "directed by"@, "that are"@, "which are"@, "that have"@,
        "which have"@,
    ]
}

/// `s` with every occurrence of each pattern removed, patterns taken in order.
pub open spec fn remove_each(s: Seq<char>, pats: Seq<Seq<char>>) -> Seq<char>
    decreases pats.len(),
{
    if pats.len() == 0 {
        s
    } else {
        replace_all(remove_each(s, pats.drop_last()), pats.last(), Seq::empty())
    }
}

/// What is left of the normalized query once matched genres and people,
/// doubled spaces and stop phrases are removed, with whitespace collapsed.
pub open spec fn leftover_title(query: Seq<char>, genres: Seq<Seq<char>>, people: Seq<Seq<char>>) -> Seq<char> {
    let r2 = remove_each(remove_each(query, genres), people);
    let r3 = trim(replace_all(r2, "  "@, " "@));
    let r4 = remove_each(r3, stop_phrases());
    trim(collapse_whitespace(r4, seq![' ']))
}

/// The titles, people and genres that `extract_entities` finds in `query`.
pub open spec fn query_entities(query: Seq<char>, movies: Seq<FullMovie>) -> (Seq<Seq<char>>, Seq<Seq<char>>, Seq<Seq<char>>) {
    let qn = norm(query);
    let qw = words(qn);
    let genres = matched_genres(catalogue_genres(movies), qw);
    let people = matched_people(catalogue_actors(movies) + catalogue_directors(movies), qn, qw);
    let t = leftover_title(qn, genres, people);
    (if t.len() > 0 {
        seq![t]
    } else {
        Seq::empty()
    }, people, genres)
}

/// Removes every occurrence of each pattern, in order.
fn remove_all_of(s: String, pats: &Vec<String>) -> (r: String)
    ensures
        r@ == remove_each(s@, views(pats@)),
{
    let mut r = s;
    let mut i: usize = 0;
    let empty = "";
    proof {
        reveal_strlit("");
    }
    assert(views(pats@.take(0)) =~= Seq::<Seq<char>>::empty());
    while i < pats.len()
        invariant
            i <= pats.len(),
            empty@ == Seq::<char>::empty(),
            r@ == remove_each(s@, views(pats@.take(i as int))),
        decreases pats.len() - i,
    {
        assert(views(pats@.take(i + 1)).drop_last() =~= views(pats@.take(i as int)));
        assert(views(pats@.take(i + 1)).last() == pats@[i as int]@);
        r = replace_str(r.as_str(), pats[i].as_str(), empty);
        i += 1;
    }
    assert(pats@.take(pats.len() as int) =~= pats@);
    r
}

/// The stop phrases as strings.
fn stop_phrase_list() -> (r: Vec<String>)
    ensures
        views(r@) == stop_phrases(),
{
    let lits = vec![
        "movies", "movie", "films", "film", "show", "shows", "about", "with", "starring",
        "featuring", "directed by", "that are", "which are", "that have", "which have",
    ];
    let mut r: Vec<String> = Vec::new();
    let mut i: usize = 0;
    while i < lits.len()
        invariant
            i <= lits.len(),
            lits@.len() == 15,
            lits@.map_values(|x: &str| x@) == stop_phrases(),
            views(r@) == lits@.map_values(|x: &str| x@).take(i as int),
        decreases lits.len() - i,
    {
        let ghost before = r@;
        let x = String::from_str(lits[i]);
        assert(x@ == lits@[i as int]@);
        r.push(x);
        assert(views(r@) =~= views(before).push(x@));
        assert(lits@.map_values(|x: &str| x@).take(i + 1) =~= lits@.map_values(|x: &str| x@).take(
            i as int,
        ).push(lits@[i as int]@));
        i += 1;
    }
    r
}

/// The leftover title text of a normalized query.
pub fn title_leftover(query: &String, genres: &Vec<String>, people: &Vec<String>) -> (r: String)
    ensures
        r@ == leftover_title(query@, views(genres@), views(people@)),
{
    let r1 = remove_all_of(query.clone(), genres);
    let r2 = remove_all_of(r1, people);
    let two = "  ";
    let one = " ";
    proof {
        reveal_strlit("  ");
    }
    let r3 = trim_str(replace_str(r2.as_str(), two, one).as_str());
    let r4 = remove_all_of(r3, &stop_phrase_list());
    let space = " ";
    proof {
        reveal_strlit(" ");
        assert(space@ =~= seq![' ']);
    }
    let r5 = collapse_whitespace_chars(&to_chars(r4.as_str()), space);
    trim_str(r5.as_str())
}

/// Extracts entities (titles, actors/directors, genres) from a search query
/// by comparing it against the names found in the movies.
pub fn extract_entities(query: &str, movies: &Vec<FullMovie>) -> (r: (Vec<String>, Vec<String>, Vec<String>))
    ensures
        views(r.0@) == query_entities(query@, movies@).0,
        views(r.1@) == query_entities(query@, movies@).1,
        views(r.2@) == query_entities(query@, movies@).2,
{
    let (all_genres, all_actors, all_directors) = extract_entities_from_movies(movies);
    let qn = normalize(query);
    let qw = split_whitespace(qn.as_str());
    let genres = genres_in_query(&all_genres, &qw);
    let mut people_pool = all_actors;
    let mut more = all_directors;
    let ghost pa = people_pool@;
    let ghost pd = more@;
    people_pool.append(&mut more);
    assert(views(people_pool@) =~= views(pa) + views(pd));
    let people = people_in_query(&people_pool, &qn, &qw);
    let leftover = title_leftover(&qn, &genres, &people);
    let mut titles: Vec<String> = Vec::new();
    let lchars = to_chars(leftover.as_str());
    if lchars.len() > 0 {
        titles.push(leftover);
    }
    proof {
        if lchars.len() > 0 {
            assert(views(titles@) =~= seq![leftover@]);
        } else {
            assert(views(titles@) =~= Seq::<Seq<char>>::empty());
        }
    }
    (titles, people, genres)
}

// ---------------------------------------------------------------------------
// What extraction can return
// ---------------------------------------------------------------------------

/// Adding a name keeps a list free of repeats.
proof fn lemma_add_unique_no_duplicates(acc: Seq<Seq<char>>, x: Seq<char>)
    requires
        acc.no_duplicates(),
    ensures
        add_unique(acc, x).no_duplicates(),
        forall|y: Seq<char>| #[trigger] add_unique(acc, x).contains(y) <==> (acc.contains(y) || y == x),
{
    if !acc.contains(x) {
        let r = acc.push(x);
        assert forall|i: int, j: int| 0 <= i < j < r.len() implies r[i] != r[j] by {
            if j == r.len() - 1 {
                assert(acc.contains(acc[i]));
            }
        }
        assert forall|y: Seq<char>| #[trigger] r.contains(y) <==> (acc.contains(y) || y == x) by {
            if r.contains(y) {
                let k = choose|k: int| 0 <= k < r.len() && r[k] == y;
                if k < acc.len() {
                    assert(acc[k] == y);
                }
            }
            if acc.contains(y) {
                let k = choose|k: int| 0 <= k < acc.len() && acc[k] == y;
                assert(r[k] == y);
            }
            if y == x {
                assert(r[r.len() - 1] == y);
            }
        }
    }
}

/// The genres found are the normalized forms of listed genres that the
/// query mentions, each once.
proof fn lemma_matched_genres(all: Seq<Seq<char>>, query_words: Seq<Seq<char>>)
    ensures
        matched_genres(all, query_words).no_duplicates(),
        forall|g: Seq<char>|
            #[trigger] matched_genres(all, query_words).contains(g) ==> genre_mentioned(query_words, g)
                && exists|i: int| 0 <= i < all.len() && norm(all[i]) == g,
    decreases all.len(),
{
    if all.len() > 0 {
        let init = all.drop_last();
        lemma_matched_genres(init, query_words);
        let acc = matched_genres(init, query_words);
        let g = norm(all.last());
        if genre_mentioned(query_words, g) {
            lemma_add_unique_no_duplicates(acc, g);
        }
        assert forall|x: Seq<char>|
            #[trigger] matched_genres(all, query_words).contains(x) implies genre_mentioned(query_words, x)
            && exists|i: int| 0 <= i < all.len() && norm(all[i]) == x by {
            if acc.contains(x) {
                let i = choose|i: int| 0 <= i < init.len() && norm(init[i]) == x;
                assert(all[i] == init[i]);
            } else {
                assert(norm(all[all.len() - 1]) == x);
            }
        }
    }
}

/// The people found are the normalized forms of listed names that the
/// query mentions, each once.
proof fn lemma_matched_people(all: Seq<Seq<char>>, query: Seq<char>, query_words: Seq<Seq<char>>)
    ensures
        matched_people(all, query, query_words).no_duplicates(),
        forall|p: Seq<char>|
            #[trigger] matched_people(all, query, query_words).contains(p) ==> person_mentioned(query, query_words, p)
                && exists|i: int| 0 <= i < all.len() && norm(all[i]) == p,
    decreases all.len(),
{
    if all.len() > 0 {
        let init = all.drop_last();
        lemma_matched_people(init, query, query_words);
        let acc = matched_people(init, query, query_words);
        let n = norm(all.last());
        if person_mentioned(query, query_words, n) {
            lemma_add_unique_no_duplicates(acc, n);
        }
        assert forall|x: Seq<char>|
            #[trigger] matched_people(all, query, query_words).contains(x) implies person_mentioned(
            query,
            query_words,
            x,
        ) && exists|i: int| 0 <= i < all.len() && norm(all[i]) == x by {
            if acc.contains(x) {
                let i = choose|i: int| 0 <= i < init.len() && norm(init[i]) == x;
                assert(all[i] == init[i]);
            } else {
                assert(norm(all[all.len() - 1]) == x);
            }
        }
    }
}

/// Entity extraction only finds what is in the catalogue and the query:
/// each genre is a catalogue genre (normalized) that the query mentions,
/// each person a catalogue actor or director (normalized) that the query
/// mentions, neither list repeats itself, and at most one title is left.
pub proof fn lemma_entities_from_catalogue(query: Seq<char>, movies: Seq<FullMovie>)
    ensures
        ({
            let (titles, people, genres) = query_entities(query, movies);
            let qn = norm(query);
            let qw = words(qn);
            let names = catalogue_actors(movies) + catalogue_directors(movies);
            &&& titles.len() <= 1
            &&& genres.no_duplicates()
            &&& people.no_duplicates()
            &&& forall|g: Seq<char>|
                #[trigger] genres.contains(g) ==> genre_mentioned(qw, g) && exists|i: int|
                    0 <= i < catalogue_genres(movies).len() && norm(catalogue_genres(movies)[i]) == g
            &&& forall|p: Seq<char>|
                #[trigger] people.contains(p) ==> person_mentioned(qn, qw, p) && exists|i: int|
                    0 <= i < names.len() && norm(names[i]) == p
        }),
{
    let qn = norm(query);
    let qw = words(qn);
    lemma_matched_genres(catalogue_genres(movies), qw);
    lemma_matched_people(catalogue_actors(movies) + catalogue_directors(movies), qn, qw);
}

/// Adding names keeps what was there and adds exactly the new ones.
proof fn lemma_add_all_unique_contains(acc: Seq<Seq<char>>, xs: Seq<Seq<char>>, x: Seq<char>)
    ensures
        add_all_unique(acc, xs).contains(x) <==> acc.contains(x) || xs.contains(x),
    decreases xs.len(),
{
    if xs.len() > 0 {
        let init = xs.drop_last();
        lemma_add_all_unique_contains(acc, init, x);
        let prev = add_all_unique(acc, init);
        assert(xs =~= init.push(xs.last()));
        if xs.contains(x) && !init.contains(x) {
            let k = choose|k: int| 0 <= k < xs.len() && xs[k] == x;
            if k < init.len() {
                assert(init[k] == x);
            }
            assert(x == xs.last());
        }
        if init.contains(x) {
            let k = choose|k: int| 0 <= k < init.len() && init[k] == x;
            assert(xs[k] == x);
        }
        if !prev.contains(xs.last()) {
            assert(prev.push(xs.last()).contains(xs.last())) by {
                assert(prev.push(xs.last())[prev.len() as int] == xs.last());
            }
            if prev.contains(x) {
                let k = choose|k: int| 0 <= k < prev.len() && prev[k] == x;
                assert(prev.push(xs.last())[k] == x);
            }
            if prev.push(xs.last()).contains(x) && x != xs.last() {
                let k = choose|k: int| 0 <= k < prev.len() + 1 && prev.push(xs.last())[k] == x;
                assert(prev[k] == x);
            }
        }
    }
}

/// Every lowercased genre of every movie is a catalogue genre.
proof fn lemma_catalogue_genres_complete(movies: Seq<FullMovie>, a: int, b: int)
    requires
        0 <= a < movies.len(),
        0 <= b < movies[a].genres@.len(),
    ensures
        catalogue_genres(movies).contains(spec_lowercase(movies[a].genres@[b]@)),
    decreases movies.len(),
{
    let g = spec_lowercase(movies[a].genres@[b]@);
    let init = movies.drop_last();
    let xs = lowercased(genre_names(movies.last()));
    lemma_add_all_unique_contains(catalogue_genres(init), xs, g);
    if a < movies.len() - 1 {
        assert(init[a] == movies[a]);
        lemma_catalogue_genres_complete(init, a, b);
    } else {
        assert(xs[b] == g);
    }
}

/// A mentioned catalogue genre is always among the genres found.
proof fn lemma_matched_genres_complete(all: Seq<Seq<char>>, query_words: Seq<Seq<char>>, i: int)
    requires
        0 <= i < all.len(),
        exists|k: int|
            0 <= k < query_words.len() && (#[trigger] query_words[k] == norm(all[i]) || query_words[k]
                == norm(all[i]).push('s')),
    ensures
        matched_genres(all, query_words).contains(norm(all[i])),
    decreases all.len(),
{
    let init = all.drop_last();
    let acc = matched_genres(init, query_words);
    let g = norm(all.last());
    if i < all.len() - 1 {
        assert(init[i] == all[i]);
        lemma_matched_genres_complete(init, query_words, i);
        if genre_mentioned(query_words, g) && !acc.contains(g) {
            let k = choose|k: int| 0 <= k < acc.len() && acc[k] == norm(all[i]);
            assert(acc.push(g)[k] == norm(all[i]));
        }
    } else {
        assert(genre_mentioned(query_words, g));
        if !acc.contains(g) {
            assert(acc.push(g)[acc.len() as int] == g);
        }
    }
}

/// Genre extraction is complete: when a word of the normalized query is a
/// catalogue genre (lowercased and normalized) or that genre with a plural
/// `s`, the genre is among those extracted.
pub proof fn lemma_mentioned_genre_extracted(query: Seq<char>, movies: Seq<FullMovie>, a: int, b: int)
    requires
        0 <= a < movies.len(),
        0 <= b < movies[a].genres@.len(),
        exists|k: int|
            0 <= k < words(norm(query)).len() && (#[trigger] words(norm(query))[k] == norm(
                spec_lowercase(movies[a].genres@[b]@),
            ) || words(norm(query))[k] == norm(spec_lowercase(movies[a].genres@[b]@)).push('s')),
    ensures
        query_entities(query, movies).2.contains(norm(spec_lowercase(movies[a].genres@[b]@))),
{
    let all = catalogue_genres(movies);
    let g = spec_lowercase(movies[a].genres@[b]@);
    lemma_catalogue_genres_complete(movies, a, b);
    let i = choose|i: int| 0 <= i < all.len() && all[i] == g;
    lemma_matched_genres_complete(all, words(norm(query)), i);
}

} // verus!
