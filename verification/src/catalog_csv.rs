//! The catalogue's CSV import and export: which header rows are accepted,
//! how a row becomes a movie, duplicate titles, and the exported columns.
//! Reading and writing CSV text is the `csv` crate's work.

use vstd::prelude::*;
use crate::models::{Actor, Director, FullMovie, actor_names, director_name, opt_view};
use crate::stats::distinct;
use crate::text::{
    decimal, int_decimal, int_to_string, join, join_strings, push_decimal, split_char, split_on,
    to_chars, trim, trim_str, views, is_trimmed, lemma_split_trim_join, lemma_trim_trimmed,
};

verus! {

// ---------------------------------------------------------------------------
// The csv crate
// ---------------------------------------------------------------------------

/// What the `csv` crate reads from a text: the header row and, unless a
/// record is malformed, every following record as its fields; where reading
/// stops, the text of the error.
pub uninterp spec fn spec_csv_table(data: Seq<char>) -> Result<
    (Seq<Seq<char>>, Result<Seq<Seq<Seq<char>>>, Seq<char>>),
    Seq<char>,
>;

/// The views of rows of fields.
pub open spec fn row_views(rows: Seq<Vec<String>>) -> Seq<Seq<Seq<char>>> {
    rows.map_values(|r: Vec<String>| views(r@))
}

/// Reads a text with `csv::Reader` (header row on, default settings):
/// `Err` when the header row cannot be read; otherwise the headers and,
/// separately, the records or the error that stopped reading them. Errors
/// are handed back as their text. The result is named by `spec_csv_table`.
#[verifier::external_body]
fn read_csv_table(data: &str) -> (r: Result<(Vec<String>, Result<Vec<Vec<String>>, String>), String>)
    ensures
        match r {
            Err(e) => spec_csv_table(data@) == Err::<(Seq<Seq<char>>, Result<Seq<Seq<Seq<char>>>, Seq<char>>), Seq<char>>(e@),
            Ok((h, Err(e))) => spec_csv_table(data@) == Ok::<(Seq<Seq<char>>, Result<Seq<Seq<Seq<char>>>, Seq<char>>), Seq<char>>(
                (views(h@), Err(e@)),
            ),
            Ok((h, Ok(rows))) => spec_csv_table(data@) == Ok::<(Seq<Seq<char>>, Result<Seq<Seq<Seq<char>>>, Seq<char>>), Seq<char>>(
                (views(h@), Ok(row_views(rows@))),
            ),
        },
{
    let mut reader = csv::Reader::from_reader(data.as_bytes());
    let headers: Vec<String> = match reader.headers() {
        Ok(h) => h.iter().map(|f| f.to_string()).collect(),
        Err(e) => return Err(e.to_string()),
    };
    let mut rows: Vec<Vec<String>> = Vec::new();
    for record in reader.records() {
        match record {
            Ok(rec) => rows.push(rec.iter().map(|f| f.to_string()).collect()),
            Err(e) => return Ok((headers, Err(e.to_string()))),
        }
    }
    Ok((headers, Ok(rows)))
}

/// The text `csv::Writer` produces for the rows, quoting a field only
/// where needed and doubling quotes inside quoted fields.
pub uninterp spec fn spec_csv_text(rows: Seq<Seq<Seq<char>>>) -> Seq<char>;

/// Whether the rows can be written and read back as they are: at least one
/// row, all with the same number of fields (at least one), and the first
/// field not starting with a byte-order mark (which the reader drops).
pub open spec fn readable_rows(rows: Seq<Seq<Seq<char>>>) -> bool {
    &&& rows.len() > 0
    &&& rows[0].len() > 0
    &&& forall|i: int| 0 <= i < rows.len() ==> (#[trigger] rows[i]).len() == rows[0].len()
    &&& !(rows[0][0].len() > 0 && rows[0][0][0] == '\u{FEFF}')
}

/// Writes the rows with `csv::WriterBuilder` (quote style `Necessary`,
/// doubled quotes) into memory. The text is named by `spec_csv_text`.
/// Writing into memory fails only when rows differ in length (the writer
/// is not flexible), so rows of one length are always written; the error
/// text is not stated. The writer quotes every field holding a delimiter,
/// quote, `\r` or `\n` and a lone empty field, so `csv::Reader` with its
/// default settings reads the text back as the rows: the first as the
/// header row, the others as records.
#[verifier::external_body]
fn write_csv_rows(rows: &Vec<Vec<String>>) -> (r: Result<String, String>)
    ensures
        r matches Ok(s) ==> s@ == spec_csv_text(row_views(rows@)),
        (forall|i: int| 0 <= i < rows@.len() ==> (#[trigger] rows@[i])@.len() == rows@[0]@.len()) ==> r is Ok,
        r matches Ok(s) ==> (readable_rows(row_views(rows@)) ==> spec_csv_table(s@) == Ok::<
            (Seq<Seq<char>>, Result<Seq<Seq<Seq<char>>>, Seq<char>>),
            Seq<char>,
        >((row_views(rows@)[0], Ok(row_views(rows@).skip(1))))),
{
    let mut writer = csv::WriterBuilder::new().quote_style(csv::QuoteStyle::Necessary).double_quote(true).from_writer(vec![]);
    for row in rows {
        writer.write_record(row).map_err(|e| e.to_string())?;
    }
    let bytes = writer.into_inner().map_err(|e| e.to_string())?;
    String::from_utf8(bytes).map_err(|e| e.to_string())
}

// ---------------------------------------------------------------------------
// Header rows
// ---------------------------------------------------------------------------

/// The columns an import must have, in their documented order.
pub open spec fn required_headers() -> Seq<Seq<char>> {
    seq!["Title"@, "Description"@, "Actors"@, "Genres"@, "Director"@, "AddedOn"@, "Location"@]
}

/// The required columns as listed in error messages.
pub const REQUIRED_LIST: &'static str = "Title, Description, Actors, Genres, Director, AddedOn, Location";

/// The export's year column, which an import also accepts.
pub const YEAR_HEADER: &'static str = "Year";

/// The headers that are checked: an exported header row (the required
/// columns plus `Year`) is checked without its `Year` column.
pub open spec fn checked_headers(headers: Seq<Seq<char>>) -> Seq<Seq<char>> {
    if headers.len() == 8 && headers.contains(YEAR_HEADER@) {
        headers.filter(|h: Seq<char>| h != YEAR_HEADER@)
    } else {
        headers
    }
}

/// The required columns missing from `hs`, in their documented order.
pub open spec fn missing_headers(hs: Seq<Seq<char>>) -> Seq<Seq<char>> {
    required_headers().filter(|r: Seq<char>| !hs.contains(r))
}

/// The columns of `hs` that are not required, each once, in order.
pub open spec fn invalid_headers(hs: Seq<Seq<char>>) -> Seq<Seq<char>> {
    distinct(hs.filter(|h: Seq<char>| !required_headers().contains(h)))
}

/// Why a header row is refused, if it is: the wrong number of columns,
/// missing required columns, or unknown columns.
pub open spec fn header_error(headers: Seq<Seq<char>>) -> Option<Seq<char>> {
    let hs = checked_headers(headers);
    if hs.len() != 7 {
        Some("Expected 7 headers, but found "@ + decimal(hs.len()) + ". Required headers: "@ + REQUIRED_LIST@)
    } else if missing_headers(hs).len() > 0 {
        Some("Missing required headers"@ + ": "@ + join(missing_headers(hs), ", "@) + ". Required headers: "@
            + REQUIRED_LIST@)
    } else if invalid_headers(hs).len() > 0 {
        Some("Invalid headers found"@ + ": "@ + join(invalid_headers(hs), ", "@) + ". Required headers: "@
            + REQUIRED_LIST@)
    } else {
        None
    }
}

/// A header row made of the given columns in any order is accepted: the
/// seven required columns, or those and the export's `Year` column.
pub proof fn lemma_headers_in_any_order(headers: Seq<Seq<char>>)
    requires
        headers.to_multiset() =~= required_headers().to_multiset() || headers.to_multiset()
            =~= required_headers().push(YEAR_HEADER@).to_multiset(),
    ensures
        header_error(headers) is None,
{
    broadcast use vstd::seq_lib::group_to_multiset_ensures;

    reveal_strlit("Year");
    reveal_strlit("Title");
    reveal_strlit("Description");
    reveal_strlit("Actors");
    reveal_strlit("Genres");
    reveal_strlit("Director");
    reveal_strlit("AddedOn");
    reveal_strlit("Location");
    let req = required_headers();
    let with_year = req.push(YEAR_HEADER@);
    assert(!req.contains(YEAR_HEADER@)) by {
        if req.contains(YEAR_HEADER@) {
            let k = choose|k: int| 0 <= k < req.len() && req[k] == YEAR_HEADER@;
            assert(req[k].len() != YEAR_HEADER@.len() || req[k][0] != YEAR_HEADER@[0]);
        }
    }
    // Every column of the row is required or `Year`, and every required one occurs.
    assert forall|h: Seq<char>| #[trigger] headers.contains(h) implies req.contains(h) || h == YEAR_HEADER@ by {
        if headers.to_multiset() =~= req.to_multiset() {
            assert(req.to_multiset().count(h) > 0);
        } else {
            assert(with_year.to_multiset().count(h) > 0);
            if h != YEAR_HEADER@ {
                let k = choose|k: int| 0 <= k < with_year.len() && with_year[k] == h;
                assert(req[k] == h);
            }
        }
    }
    assert forall|r: Seq<char>| #[trigger] req.contains(r) implies headers.contains(r) by {
        let k = choose|k: int| 0 <= k < req.len() && req[k] == r;
        if headers.to_multiset() =~= req.to_multiset() {
            assert(req.to_multiset().count(r) > 0);
        } else {
            assert(with_year[k] == r);
            assert(with_year.to_multiset().count(r) > 0);
        }
    }
    let hs = checked_headers(headers);
    vstd::seq_lib::to_multiset_len(headers);
    vstd::seq_lib::to_multiset_len(req);
    vstd::seq_lib::to_multiset_len(with_year);
    if headers.to_multiset() =~= req.to_multiset() {
        assert(headers.len() == 7);
        assert(!headers.contains(YEAR_HEADER@)) by {
            if headers.contains(YEAR_HEADER@) {
                assert(req.to_multiset().count(YEAR_HEADER@) > 0);
            }
        }
        assert(hs == headers);
    } else {
        assert(headers.len() == 8);
        assert(with_year[7] == YEAR_HEADER@);
        assert(headers.contains(YEAR_HEADER@)) by {
            assert(with_year.to_multiset().count(YEAR_HEADER@) > 0);
        }
        assert(headers.to_multiset().count(YEAR_HEADER@) == 1) by {
            assert(with_year.to_multiset() =~= req.to_multiset().insert(YEAR_HEADER@));
            assert(req.to_multiset().count(YEAR_HEADER@) == 0);
        }
        assert(hs == headers.filter(|h: Seq<char>| h != YEAR_HEADER@));
        lemma_filter_out_year_len(headers);
        assert(hs.len() == 7);
        assert forall|h: Seq<char>| #[trigger] hs.contains(h) implies headers.contains(h) && h != YEAR_HEADER@ by {
            let k = choose|k: int| 0 <= k < hs.len() && hs[k] == h;
            headers.filter_lemma(|x: Seq<char>| x != YEAR_HEADER@);
            headers.lemma_filter_contains_rev(|x: Seq<char>| x != YEAR_HEADER@, h);
        }
        assert forall|r: Seq<char>| #[trigger] req.contains(r) implies hs.contains(r) by {
            headers.filter_lemma(|x: Seq<char>| x != YEAR_HEADER@);
            assert(headers.contains(r));
            let k = choose|k: int| 0 <= k < headers.len() && headers[k] == r;
            assert(r != YEAR_HEADER@);
        }
    }
    assert(missing_headers(hs) =~= Seq::<Seq<char>>::empty()) by {
        assert forall|i: int| 0 <= i < req.len() implies hs.contains(#[trigger] req[i]) by {
            assert(req.contains(req[i]));
        }
        req.lemma_all_neg_filter_empty(|r: Seq<char>| !hs.contains(r));
    }
    let others = hs.filter(|h: Seq<char>| !req.contains(h));
    assert(others =~= Seq::<Seq<char>>::empty()) by {
        assert forall|i: int| 0 <= i < hs.len() implies req.contains(#[trigger] hs[i]) by {
            assert(hs.contains(hs[i]));
        }
        hs.lemma_all_neg_filter_empty(|h: Seq<char>| !req.contains(h));
    }
    assert(distinct(others) =~= Seq::<Seq<char>>::empty());
}

/// Removing every `Year` column leaves as many columns as there are others.
proof fn lemma_filter_out_year_len(s: Seq<Seq<char>>)
    ensures
        s.filter(|h: Seq<char>| h != YEAR_HEADER@).len() + s.to_multiset().count(YEAR_HEADER@) == s.len(),
    decreases s.len(),
{
    broadcast use vstd::seq_lib::group_to_multiset_ensures;

    if s.len() == 0 {
        assert(s.filter(|h: Seq<char>| h != YEAR_HEADER@) =~= Seq::<Seq<char>>::empty());
        assert(s.to_multiset() =~= vstd::multiset::Multiset::empty());
    } else {
        let init = s.drop_last();
        lemma_filter_out_year_len(init);
        assert(s =~= init.push(s.last()));
        init.lemma_filter_push(s.last(), |h: Seq<char>| h != YEAR_HEADER@);
        vstd::seq_lib::to_multiset_build(init, s.last());
    }
}

/// The required columns as strings.
fn required_list() -> (r: Vec<String>)
    ensures
        views(r@) == required_headers(),
{
    let r = vec![
        String::from_str("Title"),
        String::from_str("Description"),
        String::from_str("Actors"),
        String::from_str("Genres"),
        String::from_str("Director"),
        String::from_str("AddedOn"),
        String::from_str("Location"),
    ];
    assert(views(r@) =~= required_headers());
    r
}

/// Whether `v` holds `x`.
fn contains_string(v: &Vec<String>, x: &String) -> (r: bool)
    ensures
        r == views(v@).contains(x@),
{
    let mut i: usize = 0;
    while i < v.len()
        invariant
            i <= v.len(),
            forall|k: int| 0 <= k < i ==> #[trigger] views(v@)[k] != x@,
        decreases v.len() - i,
    {
        assert(views(v@)[i as int] == v@[i as int]@);
        if v[i] == *x {
            assert(views(v@)[i as int] == x@);
            return true;
        }
        i += 1;
    }
    false
}

/// The strings of `v` for which `keep` says whether they are (or are not,
/// with `inside == false`) in `set`, in order.
fn filter_by_membership(v: &Vec<String>, set: &Vec<String>, inside: bool) -> (r: Vec<String>)
    ensures
        views(r@) == views(v@).filter(|x: Seq<char>| views(set@).contains(x) == inside),
{
    let ghost pred = |x: Seq<char>| views(set@).contains(x) == inside;
    let mut r: Vec<String> = Vec::new();
    let mut i: usize = 0;
    while i < v.len()
        invariant
            i <= v.len(),
            pred == (|x: Seq<char>| views(set@).contains(x) == inside),
            views(r@) == views(v@).take(i as int).filter(pred),
        decreases v.len() - i,
    {
        proof {
            reveal(Seq::filter);
            assert(views(v@).take(i + 1).drop_last() =~= views(v@).take(i as int));
            assert(views(v@).take(i + 1).last() == v@[i as int]@);
        }
        if contains_string(set, &v[i]) == inside {
            let ghost before = views(r@);
            r.push(v[i].clone());
            assert(views(r@) =~= before.push(v@[i as int]@));
        }
        i += 1;
    }
    assert(views(v@).take(v.len() as int) =~= views(v@));
    r
}

/// The strings of `v`, each once, in order of first occurrence.
fn distinct_strings(v: &Vec<String>) -> (r: Vec<String>)
    ensures
        views(r@) == distinct(views(v@)),
{
    let mut r: Vec<String> = Vec::new();
    let mut i: usize = 0;
    while i < v.len()
        invariant
            i <= v.len(),
            views(r@) == distinct(views(v@).take(i as int)),
        decreases v.len() - i,
    {
        assert(views(v@).take(i + 1).drop_last() =~= views(v@).take(i as int));
        assert(views(v@).take(i + 1).last() == v@[i as int]@);
        if !contains_string(&r, &v[i]) {
            let ghost before = views(r@);
            r.push(v[i].clone());
            assert(views(r@) =~= before.push(v@[i as int]@));
        }
        i += 1;
    }
    assert(views(v@).take(v.len() as int) =~= views(v@));
    r
}

/// `"<what>: <list>. Required headers: <required>"`.
fn header_message(what: &str, list: &Vec<String>) -> (r: String)
    ensures
        r@ == what@ + ": "@ + join(views(list@), ", "@) + ". Required headers: "@ + REQUIRED_LIST@,
{
    let mut r = String::from_str(what);
    r.append(": ");
    r.append(join_strings(list, ", ").as_str());
    r.append(". Required headers: ");
    r.append(REQUIRED_LIST);
    r
}

/// Checks a header row: the seven required columns in any order (an
/// exported row with its extra `Year` column is accepted too).
pub fn validate_headers(headers: &Vec<String>) -> (r: Result<(), String>)
    ensures
        match r {
            Ok(()) => header_error(views(headers@)) is None,
            Err(e) => header_error(views(headers@)) == Some(e@),
        },
{
    let year = String::from_str(YEAR_HEADER);
    let mut year_only: Vec<String> = Vec::new();
    year_only.push(year.clone());
    assert(views(year_only@) =~= seq![YEAR_HEADER@]);
    let hs = if headers.len() == 8 && contains_string(headers, &year) {
        let kept = filter_by_membership(headers, &year_only, false);
        assert(views(year_only@).contains(YEAR_HEADER@)) by {
            assert(views(year_only@)[0] == YEAR_HEADER@);
        }
        assert((|x: Seq<char>| views(year_only@).contains(x) == false) =~= (|h: Seq<char>| h != YEAR_HEADER@)) by {
            assert forall|x: Seq<char>| views(year_only@).contains(x) == false <==> x != YEAR_HEADER@ by {
                if views(year_only@).contains(x) {
                    let k = choose|k: int| 0 <= k < views(year_only@).len() && views(year_only@)[k] == x;
                    assert(k == 0);
                }
                if x == YEAR_HEADER@ {
                    assert(views(year_only@)[0] == x);
                }
            }
        }
        kept
    } else {
        headers.clone()
    };
    assert(views(hs@) == checked_headers(views(headers@)));
    let required = required_list();
    if hs.len() != 7 {
        let mut e = String::from_str("Expected 7 headers, but found ");
        push_decimal(&mut e, hs.len() as u64);
        e.append(". Required headers: ");
        e.append(REQUIRED_LIST);
        assert(views(hs@).len() == hs@.len());
        return Err(e);
    }
    let missing = filter_by_membership(&required, &hs, false);
    assert((|x: Seq<char>| views(hs@).contains(x) == false) =~= (|r: Seq<char>| !views(hs@).contains(r)));
    assert(views(hs@).len() == hs@.len());
    assert(views(missing@) == missing_headers(views(hs@)));
    assert(views(missing@).len() == missing@.len());
    if missing.len() > 0 {
        return Err(header_message("Missing required headers", &missing));
    }
    let unknown = filter_by_membership(&hs, &required, false);
    assert((|x: Seq<char>| views(required@).contains(x) == false) =~= (|h: Seq<char>| !required_headers().contains(h)));
    let extra = distinct_strings(&unknown);
    assert(views(unknown@) == views(hs@).filter(|h: Seq<char>| !required_headers().contains(h)));
    assert(views(extra@) == invalid_headers(views(hs@)));
    assert(views(extra@).len() == extra@.len());
    if extra.len() > 0 {
        return Err(header_message("Invalid headers found", &extra));
    }
    Ok(())
}

// ---------------------------------------------------------------------------
// Rows
// ---------------------------------------------------------------------------

/// The field of `row` under column `name` (empty when there is none).
pub open spec fn column(headers: Seq<Seq<char>>, row: Seq<Seq<char>>, name: Seq<char>) -> Seq<char> {
    match first_position(headers, name, 0) {
        Some(k) => if k < row.len() {
            row[k]
        } else {
            Seq::empty()
        },
        None => Seq::empty(),
    }
}

/// The first index from `j` on where `name` stands.
pub open spec fn first_position(headers: Seq<Seq<char>>, name: Seq<char>, j: int) -> Option<int>
    decreases headers.len() - j,
{
    if j < 0 || j >= headers.len() {
        None
    } else if headers[j] == name {
        Some(j)
    } else {
        first_position(headers, name, j + 1)
    }
}

/// An optional text field: absent when empty, else (trimmed when `trimmed`)
/// the text.
pub open spec fn optional_field(f: Seq<char>, trimmed: bool) -> Option<Seq<char>> {
    if f.len() == 0 {
        None
    } else if trimmed {
        Some(trim(f))
    } else {
        Some(f)
    }
}

/// A `|`-separated list field: empty when the field is, else each piece
/// trimmed (empty pieces kept).
pub open spec fn list_field(f: Seq<char>) -> Seq<Seq<char>> {
    if f.len() == 0 {
        Seq::empty()
    } else {
        split_on(f, '|').map_values(|p: Seq<char>| trim(p))
    }
}

/// The title a row imports under.
pub open spec fn row_title(headers: Seq<Seq<char>>, row: Seq<Seq<char>>) -> Seq<char> {
    trim(column(headers, row, "Title"@))
}

/// `m` is the movie a row imports as: not yet stored (id 0), the trimmed
/// title, and each optional column as the row gives it.
pub open spec fn imported_as(m: FullMovie, headers: Seq<Seq<char>>, row: Seq<Seq<char>>) -> bool {
    &&& m.id == 0
    &&& m.name@ == row_title(headers, row)
    &&& opt_view(m.description) == optional_field(column(headers, row, "Description"@), true)
    &&& actor_names(m) == list_field(column(headers, row, "Actors"@))
    &&& forall|i: int| 0 <= i < m.actors@.len() ==> (#[trigger] m.actors@[i]).id == 0
    &&& director_name(m) == optional_field(column(headers, row, "Director"@), true)
    &&& m.director matches Some(d) ==> d.id == 0
    &&& views(m.genres@) == list_field(column(headers, row, "Genres"@))
    &&& opt_view(m.added_on) == optional_field(column(headers, row, "AddedOn"@), false)
    &&& opt_view(m.location) == optional_field(column(headers, row, "Location"@), true)
    &&& m.release_year == 0
}

/// The indices of the rows below `n` whose title was not seen in an
/// earlier row, in order.
pub open spec fn first_rows(headers: Seq<Seq<char>>, rows: Seq<Seq<Seq<char>>>, n: int) -> Seq<int>
    decreases n,
{
    if n <= 0 {
        Seq::empty()
    } else {
        let kept = first_rows(headers, rows, n - 1);
        if kept.map_values(|k: int| row_title(headers, rows[k])).contains(row_title(headers, rows[n - 1])) {
            kept
        } else {
            kept.push(n - 1)
        }
    }
}

/// `kept` (row indices below `n`, whose titles are `titles`) holds one row
/// per title: no two kept rows share a title, and the kept rows have
/// exactly the titles of the rows below `n`.
pub open spec fn one_row_per_title(titles: Seq<Seq<char>>, kept: Seq<int>, n: int) -> bool {
    &&& forall|a: int, b: int| 0 <= a < b < kept.len() ==> titles[#[trigger] kept[a]] != titles[#[trigger] kept[b]]
    &&& forall|a: int| 0 <= a < kept.len() ==> 0 <= #[trigger] kept[a] < n
    &&& kept.map_values(|j: int| titles[j]).to_set() == titles.take(n).to_set()
}

/// The titles of the rows.
pub open spec fn row_titles(headers: Seq<Seq<char>>, rows: Seq<Seq<Seq<char>>>) -> Seq<Seq<char>> {
    rows.map_values(|r: Seq<Seq<char>>| row_title(headers, r))
}

/// An import keeps one row per title: the first row with each title, and
/// no two kept rows with the same title.
pub proof fn lemma_import_titles_once(headers: Seq<Seq<char>>, rows: Seq<Seq<Seq<char>>>, n: int)
    requires
        0 <= n <= rows.len(),
    ensures
        one_row_per_title(row_titles(headers, rows), first_rows(headers, rows, n), n),
    decreases n,
{
    let ts = row_titles(headers, rows);
    if n == 0 {
        assert(first_rows(headers, rows, 0).map_values(|j: int| ts[j]).to_set() =~= ts.take(0).to_set());
    } else {
        lemma_import_titles_once(headers, rows, n - 1);
        let prev = first_rows(headers, rows, n - 1);
        let titles = prev.map_values(|k: int| row_title(headers, rows[k]));
        let t = row_title(headers, rows[n - 1]);
        assert(ts[n - 1] == t);
        assert(titles =~= prev.map_values(|j: int| ts[j]));
        ts.lemma_take_succ_push(n - 1);
        ts.take(n - 1).lemma_push_to_set_commute(ts[n - 1]);
        if titles.contains(t) {
            let a = choose|a: int| 0 <= a < titles.len() && titles[a] == t;
            assert(prev.map_values(|j: int| ts[j]).to_set().contains(t));
            assert(prev.map_values(|j: int| ts[j]).to_set() =~= ts.take(n).to_set());
            assert(first_rows(headers, rows, n) == prev);
        } else {
            let kept = prev.push(n - 1);
            assert forall|a: int, b: int| 0 <= a < b < kept.len() implies ts[#[trigger] kept[a]] != ts[#[trigger] kept[b]] by {
                assert(kept[a] == prev[a]);
                if b < prev.len() {
                    assert(kept[b] == prev[b]);
                } else {
                    assert(titles[a] == ts[prev[a]]);
                }
            }
            assert forall|a: int| 0 <= a < kept.len() implies 0 <= #[trigger] kept[a] < n by {
                if a < prev.len() {
                    assert(kept[a] == prev[a]);
                }
            }
            prev.lemma_push_map_commute(|j: int| ts[j], n - 1);
            prev.map_values(|j: int| ts[j]).lemma_push_to_set_commute(ts[n - 1]);
            assert(first_rows(headers, rows, n) == kept);
        }
    }
}

/// The index of column `name`, if any.
fn position_of(headers: &Vec<String>, name: &str) -> (r: Option<usize>)
    ensures
        match r {
            Some(k) => first_position(views(headers@), name@, 0) == Some(k as int),
            None => first_position(views(headers@), name@, 0) is None,
        },
{
    let target = String::from_str(name);
    let mut i: usize = 0;
    while i < headers.len()
        invariant
            i <= headers.len(),
            target@ == name@,
            first_position(views(headers@), name@, 0) == first_position(views(headers@), name@, i as int),
        decreases headers.len() - i,
    {
        assert(views(headers@)[i as int] == headers@[i as int]@);
        if headers[i] == target {
            return Some(i);
        }
        i += 1;
    }
    None
}

/// The field of a row under a column.
fn field(headers: &Vec<String>, row: &Vec<String>, name: &str) -> (r: String)
    ensures
        r@ == column(views(headers@), views(row@), name@),
{
    match position_of(headers, name) {
        Some(k) => if k < row.len() {
            assert(views(row@)[k as int] == row@[k as int]@);
            row[k].clone()
        } else {
            String::new()
        },
        None => String::new(),
    }
}

/// An optional text field.
fn optional_text(f: String, trimmed: bool) -> (r: Option<String>)
    ensures
        opt_view(r) == optional_field(f@, trimmed),
{
    if to_chars(f.as_str()).len() == 0 {
        None
    } else if trimmed {
        Some(trim_str(f.as_str()))
    } else {
        Some(f)
    }
}

/// A `|`-separated list field.
fn list_items(f: &String) -> (r: Vec<String>)
    ensures
        views(r@) == list_field(f@),
{
    let mut r: Vec<String> = Vec::new();
    if to_chars(f.as_str()).len() == 0 {
        assert(views(r@) =~= Seq::<Seq<char>>::empty());
        return r;
    }
    let parts = split_char(f.as_str(), '|');
    let mut i: usize = 0;
    while i < parts.len()
        invariant
            i <= parts.len(),
            views(parts@) == split_on(f@, '|'),
            r@.len() == i,
            forall|k: int| 0 <= k < i ==> #[trigger] r@[k]@ == trim(parts@[k]@),
        decreases parts.len() - i,
    {
        r.push(trim_str(parts[i].as_str()));
        i += 1;
    }
    assert forall|k: int| 0 <= k < r@.len() implies views(r@)[k] == list_field(f@)[k] by {
        assert(views(parts@)[k] == parts@[k]@);
    }
    assert(views(r@) =~= list_field(f@));
    r
}

/// The movie a row imports as.
fn movie_from_row(headers: &Vec<String>, row: &Vec<String>) -> (m: FullMovie)
    ensures
        imported_as(m, views(headers@), views(row@)),
{
    let title = trim_str(field(headers, row, "Title").as_str());
    let description = optional_text(field(headers, row, "Description"), true);
    let actor_list = list_items(&field(headers, row, "Actors"));
    let mut actors: Vec<Actor> = Vec::new();
    let mut i: usize = 0;
    while i < actor_list.len()
        invariant
            i <= actor_list.len(),
            actors@.len() == i,
            forall|k: int| 0 <= k < i ==> (#[trigger] actors@[k]).name@ == actor_list@[k]@ && actors@[k].id == 0,
        decreases actor_list.len() - i,
    {
        actors.push(Actor::from_name(actor_list[i].clone()));
        i += 1;
    }
    let director = match optional_text(field(headers, row, "Director"), true) {
        Some(n) => Some(Director::from_name(n)),
        None => None,
    };
    let genres = list_items(&field(headers, row, "Genres"));
    let added_on = optional_text(field(headers, row, "AddedOn"), false);
    let location = optional_text(field(headers, row, "Location"), true);
    let m = FullMovie {
        id: 0,
        name: title,
        description,
        actors,
        director,
        genres,
        added_on,
        location,
        release_year: 0,
    };
    assert(actor_names(m) =~= views(actor_list@));
    m
}

/// The movies of the rows, skipping rows whose trimmed title an earlier row
/// already had.
pub fn movies_from_rows(headers: &Vec<String>, rows: &Vec<Vec<String>>) -> (r: Vec<FullMovie>)
    ensures
        ({
            let kept = first_rows(views(headers@), row_views(rows@), rows@.len() as int);
            &&& r@.len() == kept.len()
            &&& forall|j: int|
                0 <= j < kept.len() ==> imported_as(
                    #[trigger] r@[j],
                    views(headers@),
                    row_views(rows@)[kept[j]],
                )
        }),
{
    let ghost hv = views(headers@);
    let ghost rv = row_views(rows@);
    let mut r: Vec<FullMovie> = Vec::new();
    let mut seen: Vec<String> = Vec::new();
    let mut i: usize = 0;
    while i < rows.len()
        invariant
            i <= rows.len(),
            hv == views(headers@),
            rv == row_views(rows@),
            r@.len() == first_rows(hv, rv, i as int).len(),
            views(seen@) == first_rows(hv, rv, i as int).map_values(|k: int| row_title(hv, rv[k])),
            forall|j: int| 0 <= j < first_rows(hv, rv, i as int).len() ==> 0 <= #[trigger] first_rows(hv, rv, i as int)[j] < i,
            forall|j: int|
                0 <= j < first_rows(hv, rv, i as int).len() ==> imported_as(
                    #[trigger] r@[j],
                    hv,
                    rv[first_rows(hv, rv, i as int)[j]],
                ),
        decreases rows.len() - i,
    {
        assert(rv[i as int] == views(rows@[i as int]@));
        let m = movie_from_row(headers, &rows[i]);
        let ghost kept = first_rows(hv, rv, i as int);
        assert(m.name@ == row_title(hv, rv[i as int]));
        if !contains_string(&seen, &m.name) {
            let ghost before = views(seen@);
            seen.push(m.name.clone());
            r.push(m);
            assert(first_rows(hv, rv, i + 1) == kept.push(i as int));
            assert(views(seen@) =~= before.push(row_title(hv, rv[i as int])));
            assert(kept.push(i as int).map_values(|k: int| row_title(hv, rv[k])) =~= kept.map_values(
                |k: int| row_title(hv, rv[k]),
            ).push(row_title(hv, rv[i as int])));
        } else {
            assert(first_rows(hv, rv, i + 1) == kept);
        }
        i += 1;
    }
    r
}

/// Parses an import: the header row is checked, then each row becomes a
/// movie (repeated titles skipped). Errors of the CSV reader are passed on
/// as their text; a refused header row is reported as
/// `CSV header validation failed: <why>`.
pub fn parse_csv(data: &str) -> (r: Result<Vec<FullMovie>, String>)
    ensures
        match spec_csv_table(data@) {
            Err(reason) => r matches Err(e) && e@ == reason,
            Ok((headers, records)) => match header_error(headers) {
                Some(why) => r matches Err(e) && e@ == "CSV header validation failed: "@ + why,
                None => match records {
                    Err(reason) => r matches Err(e) && e@ == reason,
                    Ok(rows) => r matches Ok(movies) && {
                        let kept = first_rows(headers, rows, rows.len() as int);
                        &&& movies@.len() == kept.len()
                        &&& forall|j: int|
                            0 <= j < kept.len() ==> imported_as(#[trigger] movies@[j], headers, rows[kept[j]])
                    },
                },
            },
        },
{
    match read_csv_table(data) {
        Err(e) => Err(e),
        Ok((headers, records)) => match validate_headers(&headers) {
            Err(why) => {
                let mut e = String::from_str("CSV header validation failed: ");
                e.append(why.as_str());
                Err(e)
            },
            Ok(()) => match records {
                Err(e) => Err(e),
                Ok(rows) => {
                    let movies = movies_from_rows(&headers, &rows);
                    assert(row_views(rows@).len() == rows@.len());
                    Ok(movies)
                },
            },
        },
    }
}

// ---------------------------------------------------------------------------
// Export
// ---------------------------------------------------------------------------

/// The export's header row.
pub open spec fn export_header() -> Seq<Seq<char>> {
    seq!["Title"@, "Year"@, "Description"@, "Actors"@, "Genres"@, "Director"@, "AddedOn"@, "Location"@]
}

/// The text of an optional field, empty when absent.
pub open spec fn or_empty(s: Option<Seq<char>>) -> Seq<char> {
    match s {
        Some(x) => x,
        None => Seq::empty(),
    }
}

/// A movie's export row: title, year, description, ` | `-separated cast
/// and genres, director, date added and location (absent ones empty).
pub open spec fn export_row(m: FullMovie) -> Seq<Seq<char>> {
    seq![
        m.name@,
        int_decimal(m.release_year as int),
        or_empty(opt_view(m.description)),
        join(actor_names(m), " | "@),
        join(views(m.genres@), " | "@),
        or_empty(director_name(m)),
        or_empty(opt_view(m.added_on)),
        or_empty(opt_view(m.location)),
    ]
}

/// The rows of an export: the header, then one row per movie.
pub open spec fn export_rows(movies: Seq<FullMovie>) -> Seq<Seq<Seq<char>>> {
    seq![export_header()] + movies.map_values(|m: FullMovie| export_row(m))
}

/// An optional text, empty when absent.
fn text_or_empty(s: &Option<String>) -> (r: String)
    ensures
        r@ == or_empty(opt_view(*s)),
{
    match s {
        Some(x) => x.clone(),
        None => String::new(),
    }
}

/// The names of a movie's cast.
fn cast_list(m: &FullMovie) -> (r: Vec<String>)
    ensures
        views(r@) == actor_names(*m),
{
    let mut r: Vec<String> = Vec::new();
    let mut i: usize = 0;
    while i < m.actors.len()
        invariant
            i <= m.actors.len(),
            views(r@) == actor_names(*m).take(i as int),
        decreases m.actors.len() - i,
    {
        let ghost before = views(r@);
        r.push(m.actors[i].name.clone());
        assert(actor_names(*m)[i as int] == m.actors@[i as int].name@);
        assert(views(r@) =~= before.push(m.actors@[i as int].name@));
        assert(actor_names(*m).take(i + 1) =~= actor_names(*m).take(i as int).push(actor_names(*m)[i as int]));
        i += 1;
    }
    assert(actor_names(*m).take(m.actors.len() as int) =~= actor_names(*m));
    r
}

/// A movie's export row: title, year, description, cast and genres (` | `-separated),
/// director, date added and location.
pub fn export_row_exec(m: &FullMovie) -> (r: Vec<String>)
    ensures
        views(r@) == export_row(*m),
{
    let director = match &m.director {
        Some(d) => d.name.clone(),
        None => String::new(),
    };
    let r = vec![
        m.name.clone(),
        int_to_string(m.release_year as i64),
        text_or_empty(&m.description),
        join_strings(&cast_list(m), " | "),
        join_strings(&m.genres, " | "),
        director,
        text_or_empty(&m.added_on),
        text_or_empty(&m.location),
    ];
    assert(views(r@) =~= export_row(*m));
    r
}

/// The catalogue as CSV: a header row, then per movie its title, year,
/// description, cast and genres (` | `-separated), director, date added
/// and location, quoted only where needed. Should the writer fail, its
/// error text is returned.
pub fn movies_to_csv(movies: &Vec<FullMovie>) -> (r: Result<String, String>)
    ensures
        r matches Ok(s) && s@ == spec_csv_text(export_rows(movies@)),
        r matches Ok(s) && spec_csv_table(s@) == Ok::<
            (Seq<Seq<char>>, Result<Seq<Seq<Seq<char>>>, Seq<char>>),
            Seq<char>,
        >((export_header(), Ok(movies@.map_values(|m: FullMovie| export_row(m))))),
{
    let mut rows: Vec<Vec<String>> = Vec::new();
    let header = vec![
        String::from_str("Title"),
        String::from_str("Year"),
        String::from_str("Description"),
        String::from_str("Actors"),
        String::from_str("Genres"),
        String::from_str("Director"),
        String::from_str("AddedOn"),
        String::from_str("Location"),
    ];
    assert(views(header@) =~= export_header());
    rows.push(header);
    let mut i: usize = 0;
    while i < movies.len()
        invariant
            i <= movies.len(),
            row_views(rows@) == export_rows(movies@.take(i as int)),
            rows@.len() >= 1,
            forall|k: int| 0 <= k < rows@.len() ==> (#[trigger] rows@[k])@.len() == 8,
        decreases movies.len() - i,
    {
        let ghost before = row_views(rows@);
        let row = export_row_exec(&movies[i]);
        assert(views(row@).len() == row@.len());
        rows.push(row);
        assert(row_views(rows@) =~= before.push(export_row(movies@[i as int])));
        assert(export_rows(movies@.take(i + 1)) =~= export_rows(movies@.take(i as int)).push(export_row(movies@[i as int])));
        i += 1;
    }
    assert(movies@.take(movies.len() as int) =~= movies@);
    proof {
        reveal_strlit("Title");
        let rv = row_views(rows@);
        assert(rv[0] == export_header());
        assert(rv[0][0] == "Title"@);
        assert forall|k: int| 0 <= k < rv.len() implies (#[trigger] rv[k]).len() == rv[0].len() by {
            assert(rv[k] == views(rows@[k]@));
        }
        assert(readable_rows(rv));
        assert(rv.skip(1) =~= movies@.map_values(|m: FullMovie| export_row(m)));
    }
    write_csv_rows(&rows)
}

// ---------------------------------------------------------------------------
// Export, then import
// ---------------------------------------------------------------------------

/// An optional field that imports back as itself: absent, or a non-empty
/// text without whitespace at its ends.
pub open spec fn clean_optional(f: Option<Seq<char>>) -> bool {
    f matches Some(t) ==> t.len() > 0 && is_trimmed(t)
}

/// A list field that imports back as itself: non-empty items without `|`
/// and without whitespace at their ends.
pub open spec fn clean_list(items: Seq<Seq<char>>) -> bool {
    forall|i: int| 0 <= i < items.len() ==> (#[trigger] items[i]).len() > 0 && is_trimmed(items[i]) && !items[i].contains('|')
}

/// Where each imported column stands in the export's header row.
proof fn lemma_export_columns(m: FullMovie)
    ensures
        column(export_header(), export_row(m), "Title"@) == m.name@,
        column(export_header(), export_row(m), "Description"@) == or_empty(opt_view(m.description)),
        column(export_header(), export_row(m), "Actors"@) == join(actor_names(m), " | "@),
        column(export_header(), export_row(m), "Genres"@) == join(views(m.genres@), " | "@),
        column(export_header(), export_row(m), "Director"@) == or_empty(director_name(m)),
        column(export_header(), export_row(m), "AddedOn"@) == or_empty(opt_view(m.added_on)),
        column(export_header(), export_row(m), "Location"@) == or_empty(opt_view(m.location)),
{
    reveal_strlit("Title");
    reveal_strlit("Year");
    reveal_strlit("Description");
    reveal_strlit("Actors");
    reveal_strlit("Genres");
    reveal_strlit("Director");
    reveal_strlit("AddedOn");
    reveal_strlit("Location");
    let h = export_header();
    let names = seq!["Title"@, "Year"@, "Description"@, "Actors"@, "Genres"@, "Director"@, "AddedOn"@, "Location"@];
    assert(h == names);
    assert forall|i: int, j: int| 0 <= i < 8 && 0 <= j < 8 && i != j implies #[trigger] names[i] != #[trigger] names[j] by {
        if names[i].len() == names[j].len() {
            assert(names[i][0] != names[j][0]);
        }
    }
    assert(first_position(h, "Title"@, 0) == Some(0int));
    assert(first_position(h, "Description"@, 2) == Some(2int));
    assert(first_position(h, "Description"@, 1) == Some(2int));
    assert(first_position(h, "Description"@, 0) == Some(2int));
    assert(first_position(h, "Actors"@, 3) == Some(3int));
    assert(first_position(h, "Actors"@, 2) == Some(3int));
    assert(first_position(h, "Actors"@, 1) == Some(3int));
    assert(first_position(h, "Actors"@, 0) == Some(3int));
    assert(first_position(h, "Genres"@, 4) == Some(4int));
    assert(first_position(h, "Genres"@, 3) == Some(4int));
    assert(first_position(h, "Genres"@, 2) == Some(4int));
    assert(first_position(h, "Genres"@, 1) == Some(4int));
    assert(first_position(h, "Genres"@, 0) == Some(4int));
    assert(first_position(h, "Director"@, 5) == Some(5int));
    assert(first_position(h, "Director"@, 4) == Some(5int));
    assert(first_position(h, "Director"@, 3) == Some(5int));
    assert(first_position(h, "Director"@, 2) == Some(5int));
    assert(first_position(h, "Director"@, 1) == Some(5int));
    assert(first_position(h, "Director"@, 0) == Some(5int));
    assert(first_position(h, "AddedOn"@, 6) == Some(6int));
    assert(first_position(h, "AddedOn"@, 5) == Some(6int));
    assert(first_position(h, "AddedOn"@, 4) == Some(6int));
    assert(first_position(h, "AddedOn"@, 3) == Some(6int));
    assert(first_position(h, "AddedOn"@, 2) == Some(6int));
    assert(first_position(h, "AddedOn"@, 1) == Some(6int));
    assert(first_position(h, "AddedOn"@, 0) == Some(6int));
    assert(first_position(h, "Location"@, 7) == Some(7int));
    assert(first_position(h, "Location"@, 6) == Some(7int));
    assert(first_position(h, "Location"@, 5) == Some(7int));
    assert(first_position(h, "Location"@, 4) == Some(7int));
    assert(first_position(h, "Location"@, 3) == Some(7int));
    assert(first_position(h, "Location"@, 2) == Some(7int));
    assert(first_position(h, "Location"@, 1) == Some(7int));
    assert(first_position(h, "Location"@, 0) == Some(7int));
}

/// An optional text field that imports back as itself.
proof fn lemma_clean_optional(f: Option<Seq<char>>)
    requires
        clean_optional(f),
    ensures
        optional_field(or_empty(f), true) == f,
{
    if let Some(t) = f {
        lemma_trim_trimmed(t);
    }
}

/// A list field that imports back as itself.
proof fn lemma_clean_list(items: Seq<Seq<char>>)
    requires
        clean_list(items),
    ensures
        list_field(join(items, " | "@)) == items,
{
    reveal_strlit(" | ");
    lemma_split_trim_join(items);
    if items.len() == 0 {
        assert(join(items, " | "@) =~= Seq::<char>::empty());
    } else {
        assert(join(items, " | "@).len() > 0) by {
            lemma_join_nonempty(items);
        }
    }
}

/// Joining at least one non-empty piece gives a non-empty text.
proof fn lemma_join_nonempty(items: Seq<Seq<char>>)
    requires
        items.len() > 0,
        items[0].len() > 0,
    ensures
        join(items, " | "@).len() > 0,
    decreases items.len(),
{
    if items.len() > 1 {
        assert(items.drop_last()[0] == items[0]);
        lemma_join_nonempty(items.drop_last());
    }
}

/// With pairwise different titles, an import keeps every row, in order.
proof fn lemma_first_rows_all(headers: Seq<Seq<char>>, rows: Seq<Seq<Seq<char>>>, n: int)
    requires
        0 <= n <= rows.len(),
        forall|a: int, b: int| 0 <= a < b < rows.len() ==> row_title(headers, #[trigger] rows[a]) != row_title(headers, #[trigger] rows[b]),
    ensures
        first_rows(headers, rows, n) == Seq::new(n as nat, |i: int| i),
    decreases n,
{
    if n > 0 {
        lemma_first_rows_all(headers, rows, n - 1);
        let kept = first_rows(headers, rows, n - 1);
        let titles = kept.map_values(|k: int| row_title(headers, rows[k]));
        let t = row_title(headers, rows[n - 1]);
        assert(!titles.contains(t)) by {
            if titles.contains(t) {
                let a = choose|a: int| 0 <= a < titles.len() && titles[a] == t;
                assert(kept[a] == a);
                assert(row_title(headers, rows[a]) != row_title(headers, rows[n - 1]));
            }
        }
        assert(kept.push(n - 1) =~= Seq::new(n as nat, |i: int| i));
    } else {
        assert(first_rows(headers, rows, 0) =~= Seq::new(0, |i: int| i));
    }
}

/// The export's header row passes the import's header check.
pub proof fn lemma_export_header_accepted()
    ensures
        header_error(export_header()) is None,
{
    reveal_strlit("Title");
    reveal_strlit("Year");
    reveal_strlit("Description");
    reveal_strlit("Actors");
    reveal_strlit("Genres");
    reveal_strlit("Director");
    reveal_strlit("AddedOn");
    reveal_strlit("Location");
    let h = export_header();
    let req = required_headers();
    assert(h.len() == 8);
    assert(h[1] == YEAR_HEADER@);
    assert(h.contains(YEAR_HEADER@));
    assert(h.filter(|x: Seq<char>| x != YEAR_HEADER@) =~= req) by {
        reveal_with_fuel(Seq::filter, 9);
        assert(h.drop_last() =~= seq!["Title"@, "Year"@, "Description"@, "Actors"@, "Genres"@, "Director"@, "AddedOn"@]);
        assert(h.drop_last().drop_last() =~= seq!["Title"@, "Year"@, "Description"@, "Actors"@, "Genres"@, "Director"@]);
        assert(h.drop_last().drop_last().drop_last() =~= seq!["Title"@, "Year"@, "Description"@, "Actors"@, "Genres"@]);
        assert(h.drop_last().drop_last().drop_last().drop_last() =~= seq!["Title"@, "Year"@, "Description"@, "Actors"@]);
        assert(h.drop_last().drop_last().drop_last().drop_last().drop_last() =~= seq!["Title"@, "Year"@, "Description"@]);
        assert(h.drop_last().drop_last().drop_last().drop_last().drop_last().drop_last() =~= seq!["Title"@, "Year"@]);
        assert(h.drop_last().drop_last().drop_last().drop_last().drop_last().drop_last().drop_last() =~= seq!["Title"@]);
    }
    assert(checked_headers(h) == req);
    lemma_headers_in_any_order(req);
    assert(checked_headers(req) == req) by {
        assert(req.len() == 7);
    }
}

/// Exporting a catalogue and importing the text gives the movies back: the
/// export reads back as its header row and one row per movie
/// (`movies_to_csv`); that header row is accepted; when the titles have no
/// whitespace at their ends and differ from each other, every row is kept,
/// in order, and each movie imports with its title. Each other field comes
/// back as it was wherever that field alone exports cleanly: a description,
/// director or location that is absent or a non-empty text without
/// whitespace at its ends; cast and genre names that are non-empty, without
/// `|` and without whitespace at their ends; a date added that is absent or
/// not empty.
pub proof fn lemma_export_import_round_trip(movies: Seq<FullMovie>, imported: FullMovie, i: int)
    requires
        forall|k: int| 0 <= k < movies.len() ==> is_trimmed(#[trigger] movies[k].name@),
        forall|a: int, b: int| 0 <= a < b < movies.len() ==> (#[trigger] movies[a]).name@ != (#[trigger] movies[b]).name@,
        0 <= i < movies.len(),
        imported_as(imported, export_header(), export_row(movies[i])),
    ensures
        header_error(export_header()) is None,
        first_rows(
            export_header(),
            movies.map_values(|m: FullMovie| export_row(m)),
            movies.len() as int,
        ) == Seq::new(movies.len(), |k: int| k),
        imported.name@ == movies[i].name@,
        clean_optional(opt_view(movies[i].description)) ==> opt_view(imported.description) == opt_view(
            movies[i].description,
        ),
        clean_list(actor_names(movies[i])) ==> actor_names(imported) == actor_names(movies[i]),
        clean_optional(director_name(movies[i])) ==> director_name(imported) == director_name(movies[i]),
        clean_list(views(movies[i].genres@)) ==> views(imported.genres@) == views(movies[i].genres@),
        (movies[i].added_on matches Some(d) ==> d@.len() > 0) ==> opt_view(imported.added_on) == opt_view(
            movies[i].added_on,
        ),
        clean_optional(opt_view(movies[i].location)) ==> opt_view(imported.location) == opt_view(
            movies[i].location,
        ),
{
    lemma_export_header_accepted();
    let rows = movies.map_values(|m: FullMovie| export_row(m));
    assert forall|k: int| 0 <= k < movies.len() implies row_title(export_header(), #[trigger] rows[k]) == movies[k].name@ by {
        lemma_export_columns(movies[k]);
        lemma_trim_trimmed(movies[k].name@);
    }
    assert forall|a: int, b: int| 0 <= a < b < rows.len() implies row_title(export_header(), #[trigger] rows[a])
        != row_title(export_header(), #[trigger] rows[b]) by {
        assert(movies[a].name@ != movies[b].name@);
    }
    lemma_first_rows_all(export_header(), rows, movies.len() as int);
    let m = movies[i];
    lemma_export_columns(m);
    lemma_trim_trimmed(m.name@);
    if clean_optional(opt_view(m.description)) {
        lemma_clean_optional(opt_view(m.description));
    }
    if clean_optional(director_name(m)) {
        lemma_clean_optional(director_name(m));
    }
    if clean_optional(opt_view(m.location)) {
        lemma_clean_optional(opt_view(m.location));
    }
    if clean_list(actor_names(m)) {
        lemma_clean_list(actor_names(m));
    }
    if clean_list(views(m.genres@)) {
        lemma_clean_list(views(m.genres@));
    }
}

} // verus!
