use vstd::prelude::*;

use crate::json::{
    elems_of, get_of, parse_json, parse_view, serial_view, value_as_array, value_get,
    value_to_string,
};
use crate::text::{dec_int_spec, fmt_i32, parse_i32, parse_i32_spec, push_char};

verus! {

/// Why a search, a selection or a launch failed; every failure is fatal to
/// the invocation that met it.
#[derive(Clone, Copy, Debug, PartialEq, Eq, Structural)]
pub enum SearchError {
    /// A subprocess could not be spawned or produced no usable output.
    ProcessError,
    /// The backend's output is not valid JSON.
    ParseError,
    /// The document has no `entries` array.
    ShapeError,
    /// A required record field is missing, or a counter is not a number.
    FieldError,
    /// Zero search hits where exactly one was expected.
    EmptyResultError,
    /// The selection is not a number or is out of range.
    InputError,
}

/// One YouTube search hit, as the extraction backend reports it.
pub struct YouTubeSearchEntry {
    pub id: String,
    pub uploader: String,
    pub description: String,
    pub title: String,
    pub likes: i32,
    pub dislikes: i32,
}

/// The view of a search hit: its strings as character sequences.
pub ghost struct EntryView {
    pub id: Seq<char>,
    pub uploader: Seq<char>,
    pub description: Seq<char>,
    pub title: Seq<char>,
    pub likes: int,
    pub dislikes: int,
}

impl View for YouTubeSearchEntry {
    type V = EntryView;

    open spec fn view(&self) -> EntryView {
        EntryView {
            id: self.id@,
            uploader: self.uploader@,
            description: self.description@,
            title: self.title@,
            likes: self.likes as int,
            dislikes: self.dislikes as int,
        }
    }
}

/// The raw fields of one backend entry: each present field's serialized
/// JSON text, before any cleanup.
pub struct RawEntry {
    pub id: Option<String>,
    pub uploader: Option<String>,
    pub description: Option<String>,
    pub title: Option<String>,
    pub likes: Option<String>,
    pub dislikes: Option<String>,
}

/// The view of a raw entry: each present field as a character sequence.
pub ghost struct RawEntryView {
    pub id: Option<Seq<char>>,
    pub uploader: Option<Seq<char>>,
    pub description: Option<Seq<char>>,
    pub title: Option<Seq<char>>,
    pub likes: Option<Seq<char>>,
    pub dislikes: Option<Seq<char>>,
}

impl View for RawEntry {
    type V = RawEntryView;

    open spec fn view(&self) -> RawEntryView {
        RawEntryView {
            id: self.id.deep_view(),
            uploader: self.uploader.deep_view(),
            description: self.description.deep_view(),
            title: self.title.deep_view(),
            likes: self.likes.deep_view(),
            dislikes: self.dislikes.deep_view(),
        }
    }
}

/// A string with every double-quote character removed.
pub open spec fn strip_quotes_spec(s: Seq<char>) -> Seq<char> {
    s.filter(|c: char| c != '"')
}

/// Removes every double-quote character, the defence the backend's quoted
/// scalars call for.
pub fn strip_quotes(s: String) -> (r: String)
    ensures
        r@ == strip_quotes_spec(s@),
{
    let n = s.as_str().unicode_len();
    let mut r = String::new();
    let mut i: usize = 0;
    while i < n
        invariant
            n == s@.len(),
            i <= n,
            r@ == strip_quotes_spec(s@.take(i as int)),
        decreases n - i,
    {
        let c = s.as_str().get_char(i);
        proof {
            reveal_with_fuel(Seq::filter, 2);
            assert(s@.take(i + 1).drop_last() =~= s@.take(i as int));
            assert(s@.take(i + 1).last() == s@[i as int]);
        }
        if c != '"' {
            push_char(&mut r, c);
        }
        i = i + 1;
    }
    proof {
        assert(s@.take(n as int) =~= s@);
    }
    r
}

/// The record one raw entry yields: quote-stripped strings, the description
/// falling back to a sentinel, counters read as numbers; `None` where a
/// required field is missing or a counter does not parse. The uploader is
/// required here, as the strictest variant of the backend contract has it:
/// a missing uploader then fails loudly rather than being papered over with
/// a default nothing upstream promised.
pub open spec fn record_spec(r: RawEntryView) -> Option<EntryView> {
    if r.id is Some && r.uploader is Some && r.title is Some && r.likes is Some
        && r.dislikes is Some && parse_i32_spec(strip_quotes_spec(r.likes->Some_0)) is Some
        && parse_i32_spec(strip_quotes_spec(r.dislikes->Some_0)) is Some {
        Some(
            EntryView {
                id: strip_quotes_spec(r.id->Some_0),
                uploader: strip_quotes_spec(r.uploader->Some_0),
                description: match r.description {
                    Some(d) => strip_quotes_spec(d),
                    None => "No description"@,
                },
                title: strip_quotes_spec(r.title->Some_0),
                likes: parse_i32_spec(strip_quotes_spec(r.likes->Some_0))->Some_0 as int,
                dislikes: parse_i32_spec(strip_quotes_spec(r.dislikes->Some_0))->Some_0 as int,
            },
        )
    } else {
        None
    }
}

/// Builds one record from one raw entry, failing with `FieldError` exactly
/// where `record_spec` has no record.
pub fn build_record(raw: &RawEntry) -> (r: Result<YouTubeSearchEntry, SearchError>)
    ensures
        record_spec(raw@) is Some ==> r is Ok && r->Ok_0@ == record_spec(raw@)->Some_0,
        record_spec(raw@) is None ==> r is Err && r->Err_0 == SearchError::FieldError,
{
    let id = match &raw.id {
        Some(s) => strip_quotes(s.clone()),
        None => {
            return Err(SearchError::FieldError);
        },
    };
    let uploader = match &raw.uploader {
        Some(s) => strip_quotes(s.clone()),
        None => {
            return Err(SearchError::FieldError);
        },
    };
    let title = match &raw.title {
        Some(s) => strip_quotes(s.clone()),
        None => {
            return Err(SearchError::FieldError);
        },
    };
    let description = match &raw.description {
        Some(s) => strip_quotes(s.clone()),
        None => String::from_str("No description"),
    };
    let likes = match &raw.likes {
        Some(s) => match parse_i32(strip_quotes(s.clone()).as_str()) {
            Some(n) => n,
            None => {
                return Err(SearchError::FieldError);
            },
        },
        None => {
            return Err(SearchError::FieldError);
        },
    };
    let dislikes = match &raw.dislikes {
        Some(s) => match parse_i32(strip_quotes(s.clone()).as_str()) {
            Some(n) => n,
            None => {
                return Err(SearchError::FieldError);
            },
        },
        None => {
            return Err(SearchError::FieldError);
        },
    };
    Ok(YouTubeSearchEntry { id, uploader, description, title, likes, dislikes })
}

/// The records a whole entry list yields, in input order; the first entry
/// that yields no record fails the whole list with `FieldError`.
pub open spec fn results_spec(s: Seq<RawEntryView>) -> Result<Seq<EntryView>, SearchError>
    decreases s.len(),
{
    if s.len() == 0 {
        Ok(Seq::empty())
    } else {
        match results_spec(s.drop_last()) {
            Err(e) => Err(e),
            Ok(rs) => match record_spec(s.last()) {
                Some(ev) => Ok(rs.push(ev)),
                None => Err(SearchError::FieldError),
            },
        }
    }
}

/// The views of a sequence of raw entries.
pub open spec fn raw_seq_view(s: Seq<RawEntry>) -> Seq<RawEntryView> {
    s.map_values(|r: RawEntry| r@)
}

/// The views of a sequence of records.
pub open spec fn entry_seq_view(s: Seq<YouTubeSearchEntry>) -> Seq<EntryView> {
    s.map_values(|e: YouTubeSearchEntry| e@)
}

/// Maps every raw entry to its record, in input order, failing on the first
/// entry that yields none.
pub fn results_from_entries(raws: &Vec<RawEntry>) -> (r: Result<
    Vec<YouTubeSearchEntry>,
    SearchError,
>)
    ensures
        results_spec(raw_seq_view(raws@)) is Ok ==> r is Ok && entry_seq_view((r->Ok_0)@)
            == results_spec(raw_seq_view(raws@))->Ok_0,
        results_spec(raw_seq_view(raws@)) is Err ==> r is Err && r->Err_0 == results_spec(
            raw_seq_view(raws@),
        )->Err_0,
{
    let mut out: Vec<YouTubeSearchEntry> = Vec::new();
    let n = raws.len();
    let mut i: usize = 0;
    proof {
        assert(raw_seq_view(raws@.take(0)) =~= Seq::<RawEntryView>::empty());
        assert(entry_seq_view(out@) =~= Seq::<EntryView>::empty());
    }
    while i < n
        invariant
            n == raws@.len(),
            i <= n,
            results_spec(raw_seq_view(raws@.take(i as int))) == Ok::<
                Seq<EntryView>,
                SearchError,
            >(entry_seq_view(out@)),
        decreases n - i,
    {
        let rec = match build_record(&raws[i]) {
            Ok(rec) => rec,
            Err(e) => {
                proof {
                    lemma_results_step(raws@, i as int);
                    assert(record_spec(raws@[i as int]@) is None);
                    assert(raw_seq_view(raws@.take(i + 1)) =~= raw_seq_view(raws@).take(i + 1));
                    lemma_results_error_propagates(raw_seq_view(raws@), i + 1);
                }
                return Err(e);
            },
        };
        proof {
            lemma_results_step(raws@, i as int);
            assert(entry_seq_view(out@.push(rec)) =~= entry_seq_view(out@).push(rec@));
        }
        out.push(rec);
        i = i + 1;
    }
    proof {
        assert(raws@.take(n as int) =~= raws@);
    }
    Ok(out)
}

/// One unfolding of `results_spec` along a prefix.
proof fn lemma_results_step(raws: Seq<RawEntry>, i: int)
    requires
        0 <= i < raws.len(),
    ensures
        results_spec(raw_seq_view(raws.take(i + 1))) == (match results_spec(
            raw_seq_view(raws.take(i)),
        ) {
            Err(e) => Err(e),
            Ok(rs) => match record_spec(raws[i]@) {
                Some(ev) => Ok::<Seq<EntryView>, SearchError>(rs.push(ev)),
                None => Err::<Seq<EntryView>, SearchError>(SearchError::FieldError),
            },
        }),
        raw_seq_view(raws)[i] == raws[i]@,
{
    assert(raw_seq_view(raws.take(i + 1)).drop_last() =~= raw_seq_view(raws.take(i)));
    assert(raw_seq_view(raws.take(i + 1)).last() == raws[i]@);
}

/// Once a prefix of the entry list fails, the whole list fails the same way.
proof fn lemma_results_error_propagates(s: Seq<RawEntryView>, k: int)
    requires
        0 <= k <= s.len(),
        results_spec(s.take(k)) is Err,
    ensures
        results_spec(s) is Err,
        results_spec(s)->Err_0 == results_spec(s.take(k))->Err_0,
    decreases s.len() - k,
{
    if k < s.len() {
        assert(s.take(k + 1).drop_last() =~= s.take(k));
        lemma_results_error_propagates(s, k + 1);
    } else {
        assert(s.take(k) =~= s);
    }
}

/// When every entry yields a record, the search yields exactly one record
/// per entry, in input order.
pub proof fn lemma_results_in_order(s: Seq<RawEntryView>)
    requires
        forall|i: int| 0 <= i < s.len() ==> record_spec(#[trigger] s[i]) is Some,
    ensures
        results_spec(s) is Ok,
        results_spec(s)->Ok_0.len() == s.len(),
        forall|i: int|
            0 <= i < s.len() ==> results_spec(s)->Ok_0[i] == record_spec(#[trigger] s[i])->Some_0,
    decreases s.len(),
{
    if s.len() > 0 {
        assert(forall|i: int|
            0 <= i < s.drop_last().len() ==> record_spec(#[trigger] s.drop_last()[i]) is Some);
        lemma_results_in_order(s.drop_last());
        assert forall|i: int|
            0 <= i < s.len() implies results_spec(s)->Ok_0[i] == record_spec(
            #[trigger] s[i],
        )->Some_0 by {
            if i < s.len() - 1 {
                assert(s.drop_last()[i] == s[i]);
                assert(results_spec(s)->Ok_0[i] == results_spec(s.drop_last())->Ok_0[i]);
            }
        }
    }
}

/// When some entry yields no record, the whole list fails with `FieldError`.
pub proof fn lemma_results_field_error(s: Seq<RawEntryView>, i: int)
    requires
        0 <= i < s.len(),
        record_spec(s[i]) is None,
    ensures
        results_spec(s) is Err,
        results_spec(s)->Err_0 == SearchError::FieldError,
    decreases s.len(),
{
    lemma_results_error_only_field(s);
    if i < s.len() - 1 {
        lemma_results_field_error(s.drop_last(), i);
    }
}

/// The only error an entry list ever fails with is `FieldError`.
proof fn lemma_results_error_only_field(s: Seq<RawEntryView>)
    ensures
        results_spec(s) is Err ==> results_spec(s)->Err_0 == SearchError::FieldError,
    decreases s.len(),
{
    if s.len() > 0 {
        lemma_results_error_only_field(s.drop_last());
    }
}

/// The raw fields that one backend entry carries, the entry given by its
/// compact serialization, each field the serialized text of the named field.
pub open spec fn raw_of_entry(e: Seq<char>) -> RawEntryView {
    RawEntryView {
        id: get_of(e, "id"@),
        uploader: get_of(e, "uploader"@),
        description: get_of(e, "description"@),
        title: get_of(e, "title"@),
        likes: get_of(e, "like_count"@),
        dislikes: get_of(e, "dislike_count"@),
    }
}

/// Reads the six record fields out of one entry value.
fn collect_raw(e: &serde_json::Value) -> (r: RawEntry)
    ensures
        r@ == raw_of_entry(serial_view(*e)),
{
    let id = match value_get(e, "id") {
        Some(v) => Some(value_to_string(v)),
        None => None,
    };
    let uploader = match value_get(e, "uploader") {
        Some(v) => Some(value_to_string(v)),
        None => None,
    };
    let description = match value_get(e, "description") {
        Some(v) => Some(value_to_string(v)),
        None => None,
    };
    let title = match value_get(e, "title") {
        Some(v) => Some(value_to_string(v)),
        None => None,
    };
    let likes = match value_get(e, "like_count") {
        Some(v) => Some(value_to_string(v)),
        None => None,
    };
    let dislikes = match value_get(e, "dislike_count") {
        Some(v) => Some(value_to_string(v)),
        None => None,
    };
    RawEntry { id, uploader, description, title, likes, dislikes }
}

/// What reading the backend's output yields, as a function of the output
/// text alone: `ParseError` where the text is not valid JSON; `ShapeError`
/// where the document has no `entries` array; otherwise every entry's
/// record, in input order, the first entry that yields no record failing
/// the whole list with `FieldError`.
pub open spec fn search_spec(output: Seq<char>) -> Result<Seq<EntryView>, SearchError> {
    match parse_view(output) {
        None => Err(SearchError::ParseError),
        Some(doc) => match get_of(doc, "entries"@) {
            None => Err(SearchError::ShapeError),
            Some(field) => match elems_of(field) {
                None => Err(SearchError::ShapeError),
                Some(es) => results_spec(es.map_values(|e: Seq<char>| raw_of_entry(e))),
            },
        },
    }
}

/// The only errors a search ever fails with are `ParseError`, `ShapeError`
/// and `FieldError`.
pub proof fn lemma_search_spec_errors(output: Seq<char>)
    ensures
        search_spec(output) is Err ==> search_spec(output)->Err_0 == SearchError::ParseError
            || search_spec(output)->Err_0 == SearchError::ShapeError || search_spec(output)->Err_0
            == SearchError::FieldError,
{
    if parse_view(output) is Some {
        let doc = parse_view(output)->Some_0;
        if get_of(doc, "entries"@) is Some {
            let field = get_of(doc, "entries"@)->Some_0;
            if elems_of(field) is Some {
                let es = elems_of(field)->Some_0;
                lemma_results_error_only_field(es.map_values(|e: Seq<char>| raw_of_entry(e)));
            }
        }
    }
}

/// Reads the extraction backend's output: parses it as JSON, takes the
/// `entries` array, and maps every entry to a record, in input order; the
/// result is exactly `search_spec` of the output text.
pub fn search(output: &str) -> (r: Result<Vec<YouTubeSearchEntry>, SearchError>)
    ensures
        search_spec(output@) is Ok ==> r is Ok && entry_seq_view((r->Ok_0)@) == search_spec(
            output@,
        )->Ok_0,
        search_spec(output@) is Err ==> r is Err && r->Err_0 == search_spec(output@)->Err_0,
{
    let doc = match parse_json(output) {
        Ok(v) => v,
        Err(_) => {
            return Err(SearchError::ParseError);
        },
    };
    let entries_field = match value_get(&doc, "entries") {
        Some(e) => e,
        None => {
            return Err(SearchError::ShapeError);
        },
    };
    let arr = match value_as_array(entries_field) {
        Some(a) => a,
        None => {
            return Err(SearchError::ShapeError);
        },
    };
    let ghost es = elems_of(serial_view(*entries_field))->Some_0;
    let n = arr.len();
    let mut raws: Vec<RawEntry> = Vec::new();
    let mut i: usize = 0;
    while i < n
        invariant
            n == arr@.len(),
            n == es.len(),
            i <= n,
            raws@.len() == i,
            forall|j: int| 0 <= j < n ==> serial_view(#[trigger] arr@[j]) == es[j],
            forall|j: int| 0 <= j < i ==> #[trigger] raws@[j]@ == raw_of_entry(es[j]),
        decreases n - i,
    {
        let raw = collect_raw(&arr[i]);
        raws.push(raw);
        i = i + 1;
    }
    proof {
        assert(raw_seq_view(raws@) =~= es.map_values(|e: Seq<char>| raw_of_entry(e)));
    }
    results_from_entries(&raws)
}

/// Returns the first of the results, or `EmptyResultError` where there is
/// none; never reaches into an empty list.
pub fn first_result(results: Vec<YouTubeSearchEntry>) -> (r: Result<
    YouTubeSearchEntry,
    SearchError,
>)
    ensures
        results@.len() == 0 ==> r is Err && r->Err_0 == SearchError::EmptyResultError,
        results@.len() > 0 ==> r is Ok && r->Ok_0 == results@[0],
{
    let mut results = results;
    if results.len() == 0 {
        Err(SearchError::EmptyResultError)
    } else {
        Ok(results.remove(0))
    }
}

/// What a single-hit search yields, as a function of the output text alone:
/// any failure of reading the output passes through unchanged, zero entries
/// fail with `EmptyResultError`, and otherwise the first record is returned.
pub open spec fn search_id_spec(output: Seq<char>) -> Result<EntryView, SearchError> {
    match search_spec(output) {
        Err(e) => Err(e),
        Ok(es) => if es.len() == 0 {
            Err(SearchError::EmptyResultError)
        } else {
            Ok(es[0])
        },
    }
}

/// Reads the backend's output for a single-hit search and returns the one
/// record; the result is exactly `search_id_spec` of the output text. In
/// particular a backend that reports zero entries fails with
/// `EmptyResultError`, and only such a backend does: an empty result list is
/// answered, never reached into.
pub fn search_id(output: &str) -> (r: Result<YouTubeSearchEntry, SearchError>)
    ensures
        search_id_spec(output@) is Ok ==> r is Ok && (r->Ok_0)@ == search_id_spec(output@)->Ok_0,
        search_id_spec(output@) is Err ==> r is Err && r->Err_0 == search_id_spec(output@)->Err_0,
        (r is Err && r->Err_0 == SearchError::EmptyResultError) <==> (search_spec(output@) is Ok
            && search_spec(output@)->Ok_0.len() == 0),
{
    proof {
        lemma_search_spec_errors(output@);
    }
    match search(output) {
        Ok(results) => first_result(results),
        Err(e) => Err(e),
    }
}

/// The canonical watch URL: a fixed prefix followed by the id with quote
/// characters removed.
pub open spec fn watch_url_spec(id: Seq<char>) -> Seq<char> {
    "https://youtube.com/watch?v="@ + strip_quotes_spec(id)
}

/// Derives the canonical watch URL for an id.
pub fn watch_url(id: &str) -> (r: String)
    ensures
        r@ == watch_url_spec(id@),
{
    let stripped = strip_quotes(String::from_str(id));
    let url = String::from_str("https://youtube.com/watch?v=");
    url.concat(stripped.as_str())
}

/// The backend search token: `ytsearch`, the result limit in decimal, a
/// colon, then the raw query text.
pub open spec fn search_token_spec(query: Seq<char>, limit: int) -> Seq<char> {
    "ytsearch"@ + dec_int_spec(limit) + ":"@ + query
}

/// Builds the backend search token for a query and a result limit.
pub fn search_token(query: &str, limit: i32) -> (r: String)
    ensures
        r@ == search_token_spec(query@, limit as int),
{
    let mut s = String::from_str("ytsearch");
    s.append(fmt_i32(limit).as_str());
    s.append(":");
    s.append(query);
    proof {
        assert(s@ =~= search_token_spec(query@, limit as int));
    }
    s
}

} // verus!
