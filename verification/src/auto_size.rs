//! The model-size lookup pipeline: derive a model name from a log file name,
//! build the catalog URL for it, classify the fetched response, and extract
//! the reported "Variables" count from the page's table cells.

use crate::error::AutoGetSizeError;
use crate::error::GetError;
use crate::error::ParseError;
use vstd::prelude::*;
use vstd::string::StrSliceExecFns;
use vstd::string::StringExecFns;

verus! {

/// The file-name suffix that marks a log file as following the
/// `<MODEL_NAME>-init.csv` naming convention.
pub open spec fn def_tail() -> Seq<char> {
    "-init.csv"@
}

/// Whether `s` ends with the naming-convention suffix.
pub open spec fn ends_with_tail(s: Seq<char>) -> bool {
    s.len() >= def_tail().len() && s.subrange(
        s.len() - def_tail().len(),
        s.len() as int,
    ) == def_tail()
}

/// Character-by-character equality of two text slices.
fn str_eq(a: &str, b: &str) -> (r: bool)
    ensures
        r == (a@ == b@),
{
    let an: usize = a.unicode_len();
    let bn: usize = b.unicode_len();
    if an != bn {
        return false;
    }
    let mut i: usize = 0;
    while i < an
        invariant
            i <= an,
            an == a@.len(),
            bn == b@.len(),
            an == bn,
            forall|j: int| 0 <= j < i ==> a@[j] == b@[j],
        decreases an - i,
    {
        if a.get_char(i) != b.get_char(i) {
            return false;
        }
        i += 1;
    }
    proof {
        assert(a@ =~= b@);
    }
    true
}

/// Strips the `-init.csv` suffix from a log file name, yielding the model
/// name, or reports that the name does not follow the convention.
pub fn derive_model_name(name: &str) -> (r: Option<String>)
    ensures
        match r {
            Some(p) => name@ == p@ + def_tail(),
            None => !ends_with_tail(name@),
        },
{
    proof {
        reveal_strlit("-init.csv");
    }
    let tail: &str = "-init.csv";
    let tail_len: usize = tail.unicode_len();
    let n: usize = name.unicode_len();
    if n < tail_len {
        return None;
    }
    let suffix: &str = name.substring_char(n - tail_len, n);
    if str_eq(suffix, tail) {
        let prefix: &str = name.substring_char(0, n - tail_len);
        proof {
            assert(name@ =~= prefix@ + suffix@);
        }
        Some(String::from_str(prefix))
    } else {
        None
    }
}

/// Whether `c` is a decimal digit.
pub open spec fn is_digit(c: char) -> bool {
    '0' <= c && c <= '9'
}

/// The value of a decimal digit.
pub open spec fn digit_val(c: char) -> int {
    c as int - '0' as int
}

/// Whether every character of `s` is a decimal digit.
pub open spec fn all_digits(s: Seq<char>) -> bool {
    forall|i: int| 0 <= i < s.len() ==> is_digit(#[trigger] s[i])
}

/// The value of a digit string read in base ten.
pub open spec fn digits_value(s: Seq<char>) -> int
    decreases s.len(),
{
    if s.len() == 0 {
        0
    } else {
        digits_value(s.drop_last()) * 10 + digit_val(s.last())
    }
}

/// The digit part of a numeral: the text with an optional leading plus
/// sign removed.
pub open spec fn numeric_body(s: Seq<char>) -> Seq<char> {
    if s.len() > 0 && s[0] == '+' {
        s.drop_first()
    } else {
        s
    }
}

/// What parsing a cell's text as a non-negative machine integer yields:
/// the value of an optionally plus-signed, non-empty digit string, provided
/// it fits the machine word; nothing otherwise.
pub open spec fn parse_usize_spec(s: Seq<char>) -> Option<usize> {
    let b = numeric_body(s);
    if b.len() > 0 && all_digits(b) && digits_value(b) <= usize::MAX {
        Some(digits_value(b) as usize)
    } else {
        None
    }
}

proof fn lemma_digits_value_nonneg(s: Seq<char>)
    requires
        all_digits(s),
    ensures
        digits_value(s) >= 0,
    decreases s.len(),
{
    if s.len() > 0 {
        assert(all_digits(s.drop_last()));
        lemma_digits_value_nonneg(s.drop_last());
    }
}

/// A digit string is worth at least any of its prefixes.
proof fn lemma_digits_value_prefix(s: Seq<char>, k: int)
    requires
        all_digits(s),
        0 <= k <= s.len(),
    ensures
        digits_value(s) >= digits_value(s.take(k)),
    decreases s.len() - k,
{
    if k < s.len() {
        assert(all_digits(s.take(k + 1)));
        lemma_digits_value_nonneg(s.take(k + 1));
        assert(s.take(k + 1).drop_last() =~= s.take(k));
        assert(digits_value(s.take(k + 1)) == digits_value(s.take(k)) * 10 + digit_val(s.take(
            k + 1,
        ).last()));
        lemma_digits_value_nonneg(s.take(k));
        lemma_digits_value_prefix(s, k + 1);
    } else {
        assert(s.take(k) =~= s);
    }
}

/// Parses a table cell's text as a non-negative integer, exactly as the
/// extraction step reads a value cell: an optional leading `+`, then one or
/// more decimal digits, the whole fitting a machine word.
pub fn parse_cell_value(s: &str) -> (r: Option<usize>)
    ensures
        r == parse_usize_spec(s@),
{
    let n: usize = s.unicode_len();
    let mut i: usize = 0;
    if n > 0 && s.get_char(0) == '+' {
        i = 1;
    }
    let ghost body = numeric_body(s@);
    proof {
        assert(body =~= s@.subrange(i as int, n as int));
    }
    if i == n {
        return None;
    }
    let mut acc: usize = 0;
    let mut j: usize = i;
    while j < n
        invariant
            i <= j <= n,
            n == s@.len(),
            body == numeric_body(s@),
            body == s@.subrange(i as int, n as int),
            all_digits(s@.subrange(i as int, j as int)),
            acc == digits_value(s@.subrange(i as int, j as int)),
        decreases n - j,
    {
        let c = s.get_char(j);
        if !('0' <= c && c <= '9') {
            proof {
                assert(body[j - i] == s@[j as int]);
                assert(!is_digit(body[j - i]));
                assert(!all_digits(body));
            }
            return None;
        }
        let d: usize = (c as usize) - ('0' as usize);
        proof {
            assert(s@.subrange(i as int, j + 1).drop_last() =~= s@.subrange(i as int, j as int));
            assert(all_digits(s@.subrange(i as int, j + 1)));
        }
        let stepped: Option<usize> = match acc.checked_mul(10) {
            Some(m) => m.checked_add(d),
            None => None,
        };
        match stepped {
            Some(v) => {
                acc = v;
            },
            None => {
                proof {
                    let done = s@.subrange(i as int, j + 1);
                    assert(digits_value(done) == acc * 10 + d);
                    assert(digits_value(done) > usize::MAX);
                    if all_digits(body) {
                        assert(done =~= body.take(j + 1 - i));
                        lemma_digits_value_prefix(body, j + 1 - i);
                    }
                }
                return None;
            },
        }
        j += 1;
    }
    proof {
        assert(s@.subrange(i as int, j as int) =~= body);
    }
    Some(acc)
}

/// The label cell whose immediate successor holds the variable count.
pub open spec fn label_text() -> Seq<char> {
    "Variables"@
}

/// The size a forward scan of the table cells yields: the first cell equal
/// to `Variables` designates its immediate successor as the value cell, and
/// the scan stops there whether or not that successor parses.
pub open spec fn size_from_cells(cells: Seq<Seq<char>>) -> Option<usize>
    decreases cells.len(),
{
    if cells.len() == 0 {
        None
    } else if cells[0] == label_text() {
        if cells.len() >= 2 {
            parse_usize_spec(cells[1])
        } else {
            None
        }
    } else {
        size_from_cells(cells.skip(1))
    }
}

/// The inner text of every `td` cell of an HTML document, in document order,
/// as scraper's parser recovers them from possibly malformed input.
pub uninterp spec fn td_cells_of(html: Seq<char>) -> Seq<Seq<char>>;

/// Relies on scraper: `Html::parse_document` builds a tree from the text
/// alone (with the parser's own error recovery, never a failure),
/// `select` with the selector `td` walks that tree's `td` elements in
/// document order, and `inner_html` serializes each cell's contents. The
/// selector literal `td` always parses, so the `unwrap` cannot panic.
#[verifier::external_body]
fn td_inner_texts(html: &str) -> (r: Vec<String>)
    ensures
        r.deep_view() == td_cells_of(html@),
{
    let doc = scraper::Html::parse_document(html);
    let sel = scraper::Selector::parse("td").unwrap();
    doc.select(&sel).map(|e| e.inner_html()).collect()
}

/// Scans table cells for the `Variables` label and parses the cell that
/// immediately follows it, per `size_from_cells`.
pub fn extract_variable_count(cells: &Vec<String>) -> (r: Option<usize>)
    ensures
        r == size_from_cells(cells.deep_view()),
{
    let ghost all = cells.deep_view();
    let n: usize = cells.len();
    let mut k: usize = 0;
    proof {
        assert(all.skip(0) =~= all);
    }
    while k < n
        invariant
            k <= n,
            n == cells@.len(),
            all == cells.deep_view(),
            all.len() == n,
            size_from_cells(all) == size_from_cells(all.skip(k as int)),
        decreases n - k,
    {
        proof {
            assert(all[k as int] == cells@[k as int]@);
        }
        if str_eq(cells[k].as_str(), "Variables") {
            if k + 1 < n {
                proof {
                    assert(all.skip(k as int)[0] == all[k as int]);
                    assert(all.skip(k as int)[1] == all[k + 1]);
                    assert(all[k + 1] == cells@[k + 1]@);
                }
                return parse_cell_value(cells[k + 1].as_str());
            } else {
                proof {
                    assert(all.skip(k as int)[0] == all[k as int]);
                    assert(all.skip(k as int).len() == 1);
                }
                return None;
            }
        }
        proof {
            assert(all.skip(k as int)[0] == all[k as int]);
            assert(all.skip(k as int).skip(1) =~= all.skip(k + 1));
        }
        k += 1;
    }
    proof {
        assert(all.skip(k as int).len() == 0);
    }
    None
}

/// The size reported by an HTML catalog page: what the cell scan finds among
/// the page's `td` cells.
pub open spec fn size_in_page(html: Seq<char>) -> Option<usize> {
    size_from_cells(td_cells_of(html))
}

/// Extracts the `Variables` count from a catalog page, tolerating malformed
/// HTML through the parser's own error recovery.
pub fn get_model_size_from_html(html: &str) -> (r: Option<usize>)
    ensures
        r == size_in_page(html@),
{
    let cells = td_inner_texts(html);
    extract_variable_count(&cells)
}

/// Extraction is a pure function of the document content: identical HTML
/// text always yields the identical result.
pub proof fn lemma_size_extraction_deterministic(a: Seq<char>, b: Seq<char>)
    requires
        a == b,
    ensures
        size_in_page(a) == size_in_page(b),
{
}

/// The fixed part of a catalog page address that precedes the model name.
pub open spec fn url_prefix() -> Seq<char> {
    "https://miplib.zib.de/instance_details_"@
}

/// The fixed part of a catalog page address that follows the model name.
pub open spec fn url_suffix() -> Seq<char> {
    ".html"@
}

/// The catalog page address for a model name. The name is interpolated as
/// it stands, with no escaping: callers are trusted to supply URL-safe
/// identifiers.
pub open spec fn lookup_url(name: Seq<char>) -> Seq<char> {
    url_prefix() + name + url_suffix()
}

/// Builds the instance-details URL for a model name.
pub fn build_instance_url(name: &str) -> (r: String)
    ensures
        r@ == lookup_url(name@),
{
    let mut url = String::from_str("https://miplib.zib.de/instance_details_");
    url.append(name);
    url.append(".html");
    url
}

/// Whether an HTTP status code lies in the success range.
pub open spec fn is_success_status(status: u16) -> bool {
    200 <= status < 300
}

/// Sorts a completed HTTP exchange: a success status passes the body
/// through; any other status becomes a `GetError` carrying the requested
/// URL, the status, and the transport's reason, when it offered one.
pub fn classify_response(url: String, status: u16, reason: Option<String>, body: String) -> (r:
    Result<String, GetError>)
    ensures
        is_success_status(status) ==> r == Ok::<String, GetError>(body),
        !is_success_status(status) ==> (r matches Err(e) && e.url == url && e.status == status
            && e.reason == reason),
{
    if 200 <= status && status < 300 {
        Ok(body)
    } else {
        Err(GetError::new(url, status, reason))
    }
}

/// What one attempted fetch of a catalog page came back with: either a
/// completed HTTP exchange (status, optional reason phrase, body), or a
/// transport-level failure with the transport's report.
pub enum FetchOutcome {
    Response { status: u16, reason: Option<String>, body: String },
    TransportFailure(String),
}

/// Turns the outcome of fetching the catalog page for `name` into the size
/// that page reports: a transport failure and a non-success status each map
/// to their error kind, and a fetched page yields the cell scan's finding,
/// absence included.
pub fn get_model_size(name: &str, outcome: FetchOutcome) -> (r: Result<
    Option<usize>,
    ParseError,
>)
    ensures
        match outcome {
            FetchOutcome::TransportFailure(m) => r == Err::<Option<usize>, ParseError>(
                ParseError::Transport(m),
            ),
            FetchOutcome::Response { status, reason, body } => (if is_success_status(status) {
                r == Ok::<Option<usize>, ParseError>(size_in_page(body@))
            } else {
                r matches Err(ParseError::RemoteLookup(e)) && e.url@ == lookup_url(name@)
                    && e.status == status && e.reason == reason
            }),
        },
{
    match outcome {
        FetchOutcome::TransportFailure(m) => Err(ParseError::Transport(m)),
        FetchOutcome::Response { status, reason, body } => {
            let url = build_instance_url(name);
            match classify_response(url, status, reason, body) {
                Ok(page) => Ok(get_model_size_from_html(page.as_str())),
                Err(e) => Err(ParseError::RemoteLookup(e)),
            }
        },
    }
}

/// The index just after the last `/` of `s`; 0 when `s` has none.
pub open spec fn after_last_slash(s: Seq<char>) -> int
    decreases s.len(),
{
    if s.len() == 0 {
        0
    } else if s.last() == '/' {
        s.len() as int
    } else {
        after_last_slash(s.drop_last())
    }
}

proof fn lemma_after_last_slash_bounds(s: Seq<char>)
    ensures
        0 <= after_last_slash(s) <= s.len(),
        s.len() > 0 && s.last() != '/' ==> after_last_slash(s) < s.len(),
    decreases s.len(),
{
    if s.len() > 0 && s.last() != '/' {
        lemma_after_last_slash_bounds(s.drop_last());
    }
}

proof fn lemma_after_last_slash_at(s: Seq<char>, p: int)
    requires
        0 <= p <= s.len(),
        forall|j: int| p <= j < s.len() ==> s[j] != '/',
        p > 0 ==> s[p - 1] == '/',
    ensures
        after_last_slash(s) == p,
    decreases s.len(),
{
    if s.len() == 0 {
    } else if s.last() == '/' {
        assert(p == s.len());
    } else {
        assert(p < s.len());
        lemma_after_last_slash_at(s.drop_last(), p);
    }
}

/// The final component of a path written as text with `/` separators, or
/// nothing when the path has none: trailing separators and bare `.`
/// components are skipped, and a path whose last remaining component is
/// `..` names no file.
pub open spec fn final_segment(s: Seq<char>) -> Option<Seq<char>>
    decreases s.len(),
    via final_segment_decreases
{
    if s.len() == 0 {
        None
    } else if s.last() == '/' {
        final_segment(s.drop_last())
    } else {
        let comp = s.subrange(after_last_slash(s), s.len() as int);
        if comp == seq!['.'] {
            final_segment(s.take(after_last_slash(s)))
        } else if comp == seq!['.', '.'] {
            None
        } else {
            Some(comp)
        }
    }
}

#[via_fn]
proof fn final_segment_decreases(s: Seq<char>) {
    lemma_after_last_slash_bounds(s);
}

/// The start of the path component that ends at `end`: the index after the
/// nearest `/` before it, or 0.
fn component_start(s: &str, end: usize) -> (start: usize)
    requires
        end <= s@.len(),
    ensures
        start <= end,
        forall|j: int| start <= j < end ==> s@[j] != '/',
        start > 0 ==> s@[start - 1] == '/',
{
    let mut start: usize = end;
    loop
        invariant
            start <= end <= s@.len(),
            forall|j: int| start <= j < end ==> s@[j] != '/',
        decreases start,
    {
        if start == 0 {
            return start;
        }
        if s.get_char(start - 1) == '/' {
            return start;
        }
        start = start - 1;
    }
}

/// Extracts the final path component of `log_name`, the file name whose
/// shape the pipeline inspects. A path with no final component is rejected;
/// the path is already text, so no encoding failure can arise here (that
/// check belongs to whoever turns a platform path into text).
pub fn get_path_name(log_name: &str) -> (r: Result<String, ParseError>)
    ensures
        match r {
            Ok(seg) => final_segment(log_name@) == Some(seg@),
            Err(e) => final_segment(log_name@) is None && (e matches ParseError::PathExtraction(p)
                && p@ == log_name@),
        },
{
    let n: usize = log_name.unicode_len();
    let mut end: usize = n;
    proof {
        assert(log_name@.take(n as int) =~= log_name@);
    }
    loop
        invariant
            end <= n,
            n == log_name@.len(),
            final_segment(log_name@) == final_segment(log_name@.take(end as int)),
        decreases end,
    {
        let ghost t = log_name@.take(end as int);
        if end == 0 {
            return Err(ParseError::PathExtraction(String::from_str(log_name)));
        }
        let c = log_name.get_char(end - 1);
        proof {
            assert(t.last() == log_name@[end - 1]);
        }
        if c == '/' {
            proof {
                assert(t.drop_last() =~= log_name@.take(end - 1));
            }
            end = end - 1;
        } else {
            let start = component_start(log_name, end);
            let ghost comp = t.subrange(start as int, end as int);
            proof {
                assert(forall|j: int| start <= j < end ==> t[j] == log_name@[j]);
                lemma_after_last_slash_at(t, start as int);
                assert(comp =~= log_name@.subrange(start as int, end as int));
            }
            let len: usize = end - start;
            if len == 1 && log_name.get_char(start) == '.' {
                proof {
                    assert(comp =~= seq!['.']);
                    assert(t.take(start as int) =~= log_name@.take(start as int));
                }
                end = start;
            } else if len == 2 && log_name.get_char(start) == '.' && log_name.get_char(start + 1)
                == '.' {
                proof {
                    assert(comp =~= seq!['.', '.']);
                    assert(comp != seq!['.']);
                }
                return Err(ParseError::PathExtraction(String::from_str(log_name)));
            } else {
                let seg = log_name.substring_char(start, end);
                proof {
                    if comp == seq!['.'] {
                        assert(comp.len() == 1);
                        assert(comp[0] == '.');
                        assert(false);
                    }
                    if comp == seq!['.', '.'] {
                        assert(comp.len() == 2);
                        assert(comp[0] == '.');
                        assert(comp[1] == '.');
                        assert(false);
                    }
                    assert(comp =~= seg@);
                }
                return Ok(String::from_str(seg));
            }
        }
    }
}

/// Derives the model name to look up from a log file path: the final path
/// component, stripped of the `-init.csv` suffix. Fails before any fetch
/// could happen, with the failure naming what was wrong: a path without a
/// final component, or a name outside the convention.
pub fn prepare_lookup(log_name: &str) -> (r: Result<String, ParseError>)
    ensures
        match r {
            Ok(name) => (final_segment(log_name@) matches Some(seg) && seg == name@
                + def_tail()),
            Err(e) => match e {
                ParseError::PathExtraction(p) => final_segment(log_name@) is None && p@
                    == log_name@,
                ParseError::Size(AutoGetSizeError::WrongFormat(seg)) => final_segment(log_name@)
                    == Some(seg@) && !ends_with_tail(seg@),
                _ => false,
            },
        },
{
    let seg = match get_path_name(log_name) {
        Ok(s) => s,
        Err(e) => {
            return Err(e);
        },
    };
    match derive_model_name(seg.as_str()) {
        Some(name) => Ok(name),
        None => Err(ParseError::Size(AutoGetSizeError::WrongFormat(seg))),
    }
}

/// Finishes a lookup once the fetch for `name` has an outcome: the size the
/// fetched page reports, or the typed failure that stopped the pipeline. A
/// page without a usable size is itself a failure, never a default value.
pub fn complete_lookup(name: &str, outcome: FetchOutcome) -> (r: Result<usize, ParseError>)
    ensures
        match outcome {
            FetchOutcome::TransportFailure(m) => r == Err::<usize, ParseError>(
                ParseError::Transport(m),
            ),
            FetchOutcome::Response { status, reason, body } => (if !is_success_status(status) {
                r matches Err(ParseError::RemoteLookup(e)) && e.url@ == lookup_url(name@)
                    && e.status == status && e.reason == reason
            } else {
                match size_in_page(body@) {
                    Some(v) => r == Ok::<usize, ParseError>(v),
                    None => (r matches Err(ParseError::Size(AutoGetSizeError::SizeNotFound(m)))
                        && m@ == name@),
                }
            }),
        },
{
    match get_model_size(name, outcome) {
        Err(e) => Err(e),
        Ok(found) => match found {
            Some(v) => Ok(v),
            None => Err(ParseError::Size(AutoGetSizeError::SizeNotFound(String::from_str(name)))),
        },
    }
}

} // verus!
