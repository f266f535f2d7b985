//! Source packs: turning a Grok Responses API reply into an answer, tool-call
//! records and a sorted, de-duplicated list of cited sources.

use vstd::prelude::*;
use crate::json::{Json, JsonV, jv, jv_items, lemma_jv_items, field, str_value, str_field, array_field, json_text, lookup, parsed_json};
use crate::text::{drop_end_while, trim_spec, has_sub, has_prefix, occurs_at, owned};

verus! {

/// Where a source lives.
#[derive(Clone, Copy, Debug, PartialEq, Eq, Structural)]
pub enum SourceType {
    X,
    Web,
    Unknown,
}

/// One cited source of a search answer.
pub struct Source {
    pub url: String,
    pub title: Option<String>,
    pub description: Option<String>,
    pub provider: String,
    pub source_type: SourceType,
    pub provenance: Vec<String>,
    /// RFC 3339 time stamp of the response the source was seen in.
    pub observed_at: String,
    pub handle: Option<String>,
    pub post_id: Option<String>,
}

/// The mathematical value of a [`Source`].
pub struct SourceV {
    pub url: Seq<char>,
    pub title: Option<Seq<char>>,
    pub description: Option<Seq<char>>,
    pub provider: Seq<char>,
    pub source_type: SourceType,
    pub provenance: Seq<Seq<char>>,
    pub observed_at: Seq<char>,
    pub handle: Option<Seq<char>>,
    pub post_id: Option<Seq<char>>,
}

impl View for Source {
    type V = SourceV;

    open spec fn view(&self) -> SourceV {
        SourceV {
            url: self.url@,
            title: self.title.deep_view(),
            description: self.description.deep_view(),
            provider: self.provider@,
            source_type: self.source_type,
            provenance: self.provenance.deep_view(),
            observed_at: self.observed_at@,
            handle: self.handle.deep_view(),
            post_id: self.post_id.deep_view(),
        }
    }
}

/// The views of a list of sources.
pub open spec fn sources_view(s: Seq<Source>) -> Seq<SourceV> {
    s.map_values(|x: Source| x@)
}

/// A source candidate: URL, title, description and provenance label.
pub type Candidate = (String, Option<String>, Option<String>, String);

pub type CandV = (Seq<char>, Option<Seq<char>>, Option<Seq<char>>, Seq<char>);

/// The texts that `Regex::new(pattern)` then `find_iter(text)` yields, in order;
/// `None` when the pattern does not compile.
pub uninterp spec fn regex_match_texts(pattern: Seq<char>, text: Seq<char>) -> Option<
    Seq<Seq<char>>,
>;

/// `regex::Regex::new(pattern)` followed by `find_iter(text)`: the texts of all
/// non-overlapping leftmost-first matches.  The matches are only named here; of
/// each, the contract says only that it is a piece of `text` (`Match::as_str`
/// is the matched part of the haystack).
#[verifier::external_body]
fn regex_find_all(pattern: &str, text: &str) -> (r: Option<Vec<String>>)
    ensures
        r is None <==> regex_match_texts(pattern@, text@) is None,
        r matches Some(ms) ==> regex_match_texts(pattern@, text@) == Some(ms.deep_view()),
        r matches Some(ms) ==> forall|k: int|
            0 <= k < ms.deep_view().len() ==> has_sub(text@, #[trigger] ms.deep_view()[k]),
{
    match regex::Regex::new(pattern) {
        Ok(re) => Some(re.find_iter(text).map(|m| m.as_str().to_string()).collect()),
        Err(_) => None,
    }
}

/// The capture groups of the first match of `pattern` in `text`, as
/// `Regex::new(pattern)` then `captures(text)` finds them (group 0 is the whole
/// match; a group that did not take part is `None`); `None` when the pattern does
/// not compile or nothing matches.
pub uninterp spec fn regex_first_captures(pattern: Seq<char>, text: Seq<char>) -> Option<
    Seq<Option<Seq<char>>>,
>;

/// `regex::Regex::new(pattern)` followed by `captures(text)`.  The groups are only
/// named here.
#[verifier::external_body]
fn regex_captures(pattern: &str, text: &str) -> (r: Option<Vec<Option<String>>>)
    ensures
        r is None <==> regex_first_captures(pattern@, text@) is None,
        r matches Some(gs) ==> regex_first_captures(pattern@, text@) == Some(gs.deep_view()),
{
    match regex::Regex::new(pattern) {
        Ok(re) => re.captures(text).map(
            |caps| caps.iter().map(|g| g.map(|m| m.as_str().to_string())).collect(),
        ),
        Err(_) => None,
    }
}

/// An `http(s)` URL up to the first white space, quote, angle bracket, closing
/// parenthesis or full-width punctuation mark.
pub const URL_PATTERN: &'static str = "https?://[^\\s<>\"'`，。、；：！？》）】\\)]+";

/// A post URL on X or Twitter: handle and numeric post id.
pub const X_STATUS_PATTERN: &'static str = "https?://(?:x|twitter)\\.com/([^/\\s]+)/status/([0-9]+)";

/// Punctuation that never ends a URL.
pub open spec fn url_trailing() -> Seq<char> {
    seq!['.', ',', ';', ':', '!', '?']
}

/// Distinct URLs from regex matches, trailing punctuation removed, first occurrence first.
pub open spec fn urls_of_matches(ms: Seq<Seq<char>>) -> Seq<Seq<char>>
    decreases ms.len(),
{
    if ms.len() == 0 {
        seq![]
    } else {
        let prev = urls_of_matches(ms.drop_last());
        let u = drop_end_while(ms.last(), false, url_trailing());
        if prev.contains(u) {
            prev
        } else {
            prev.push(u)
        }
    }
}

/// Extracted URLs are distinct, and none ends with `.,;:!?`.
pub proof fn law_urls_distinct_and_trimmed(ms: Seq<Seq<char>>)
    ensures
        forall|i: int, j: int|
            0 <= i < j < urls_of_matches(ms).len() ==> #[trigger] urls_of_matches(ms)[i]
                != #[trigger] urls_of_matches(ms)[j],
        forall|i: int|
            0 <= i < urls_of_matches(ms).len() && #[trigger] urls_of_matches(ms)[i].len() > 0
                ==> !url_trailing().contains(urls_of_matches(ms)[i].last()),
    decreases ms.len(),
{
    if ms.len() > 0 {
        law_urls_distinct_and_trimmed(ms.drop_last());
        let prev = urls_of_matches(ms.drop_last());
        let u = drop_end_while(ms.last(), false, url_trailing());
        crate::text::lemma_drop_end_shape(ms.last(), false, url_trailing());
        let r = urls_of_matches(ms);
        if !prev.contains(u) {
            assert forall|i: int, j: int| 0 <= i < j < r.len() implies #[trigger] r[i] != #[trigger] r[j] by {
                if j == r.len() - 1 {
                    assert(r[j] == u);
                    assert(r[i] == prev[i]);
                } else {
                    assert(r[i] == prev[i] && r[j] == prev[j]);
                }
            }
            assert forall|i: int| 0 <= i < r.len() && #[trigger] r[i].len() > 0 implies !url_trailing().contains(r[i].last()) by {
                if i < prev.len() {
                    assert(r[i] == prev[i]);
                }
            }
        }
    }
}

proof fn lemma_prefix_in_text(text: Seq<char>, m: Seq<char>, n: int)
    requires
        has_sub(text, m),
        0 <= n <= m.len(),
    ensures
        has_sub(text, m.subrange(0, n)),
{
    let i = choose|i: int| occurs_at(text, m, i);
    assert(text.subrange(i, i + n) =~= m.subrange(0, n)) by {
        assert forall|k: int| 0 <= k < n implies text.subrange(i, i + n)[k] == m.subrange(0, n)[k] by {
            assert(text.subrange(i, i + m.len())[k] == m[k]);
        }
    }
    assert(occurs_at(text, m.subrange(0, n), i));
}

/// URLs taken from pieces of a text are pieces of that text.
pub proof fn law_matched_urls_in_text(ms: Seq<Seq<char>>, text: Seq<char>)
    requires
        forall|k: int| 0 <= k < ms.len() ==> has_sub(text, #[trigger] ms[k]),
    ensures
        forall|k: int|
            0 <= k < urls_of_matches(ms).len() ==> has_sub(text, #[trigger] urls_of_matches(ms)[k]),
    decreases ms.len(),
{
    if ms.len() > 0 {
        law_matched_urls_in_text(ms.drop_last(), text);
        let prev = urls_of_matches(ms.drop_last());
        let m = ms.last();
        assert(has_sub(text, ms[ms.len() - 1]));
        let u = drop_end_while(m, false, url_trailing());
        crate::text::lemma_drop_end_shape(m, false, url_trailing());
        lemma_prefix_in_text(text, m, u.len() as int);
        let r = urls_of_matches(ms);
        assert forall|k: int| 0 <= k < r.len() implies has_sub(text, #[trigger] r[k]) by {
            if k < prev.len() {
                assert(r[k] == prev[k]);
            } else {
                assert(r[k] == u);
            }
        }
    }
}

/// URL extraction is complete and adds nothing: every match, with trailing
/// `.,;:!?` removed, is among the URLs, and every URL is such a trimmed match.
pub proof fn law_urls_complete(ms: Seq<Seq<char>>)
    ensures
        forall|k: int|
            0 <= k < ms.len() ==> urls_of_matches(ms).contains(
                drop_end_while(#[trigger] ms[k], false, seq!['.', ',', ';', ':', '!', '?']),
            ),
        forall|j: int|
            0 <= j < urls_of_matches(ms).len() ==> exists|k: int|
                0 <= k < ms.len() && #[trigger] urls_of_matches(ms)[j] == drop_end_while(
                    #[trigger] ms[k],
                    false,
                    seq!['.', ',', ';', ':', '!', '?'],
                ),
    decreases ms.len(),
{
    assert(url_trailing() =~= seq!['.', ',', ';', ':', '!', '?']);
    if ms.len() > 0 {
        law_urls_complete(ms.drop_last());
        let prev = urls_of_matches(ms.drop_last());
        let r = urls_of_matches(ms);
        let n = ms.len() - 1;
        let u = drop_end_while(ms[n], false, seq!['.', ',', ';', ':', '!', '?']);
        assert(ms.last() == ms[n]);
        assert(r.contains(u)) by {
            if prev.contains(u) {
                assert(r == prev);
            } else {
                assert(r[prev.len() as int] == u);
            }
        }
        assert forall|k: int| 0 <= k < ms.len() implies r.contains(
            drop_end_while(#[trigger] ms[k], false, seq!['.', ',', ';', ':', '!', '?']),
        ) by {
            if k < n {
                assert(ms.drop_last()[k] == ms[k]);
                let w = drop_end_while(ms[k], false, seq!['.', ',', ';', ':', '!', '?']);
                assert(prev.contains(w));
                let t = choose|t: int| 0 <= t < prev.len() && prev[t] == w;
                assert(r[t] == prev[t]);
            }
        }
        assert forall|j: int| 0 <= j < r.len() implies exists|k: int|
            0 <= k < ms.len() && #[trigger] r[j] == drop_end_while(
                #[trigger] ms[k],
                false,
                seq!['.', ',', ';', ':', '!', '?'],
            ) by {
            if j < prev.len() {
                assert(r[j] == prev[j]);
                let k = choose|k: int|
                    0 <= k < ms.drop_last().len() && #[trigger] prev[j] == drop_end_while(
                        #[trigger] ms.drop_last()[k],
                        false,
                        seq!['.', ',', ';', ':', '!', '?'],
                    );
                assert(ms.drop_last()[k] == ms[k]);
            } else {
                assert(r[j] == u);
            }
        }
    }
}

/// What `extract_urls` returns for a text.
pub open spec fn urls_in(text: Seq<char>) -> Seq<Seq<char>> {
    match regex_match_texts(URL_PATTERN@, text) {
        Some(ms) => urls_of_matches(ms),
        None => seq![],
    }
}

fn contains_string(v: &Vec<String>, s: &String) -> (b: bool)
    ensures
        b == v.deep_view().contains(s@),
{
    let mut i: usize = 0;
    while i < v.len()
        invariant
            i <= v@.len(),
            forall|k: int| 0 <= k < i ==> v@[k]@ != s@,
        decreases v@.len() - i,
    {
        if v[i] == *s {
            assert(v.deep_view()[i as int] == s@);
            return true;
        }
        i = i + 1;
    }
    assert forall|k: int| 0 <= k < v.deep_view().len() implies v.deep_view()[k] != s@ by {
        assert(v.deep_view()[k] == v@[k]@);
    }
    false
}

/// Distinct URLs from regex match texts, trailing `.,;:!?` removed, in first-seen order.
pub fn urls_from_matches(ms: &Vec<String>) -> (r: Vec<String>)
    ensures
        r.deep_view() == urls_of_matches(ms.deep_view()),
        forall|k: int|
            0 <= k < ms.deep_view().len() ==> r.deep_view().contains(
                drop_end_while(#[trigger] ms.deep_view()[k], false, seq!['.', ',', ';', ':', '!', '?']),
            ),
{
    proof {
        law_urls_complete(ms.deep_view());
    }
    let trailing = ['.', ',', ';', ':', '!', '?'];
    assert(trailing@ =~= url_trailing());
    let ghost dv = ms.deep_view();
    let mut out: Vec<String> = Vec::new();
    let mut i: usize = 0;
    while i < ms.len()
        invariant
            i <= ms@.len(),
            dv == ms.deep_view(),
            trailing@ == url_trailing(),
            out.deep_view() == urls_of_matches(dv.take(i as int)),
        decreases ms@.len() - i,
    {
        let u = crate::text::trim_end_set(ms[i].as_str(), &trailing);
        proof {
            assert(dv.take(i + 1).drop_last() =~= dv.take(i as int));
            assert(dv.take(i + 1).last() == ms@[i as int]@);
        }
        if !contains_string(&out, &u) {
            let ghost before = out.deep_view();
            out.push(u);
            assert(out.deep_view() =~= before.push(u@));
        }
        i = i + 1;
    }
    assert(dv.take(ms@.len() as int) =~= dv);
    out
}

/// Every distinct `http(s)` URL in `text`, trailing punctuation removed, in order
/// of first appearance.
pub fn extract_urls(text: &str) -> (r: Vec<String>)
    ensures
        r.deep_view() == urls_in(text@),
        forall|k: int| 0 <= k < r.deep_view().len() ==> has_sub(text@, #[trigger] r.deep_view()[k]),
        match regex_match_texts(URL_PATTERN@, text@) {
            Some(ms) => forall|k: int|
                0 <= k < ms.len() ==> r.deep_view().contains(
                    drop_end_while(#[trigger] ms[k], false, seq!['.', ',', ';', ':', '!', '?']),
                ),
            None => r.len() == 0,
        },
{
    match regex_find_all(URL_PATTERN, text) {
        Some(ms) => {
            proof {
                law_matched_urls_in_text(ms.deep_view(), text@);
            }
            urls_from_matches(&ms)
        },
        None => Vec::new(),
    }
}

/// A URL on X or Twitter.
pub open spec fn is_x_url_spec(url: Seq<char>) -> bool {
    has_sub(url, "://x.com/"@) || has_sub(url, "://twitter.com/"@)
}

pub fn is_x_url(url: &str) -> (b: bool)
    ensures
        b == is_x_url_spec(url@),
{
    crate::text::contains_str(url, "://x.com/") || crate::text::contains_str(url, "://twitter.com/")
}

/// Handle and post id from the capture groups of a post URL match.
pub open spec fn x_parts_of(groups: Option<Seq<Option<Seq<char>>>>) -> (
    Option<Seq<char>>,
    Option<Seq<char>>,
) {
    match groups {
        Some(gs) => (
            if gs.len() > 1 {
                gs[1]
            } else {
                None
            },
            if gs.len() > 2 {
                gs[2]
            } else {
                None
            },
        ),
        None => (None, None),
    }
}

/// Handle and post id of an X post URL.
pub open spec fn x_url_parts(url: Seq<char>) -> (Option<Seq<char>>, Option<Seq<char>>) {
    x_parts_of(regex_first_captures(X_STATUS_PATTERN@, url))
}

fn group_at(gs: &Vec<Option<String>>, i: usize) -> (r: Option<String>)
    ensures
        r.deep_view() == (if i < gs@.len() {
            gs.deep_view()[i as int]
        } else {
            None
        }),
{
    if i < gs.len() {
        match &gs[i] {
            Some(s) => Some(s.clone()),
            None => None,
        }
    } else {
        None
    }
}

/// Handle and post id from the capture groups of a post URL match.
pub fn x_parts_from_captures(groups: &Option<Vec<Option<String>>>) -> (r: (
    Option<String>,
    Option<String>,
))
    ensures
        (r.0.deep_view(), r.1.deep_view()) == x_parts_of(groups.deep_view()),
{
    match groups {
        Some(gs) => (group_at(gs, 1), group_at(gs, 2)),
        None => (None, None),
    }
}

/// Handle and post id of an X post URL (`None`s for any other URL).
pub fn parse_x_url(url: &str) -> (r: (Option<String>, Option<String>))
    ensures
        (r.0.deep_view(), r.1.deep_view()) == x_url_parts(url@),
{
    let groups = regex_captures(X_STATUS_PATTERN, url);
    x_parts_from_captures(&groups)
}


/// Code-point lexicographic order: the order of `String`'s `Ord` (UTF-8 preserves
/// code-point order byte by byte).
pub open spec fn lex_lt(a: Seq<char>, b: Seq<char>) -> bool
    decreases a.len(),
{
    if a.len() == 0 {
        b.len() > 0
    } else if b.len() == 0 {
        false
    } else if a[0] != b[0] {
        (a[0] as int) < (b[0] as int)
    } else {
        lex_lt(a.drop_first(), b.drop_first())
    }
}

pub proof fn lemma_lex_irreflexive(a: Seq<char>)
    ensures
        !lex_lt(a, a),
    decreases a.len(),
{
    if a.len() > 0 {
        lemma_lex_irreflexive(a.drop_first());
    }
}

pub proof fn lemma_lex_transitive(a: Seq<char>, b: Seq<char>, c: Seq<char>)
    requires
        lex_lt(a, b),
        lex_lt(b, c),
    ensures
        lex_lt(a, c),
    decreases a.len(),
{
    if a.len() > 0 && b.len() > 0 && c.len() > 0 {
        if a[0] == b[0] && b[0] == c[0] {
            lemma_lex_transitive(a.drop_first(), b.drop_first(), c.drop_first());
        }
    }
}

pub proof fn lemma_lex_total(a: Seq<char>, b: Seq<char>)
    ensures
        a == b || lex_lt(a, b) || lex_lt(b, a),
    decreases a.len(),
{
    if a.len() > 0 && b.len() > 0 {
        if a[0] == b[0] {
            lemma_lex_total(a.drop_first(), b.drop_first());
            if a.drop_first() == b.drop_first() {
                assert(a =~= seq![a[0]] + a.drop_first());
                assert(b =~= seq![b[0]] + b.drop_first());
            }
        } else {
            assert((a[0] as int) != (b[0] as int));
        }
    } else if a.len() == 0 && b.len() == 0 {
        assert(a =~= b);
    }
}

/// `a < b` for strings.
pub fn str_lt(a: &str, b: &str) -> (r: bool)
    ensures
        r == lex_lt(a@, b@),
{
    let x = crate::text::chars_of(a);
    let y = crate::text::chars_of(b);
    let mut k: usize = 0;
    proof {
        assert(x@.skip(0) =~= x@);
        assert(y@.skip(0) =~= y@);
    }
    while k < x.len() && k < y.len() && x[k] == y[k]
        invariant
            k <= x@.len(),
            k <= y@.len(),
            lex_lt(a@, b@) == lex_lt(x@.skip(k as int), y@.skip(k as int)),
            x@ == a@,
            y@ == b@,
        decreases x@.len() - k,
    {
        assert(x@.skip(k as int).drop_first() =~= x@.skip(k + 1));
        assert(y@.skip(k as int).drop_first() =~= y@.skip(k + 1));
        k = k + 1;
    }
    if k == x.len() {
        k < y.len()
    } else if k == y.len() {
        false
    } else {
        x[k] < y[k]
    }
}

/// The key under which a candidate URL is filed: trimmed, trailing slashes removed.
pub open spec fn clean_url(u: Seq<char>) -> Seq<char> {
    drop_end_while(trim_spec(u), false, seq!['/'])
}

/// Number of leading sources whose URL sorts before `u`.
pub open spec fn insert_pos(s: Seq<SourceV>, u: Seq<char>) -> int
    decreases s.len(),
{
    if s.len() > 0 && lex_lt(s[0].url, u) {
        1 + insert_pos(s.drop_first(), u)
    } else {
        0
    }
}

/// Kind of a URL.
pub open spec fn source_type_of(u: Seq<char>) -> SourceType {
    if is_x_url_spec(u) {
        SourceType::X
    } else if has_prefix(u, "http://"@) || has_prefix(u, "https://"@) {
        SourceType::Web
    } else {
        SourceType::Unknown
    }
}

/// A source first seen through candidate `c`, filed under `u`.
pub open spec fn fresh_source(u: Seq<char>, c: CandV, observed: Seq<char>) -> SourceV {
    SourceV {
        url: u,
        title: c.1,
        description: c.2,
        provider: if is_x_url_spec(u) {
            "x"@
        } else {
            "grok"@
        },
        source_type: source_type_of(u),
        provenance: seq![c.3],
        observed_at: observed,
        handle: x_url_parts(u).0,
        post_id: x_url_parts(u).1,
    }
}

/// A known source seen again through candidate `c`: missing title and
/// description are filled in, a new provenance label is appended.
pub open spec fn merged_source(s: SourceV, c: CandV) -> SourceV {
    SourceV {
        title: if s.title is None {
            c.1
        } else {
            s.title
        },
        description: if s.description is None {
            c.2
        } else {
            s.description
        },
        provenance: if s.provenance.contains(c.3) {
            s.provenance
        } else {
            s.provenance.push(c.3)
        },
        ..s
    }
}

/// Index of the first source of the X post `id`, or -1 when there is none.
pub open spec fn post_index(s: Seq<SourceV>, id: Seq<char>) -> int
    decreases s.len(),
{
    if s.len() == 0 {
        -1
    } else if s[0].post_id == Some(id) {
        0
    } else {
        let k = post_index(s.drop_first(), id);
        if k < 0 {
            -1
        } else {
            k + 1
        }
    }
}

/// Where a candidate filed under `u` joins an existing source by its X post:
/// the index of the source of the same post, or -1.
pub open spec fn post_match(s: Seq<SourceV>, u: Seq<char>) -> int {
    match x_url_parts(u).1 {
        Some(id) => post_index(s, id),
        None => -1,
    }
}

/// Sources after one more candidate: a candidate joins the source with its
/// cleaned URL, else the source of the same X post, else it starts a new source
/// at its place in URL order.
pub open spec fn add_candidate(s: Seq<SourceV>, c: CandV, observed: Seq<char>) -> Seq<SourceV> {
    let u = clean_url(c.0);
    if u.len() == 0 {
        s
    } else {
        let p = insert_pos(s, u);
        if p < s.len() && s[p].url == u {
            s.update(p, merged_source(s[p], c))
        } else {
            let q = post_match(s, u);
            if q >= 0 {
                s.update(q, merged_source(s[q], c))
            } else {
                s.insert(p, fresh_source(u, c, observed))
            }
        }
    }
}

pub proof fn lemma_post_index(s: Seq<SourceV>, id: Seq<char>)
    ensures
        -1 <= post_index(s, id) < s.len(),
        post_index(s, id) >= 0 ==> s[post_index(s, id)].post_id == Some(id),
        forall|i: int| 0 <= i < s.len() && (post_index(s, id) < 0 || i < post_index(s, id))
            ==> #[trigger] s[i].post_id != Some(id),
    decreases s.len(),
{
    if s.len() > 0 && s[0].post_id != Some(id) {
        lemma_post_index(s.drop_first(), id);
        assert forall|i: int| 0 <= i < s.len() && (post_index(s, id) < 0 || i < post_index(s, id))
            implies #[trigger] s[i].post_id != Some(id) by {
            if i > 0 {
                assert(s[i] == s.drop_first()[i - 1]);
            }
        }
    }
}

/// The sources that `normalize_sources` makes of a candidate list.
pub open spec fn normalized(cs: Seq<CandV>, observed: Seq<char>) -> Seq<SourceV>
    decreases cs.len(),
{
    if cs.len() == 0 {
        seq![]
    } else {
        add_candidate(normalized(cs.drop_last(), observed), cs.last(), observed)
    }
}

pub proof fn lemma_insert_pos(s: Seq<SourceV>, u: Seq<char>)
    ensures
        0 <= insert_pos(s, u) <= s.len(),
        forall|i: int| 0 <= i < insert_pos(s, u) ==> lex_lt(#[trigger] s[i].url, u),
        insert_pos(s, u) < s.len() ==> !lex_lt(s[insert_pos(s, u)].url, u),
    decreases s.len(),
{
    if s.len() > 0 && lex_lt(s[0].url, u) {
        lemma_insert_pos(s.drop_first(), u);
        assert forall|i: int| 0 <= i < insert_pos(s, u) implies lex_lt(#[trigger] s[i].url, u) by {
            if i > 0 {
                assert(s[i] == s.drop_first()[i - 1]);
            }
        }
    }
}

fn fresh_source_exec(
    u: String,
    handle: Option<String>,
    post_id: Option<String>,
    c: &Candidate,
    observed_at: &str,
) -> (r: Source)
    requires
        (handle.deep_view(), post_id.deep_view()) == x_url_parts(u@),
    ensures
        r@ == fresh_source(u@, c.deep_view(), observed_at@),
{
    let x = is_x_url(u.as_str());
    let source_type = if x {
        SourceType::X
    } else if crate::text::starts_with(u.as_str(), "http://") || crate::text::starts_with(
        u.as_str(),
        "https://",
    ) {
        SourceType::Web
    } else {
        SourceType::Unknown
    };
    let mut provenance: Vec<String> = Vec::new();
    provenance.push(c.3.clone());
    let r = Source {
        url: u,
        title: c.1.clone(),
        description: c.2.clone(),
        provider: if x {
            owned("x")
        } else {
            owned("grok")
        },
        source_type,
        provenance,
        observed_at: owned(observed_at),
        handle,
        post_id,
    };
    assert(r.provenance.deep_view() =~= seq![c.3@]);
    r
}

fn merge_into(src: &mut Source, c: &Candidate)
    ensures
        final(src)@ == merged_source(old(src)@, c.deep_view()),
{
    if src.title.is_none() {
        src.title = c.1.clone();
    }
    if src.description.is_none() {
        src.description = c.2.clone();
    }
    if !contains_string(&src.provenance, &c.3) {
        let ghost before = src.provenance.deep_view();
        src.provenance.push(c.3.clone());
        assert(src.provenance.deep_view() =~= before.push(c.3@));
    }
}

/// The index of the first source of the X post `id`, if any.
fn find_post(out: &Vec<Source>, id: &String) -> (r: Option<usize>)
    ensures
        match r {
            Some(q) => q as int == post_index(sources_view(out@), id@),
            None => post_index(sources_view(out@), id@) < 0,
        },
{
    let ghost sv = sources_view(out@);
    proof {
        lemma_post_index(sv, id@);
    }
    let mut q: usize = 0;
    while q < out.len()
        invariant
            q <= out@.len(),
            sv == sources_view(out@),
            -1 <= post_index(sv, id@) < sv.len(),
            post_index(sv, id@) >= 0 ==> sv[post_index(sv, id@)].post_id == Some(id@),
            forall|i: int|
                0 <= i < sv.len() && (post_index(sv, id@) < 0 || i < post_index(sv, id@))
                    ==> #[trigger] sv[i].post_id != Some(id@),
            forall|i: int| 0 <= i < q ==> #[trigger] sv[i].post_id != Some(id@),
        decreases out@.len() - q,
    {
        let hit = match &out[q].post_id {
            Some(p) => crate::text::same_text(p.as_str(), id.as_str()),
            None => false,
        };
        assert(sv[q as int] == out@[q as int]@);
        if hit {
            assert(sv[q as int].post_id == Some(id@));
            return Some(q);
        }
        q = q + 1;
    }
    None
}

/// Merges candidates into sources, sorted by URL: a candidate joins the source
/// with its cleaned URL, else the source of the same X post; the first title and
/// description seen win, provenance labels are collected once each.
pub fn normalize_sources(candidates: Vec<Candidate>, observed_at: &str) -> (r: Vec<Source>)
    ensures
        sources_view(r@) == normalized(candidates.deep_view(), observed_at@),
        forall|i: int|
            0 <= i < r@.len() ==> {
                let s = #[trigger] sources_view(r@)[i];
                &&& (has_sub(s.url, "://x.com/"@) || has_sub(s.url, "://twitter.com/"@)) ==> s.source_type
                    == SourceType::X && s.provider == "x"@
                &&& !(has_sub(s.url, "://x.com/"@) || has_sub(s.url, "://twitter.com/"@)) && (has_prefix(
                    s.url,
                    "http://"@,
                ) || has_prefix(s.url, "https://"@)) ==> s.source_type == SourceType::Web
                    && s.provider == "grok"@
                &&& !(has_sub(s.url, "://x.com/"@) || has_sub(s.url, "://twitter.com/"@)) && !has_prefix(
                    s.url,
                    "http://"@,
                ) && !has_prefix(s.url, "https://"@) ==> s.source_type == SourceType::Unknown
                    && s.provider == "grok"@
            },
{
    proof {
        law_normalized_source_kinds(candidates.deep_view(), observed_at@);
    }
    let ghost cs = candidates.deep_view();
    let mut out: Vec<Source> = Vec::new();
    let slash = ['/'];
    assert(slash@ =~= seq!['/']);
    let mut i: usize = 0;
    while i < candidates.len()
        invariant
            i <= candidates@.len(),
            cs == candidates.deep_view(),
            slash@ == seq!['/'],
            sources_view(out@) == normalized(cs.take(i as int), observed_at@),
        decreases candidates@.len() - i,
    {
        let c = &candidates[i];
        proof {
            assert(cs.take(i + 1).drop_last() =~= cs.take(i as int));
            assert(cs.take(i + 1).last() == c.deep_view());
        }
        let ghost prev = sources_view(out@);
        let trimmed = crate::text::trim(c.0.as_str());
        let clean = crate::text::trim_end_set(trimmed.as_str(), &slash);
        if !clean.as_str().is_empty() {
            proof {
                lemma_insert_pos(prev, clean@);
            }
            let mut p: usize = 0;
            assert(prev.skip(0) =~= prev);
            while p < out.len() && str_lt(out[p].url.as_str(), clean.as_str())
                invariant
                    p <= out@.len(),
                    prev == sources_view(out@),
                    insert_pos(prev, clean@) == p + insert_pos(prev.skip(p as int), clean@),
                decreases out@.len() - p,
            {
                assert(prev.skip(p as int)[0] == prev[p as int]);
                assert(prev.skip(p as int).drop_first() =~= prev.skip(p + 1));
                p = p + 1;
            }
            proof {
                if p < out.len() {
                    assert(prev.skip(p as int)[0] == prev[p as int]);
                }
            }
            if p < out.len() && crate::text::same_text(out[p].url.as_str(), clean.as_str()) {
                let mut src = out.remove(p);
                merge_into(&mut src, c);
                out.insert(p, src);
                assert(sources_view(out@) =~= prev.update(p as int, merged_source(prev[p as int], c.deep_view())));
            } else {
                let (handle, post_id) = parse_x_url(clean.as_str());
                let q = match &post_id {
                    Some(id) => find_post(&out, id),
                    None => None,
                };
                proof {
                    lemma_post_index(prev, post_id.deep_view().unwrap_or(seq![]));
                }
                match q {
                    Some(q) => {
                        let mut src = out.remove(q);
                        merge_into(&mut src, c);
                        out.insert(q, src);
                        assert(sources_view(out@) =~= prev.update(q as int, merged_source(prev[q as int], c.deep_view())));
                    },
                    None => {
                        let src = fresh_source_exec(clean, handle, post_id, c, observed_at);
                        out.insert(p, src);
                        assert(sources_view(out@) =~= prev.insert(p as int, fresh_source(clean@, c.deep_view(), observed_at@)));
                    },
                }
            }
        } else {
            assert(clean@.len() == 0);
        }
        i = i + 1;
    }
    assert(cs.take(candidates@.len() as int) =~= cs);
    out
}


/// The elements of an array-valued field, or nothing.
pub open spec fn items_field(v: JsonV, key: Seq<char>) -> Seq<JsonV> {
    match array_field(v, key) {
        Some(items) => items,
        None => seq![],
    }
}

/// One candidate per URL, all with the same title, description and provenance.
pub open spec fn url_candidates(
    urls: Seq<Seq<char>>,
    t: Option<Seq<char>>,
    d: Option<Seq<char>>,
    prov: Seq<char>,
) -> Seq<CandV> {
    urls.map_values(|u: Seq<char>| (u, t, d, prov))
}

/// The string under the first of three keys that is present (not necessarily a string).
pub open spec fn first_present_str(v: JsonV, k1: Seq<char>, k2: Seq<char>, k3: Seq<char>) -> Option<
    Seq<char>,
> {
    match field(v, k1) {
        Some(x) => str_value(x),
        None => match field(v, k2) {
            Some(x) => str_value(x),
            None => match field(v, k3) {
                Some(x) => str_value(x),
                None => None,
            },
        },
    }
}

/// A link field holding an `http(s)` URL.
pub open spec fn link_candidate(
    v: JsonV,
    key: Seq<char>,
    t: Option<Seq<char>>,
    d: Option<Seq<char>>,
    prov: Seq<char>,
) -> Seq<CandV> {
    match str_field(v, key) {
        Some(u) => if has_prefix(u, "http://"@) || has_prefix(u, "https://"@) {
            seq![(u, t, d, prov)]
        } else {
            seq![]
        },
        None => seq![],
    }
}

/// The candidates that one citation or annotation value yields.
pub open spec fn candidates_of(v: JsonV, prov: Seq<char>) -> Seq<CandV> {
    match v {
        JsonV::Str(s) => url_candidates(urls_in(s), None, None, prov),
        JsonV::Object(_) => {
            let t = first_present_str(v, "title"@, "name"@, "label"@);
            let d = first_present_str(v, "description"@, "snippet"@, "content"@);
            link_candidate(v, "url"@, t, d, prov) + link_candidate(v, "href"@, t, d, prov)
                + link_candidate(v, "link"@, t, d, prov) + link_candidate(v, "source"@, t, d, prov)
                + link_candidate(v, "uri"@, t, d, prov) + url_candidates(
                urls_in(json_text(v)),
                t,
                d,
                prov,
            )
        },
        _ => seq![],
    }
}

/// Candidates of a list of values, in order.
pub open spec fn candidates_of_all(items: Seq<JsonV>, prov: Seq<char>) -> Seq<CandV>
    decreases items.len(),
{
    if items.len() == 0 {
        seq![]
    } else {
        candidates_of_all(items.drop_last(), prov) + candidates_of(items.last(), prov)
    }
}

fn push_url_candidates(
    urls: Vec<String>,
    t: &Option<String>,
    d: &Option<String>,
    prov: &str,
    out: &mut Vec<Candidate>,
)
    ensures
        final(out).deep_view() == old(out).deep_view() + url_candidates(
            urls.deep_view(),
            t.deep_view(),
            d.deep_view(),
            prov@,
        ),
{
    let ghost start = out.deep_view();
    let ghost uv = urls.deep_view();
    let mut i: usize = 0;
    while i < urls.len()
        invariant
            i <= urls@.len(),
            uv == urls.deep_view(),
            out.deep_view() == start + url_candidates(uv.take(i as int), t.deep_view(), d.deep_view(), prov@),
        decreases urls@.len() - i,
    {
        let ghost before = out.deep_view();
        out.push((urls[i].clone(), t.clone(), d.clone(), owned(prov)));
        assert(out.deep_view() =~= before.push((uv[i as int], t.deep_view(), d.deep_view(), prov@)));
        assert(url_candidates(uv.take(i + 1), t.deep_view(), d.deep_view(), prov@) =~= url_candidates(
            uv.take(i as int),
            t.deep_view(),
            d.deep_view(),
            prov@,
        ).push((uv[i as int], t.deep_view(), d.deep_view(), prov@)));
        i = i + 1;
    }
    assert(uv.take(urls@.len() as int) =~= uv);
}

fn first_present_str_exec(v: &Json, k1: &str, k2: &str, k3: &str) -> (r: Option<String>)
    ensures
        r.deep_view() == first_present_str(jv(*v), k1@, k2@, k3@),
{
    let f = match v.get(k1) {
        Some(x) => Some(x),
        None => match v.get(k2) {
            Some(x) => Some(x),
            None => v.get(k3),
        },
    };
    match f {
        Some(x) => match x.as_str() {
            Some(s) => Some(s.clone()),
            None => None,
        },
        None => None,
    }
}

fn push_link_candidate(
    v: &Json,
    key: &str,
    t: &Option<String>,
    d: &Option<String>,
    prov: &str,
    out: &mut Vec<Candidate>,
)
    ensures
        final(out).deep_view() == old(out).deep_view() + link_candidate(
            jv(*v),
            key@,
            t.deep_view(),
            d.deep_view(),
            prov@,
        ),
{
    let ghost start = out.deep_view();
    if let Some(x) = v.get(key) {
        if let Some(u) = x.as_str() {
            if crate::text::starts_with(u.as_str(), "http://") || crate::text::starts_with(
                u.as_str(),
                "https://",
            ) {
                out.push((u.clone(), t.clone(), d.clone(), owned(prov)));
                assert(out.deep_view() =~= start + seq![(u@, t.deep_view(), d.deep_view(), prov@)]);
                return ;
            }
        }
    }
    assert(out.deep_view() =~= start + link_candidate(jv(*v), key@, t.deep_view(), d.deep_view(), prov@));
}

/// Appends the source candidates that a citation or annotation value yields:
/// URLs in a string; for an object, its link fields and every URL in its JSON text,
/// labelled with its title and description.
pub fn collect_source_candidate(value: &Json, provenance: &str, out: &mut Vec<Candidate>)
    ensures
        final(out).deep_view() == old(out).deep_view() + candidates_of(jv(*value), provenance@),
{
    let ghost start = out.deep_view();
    match value {
        Json::Str(s) => {
            let urls = extract_urls(s.as_str());
            let none: Option<String> = None;
            push_url_candidates(urls, &none, &none, provenance, out);
        },
        Json::Object(_) => {
            let t = first_present_str_exec(value, "title", "name", "label");
            let d = first_present_str_exec(value, "description", "snippet", "content");
            push_link_candidate(value, "url", &t, &d, provenance, out);
            push_link_candidate(value, "href", &t, &d, provenance, out);
            push_link_candidate(value, "link", &t, &d, provenance, out);
            push_link_candidate(value, "source", &t, &d, provenance, out);
            push_link_candidate(value, "uri", &t, &d, provenance, out);
            let text = value.to_text();
            let urls = extract_urls(text.as_str());
            push_url_candidates(urls, &t, &d, provenance, out);
            assert(out.deep_view() =~= start + candidates_of(jv(*value), provenance@));
        },
        _ => {
            assert(out.deep_view() =~= start + candidates_of(jv(*value), provenance@));
        },
    }
}

/// Appends the candidates of every value of `items`, in order.
fn collect_all(items: &Vec<Json>, provenance: &str, out: &mut Vec<Candidate>)
    ensures
        final(out).deep_view() == old(out).deep_view() + candidates_of_all(
            jv_items(items@),
            provenance@,
        ),
{
    proof {
        lemma_jv_items(items@);
    }
    let ghost jvs = jv_items(items@);
    let ghost start = out.deep_view();
    let mut i: usize = 0;
    while i < items.len()
        invariant
            i <= items@.len(),
            jvs == jv_items(items@),
            jvs.len() == items@.len(),
            forall|k: int| 0 <= k < items@.len() ==> #[trigger] jvs[k] == jv(items@[k]),
            out.deep_view() == start + candidates_of_all(jvs.take(i as int), provenance@),
        decreases items@.len() - i,
    {
        collect_source_candidate(&items[i], provenance, out);
        proof {
            assert(jvs.take(i + 1).drop_last() =~= jvs.take(i as int));
            assert(jvs.take(i + 1).last() == jv(items@[i as int]));
        }
        assert(out.deep_view() =~= start + candidates_of_all(jvs.take(i + 1), provenance@));
        i = i + 1;
    }
    assert(jvs.take(items@.len() as int) =~= jvs);
}


/// Candidates of one content part of an output item: its annotations, then the
/// URLs of its text.
pub open spec fn part_candidates(part: JsonV) -> Seq<CandV> {
    candidates_of_all(items_field(part, "annotations"@), "annotation"@) + match str_field(
        part,
        "text"@,
    ) {
        Some(t) => url_candidates(urls_in(t), None, None, "output_text"@),
        None => seq![],
    }
}

pub open spec fn parts_candidates(parts: Seq<JsonV>) -> Seq<CandV>
    decreases parts.len(),
{
    if parts.len() == 0 {
        seq![]
    } else {
        parts_candidates(parts.drop_last()) + part_candidates(parts.last())
    }
}

pub open spec fn output_candidates(items: Seq<JsonV>) -> Seq<CandV>
    decreases items.len(),
{
    if items.len() == 0 {
        seq![]
    } else {
        output_candidates(items.drop_last()) + parts_candidates(
            items_field(items.last(), "content"@),
        )
    }
}

/// Every source candidate of a response: citations, output annotations and
/// output text URLs, then URLs of the answer text.
pub open spec fn response_candidates(raw: JsonV, answer: Seq<char>) -> Seq<CandV> {
    candidates_of_all(items_field(raw, "citations"@), "citation"@) + output_candidates(
        items_field(raw, "output"@),
    ) + url_candidates(urls_in(answer), None, None, "answer_text"@)
}

/// Answer text of one content part.
pub open spec fn part_answer(part: JsonV) -> Seq<Seq<char>> {
    if str_field(part, "type"@) == Some("output_text"@) {
        match str_field(part, "text"@) {
            Some(t) => seq![t],
            None => seq![],
        }
    } else {
        seq![]
    }
}

pub open spec fn parts_answer(parts: Seq<JsonV>) -> Seq<Seq<char>>
    decreases parts.len(),
{
    if parts.len() == 0 {
        seq![]
    } else {
        parts_answer(parts.drop_last()) + part_answer(parts.last())
    }
}

pub open spec fn output_answer(items: Seq<JsonV>) -> Seq<Seq<char>>
    decreases items.len(),
{
    if items.len() == 0 {
        seq![]
    } else {
        output_answer(items.drop_last()) + parts_answer(items_field(items.last(), "content"@))
    }
}

/// `raw.pointer("/choices/0/message/content")` as a string.
pub open spec fn chat_content(raw: JsonV) -> Option<Seq<char>> {
    let first = match field(raw, "choices"@) {
        Some(JsonV::Array(cs)) => if cs.len() > 0 {
            Some(cs[0])
        } else {
            None
        },
        Some(JsonV::Object(es)) => lookup(es, "0"@),
        _ => None,
    };
    match first {
        Some(c) => match field(c, "message"@) {
            Some(m) => str_field(m, "content"@),
            None => None,
        },
        None => None,
    }
}

/// The answer texts: output text parts, else a top-level `text`, else the chat
/// completion content.
pub open spec fn answer_parts(raw: JsonV) -> Seq<Seq<char>> {
    let ps = output_answer(items_field(raw, "output"@));
    if ps.len() > 0 {
        ps
    } else {
        match str_field(raw, "text"@) {
            Some(t) => seq![t],
            None => match chat_content(raw) {
                Some(c) => seq![c],
                None => seq![],
            },
        }
    }
}

/// The answer text of a response.
pub open spec fn answer_of(raw: JsonV) -> Seq<char> {
    trim_spec(crate::text::join_spec(answer_parts(raw), "\n"@))
}

fn push_part_candidates(part: &Json, out: &mut Vec<Candidate>)
    ensures
        final(out).deep_view() == old(out).deep_view() + part_candidates(jv(*part)),
{
    let ghost start = out.deep_view();
    if let Some(a) = part.get("annotations") {
        if let Some(anns) = a.as_array() {
            collect_all(anns, "annotation", out);
        }
    }
    let ghost mid = out.deep_view();
    assert(mid == start + candidates_of_all(items_field(jv(*part), "annotations"@), "annotation"@));
    if let Some(t) = part.get("text") {
        if let Some(text) = t.as_str() {
            let urls = extract_urls(text.as_str());
            let none: Option<String> = None;
            push_url_candidates(urls, &none, &none, "output_text", out);
        }
    }
    assert(out.deep_view() =~= start + part_candidates(jv(*part)));
}

fn push_parts_candidates(parts: &Vec<Json>, out: &mut Vec<Candidate>)
    ensures
        final(out).deep_view() == old(out).deep_view() + parts_candidates(jv_items(parts@)),
{
    proof {
        lemma_jv_items(parts@);
    }
    let ghost jvs = jv_items(parts@);
    let ghost start = out.deep_view();
    let mut i: usize = 0;
    while i < parts.len()
        invariant
            i <= parts@.len(),
            jvs == jv_items(parts@),
            jvs.len() == parts@.len(),
            forall|k: int| 0 <= k < parts@.len() ==> #[trigger] jvs[k] == jv(parts@[k]),
            out.deep_view() == start + parts_candidates(jvs.take(i as int)),
        decreases parts@.len() - i,
    {
        push_part_candidates(&parts[i], out);
        proof {
            assert(jvs.take(i + 1).drop_last() =~= jvs.take(i as int));
            assert(jvs.take(i + 1).last() == jv(parts@[i as int]));
        }
        assert(out.deep_view() =~= start + parts_candidates(jvs.take(i + 1)));
        i = i + 1;
    }
    assert(jvs.take(parts@.len() as int) =~= jvs);
}

fn push_output_candidates(items: &Vec<Json>, out: &mut Vec<Candidate>)
    ensures
        final(out).deep_view() == old(out).deep_view() + output_candidates(jv_items(items@)),
{
    proof {
        lemma_jv_items(items@);
    }
    let ghost jvs = jv_items(items@);
    let ghost start = out.deep_view();
    let mut i: usize = 0;
    while i < items.len()
        invariant
            i <= items@.len(),
            jvs == jv_items(items@),
            jvs.len() == items@.len(),
            forall|k: int| 0 <= k < items@.len() ==> #[trigger] jvs[k] == jv(items@[k]),
            out.deep_view() == start + output_candidates(jvs.take(i as int)),
        decreases items@.len() - i,
    {
        if let Some(c) = items[i].get("content") {
            if let Some(parts) = c.as_array() {
                push_parts_candidates(parts, out);
            }
        }
        proof {
            assert(jvs.take(i + 1).drop_last() =~= jvs.take(i as int));
            assert(jvs.take(i + 1).last() == jv(items@[i as int]));
        }
        assert(out.deep_view() =~= start + output_candidates(jvs.take(i + 1)));
        i = i + 1;
    }
    assert(jvs.take(items@.len() as int) =~= jvs);
}

fn push_part_answer(part: &Json, out: &mut Vec<String>)
    ensures
        final(out).deep_view() == old(out).deep_view() + part_answer(jv(*part)),
{
    let ghost start = out.deep_view();
    let is_text = match part.get("type") {
        Some(t) => match t.as_str() {
            Some(ty) => crate::text::same_text(ty.as_str(), "output_text"),
            None => false,
        },
        None => false,
    };
    if is_text {
        if let Some(t) = part.get("text") {
            if let Some(text) = t.as_str() {
                out.push(text.clone());
                assert(out.deep_view() =~= start + seq![text@]);
                return ;
            }
        }
    }
    assert(out.deep_view() =~= start + part_answer(jv(*part)));
}

fn push_output_answer(items: &Vec<Json>, out: &mut Vec<String>)
    ensures
        final(out).deep_view() == old(out).deep_view() + output_answer(jv_items(items@)),
{
    proof {
        lemma_jv_items(items@);
    }
    let ghost jvs = jv_items(items@);
    let ghost start = out.deep_view();
    let mut i: usize = 0;
    while i < items.len()
        invariant
            i <= items@.len(),
            jvs == jv_items(items@),
            jvs.len() == items@.len(),
            forall|k: int| 0 <= k < items@.len() ==> #[trigger] jvs[k] == jv(items@[k]),
            out.deep_view() == start + output_answer(jvs.take(i as int)),
        decreases items@.len() - i,
    {
        let ghost before = out.deep_view();
        if let Some(c) = items[i].get("content") {
            if let Some(parts) = c.as_array() {
                proof {
                    lemma_jv_items(parts@);
                }
                let ghost pj = jv_items(parts@);
                let mut j: usize = 0;
                while j < parts.len()
                    invariant
                        j <= parts@.len(),
                        pj == jv_items(parts@),
                        pj.len() == parts@.len(),
                        forall|k: int| 0 <= k < parts@.len() ==> #[trigger] pj[k] == jv(parts@[k]),
                        out.deep_view() == before + parts_answer(pj.take(j as int)),
                    decreases parts@.len() - j,
                {
                    push_part_answer(&parts[j], out);
                    proof {
                        assert(pj.take(j + 1).drop_last() =~= pj.take(j as int));
                        assert(pj.take(j + 1).last() == jv(parts@[j as int]));
                    }
                    assert(out.deep_view() =~= before + parts_answer(pj.take(j + 1)));
                    j = j + 1;
                }
                assert(pj.take(parts@.len() as int) =~= pj);
            }
        }
        proof {
            assert(jvs.take(i + 1).drop_last() =~= jvs.take(i as int));
            assert(jvs.take(i + 1).last() == jv(items@[i as int]));
        }
        assert(out.deep_view() =~= start + output_answer(jvs.take(i + 1)));
        i = i + 1;
    }
    assert(jvs.take(items@.len() as int) =~= jvs);
}

fn chat_content_exec(raw: &Json) -> (r: Option<String>)
    ensures
        r.deep_view() == chat_content(jv(*raw)),
{
    let first: Option<&Json> = match raw.get("choices") {
        Some(cs) => match cs {
            Json::Array(items) => {
                proof {
                    lemma_jv_items(items@);
                }
                if items.len() > 0 {
                    Some(&items[0])
                } else {
                    None
                }
            },
            Json::Object(_) => cs.get("0"),
            _ => None,
        },
        None => None,
    };
    match first {
        Some(c) => match c.get("message") {
            Some(m) => match m.get("content") {
                Some(x) => match x.as_str() {
                    Some(s) => Some(s.clone()),
                    None => None,
                },
                None => None,
            },
            None => None,
        },
        None => None,
    }
}

/// The answer text: output text parts joined by new lines, or a top-level
/// `text`, or the chat-completion content; trimmed.
pub fn extract_answer(raw: &Json) -> (r: String)
    ensures
        r@ == answer_of(jv(*raw)),
{
    let mut parts: Vec<String> = Vec::new();
    if let Some(o) = raw.get("output") {
        if let Some(items) = o.as_array() {
            push_output_answer(items, &mut parts);
        }
    }
    assert(parts.deep_view() =~= output_answer(items_field(jv(*raw), "output"@)));
    if parts.len() == 0 {
        if let Some(t) = raw.get("text") {
            if let Some(text) = t.as_str() {
                parts.push(text.clone());
            }
        }
    }
    if parts.len() == 0 {
        if let Some(c) = chat_content_exec(raw) {
            parts.push(c);
        }
    }
    assert(parts.deep_view() =~= answer_parts(jv(*raw)));
    let joined = crate::text::join(&parts, "\n");
    crate::text::trim(joined.as_str())
}


/// A tool call recorded in a response.
pub struct ToolCall {
    pub name: String,
    pub call_id: Option<String>,
    pub input: Option<Json>,
    pub status: Option<String>,
}

pub struct ToolCallV {
    pub name: Seq<char>,
    pub call_id: Option<Seq<char>>,
    pub input: Option<JsonV>,
    pub status: Option<Seq<char>>,
}

pub open spec fn opt_jv(o: Option<Json>) -> Option<JsonV> {
    match o {
        Some(j) => Some(jv(j)),
        None => None,
    }
}

impl View for ToolCall {
    type V = ToolCallV;

    open spec fn view(&self) -> ToolCallV {
        ToolCallV {
            name: self.name@,
            call_id: self.call_id.deep_view(),
            input: opt_jv(self.input),
            status: self.status.deep_view(),
        }
    }
}

pub open spec fn tool_calls_view(s: Seq<ToolCall>) -> Seq<ToolCallV> {
    s.map_values(|x: ToolCall| x@)
}

/// A JSON string holding JSON text stands for the parsed value; anything else for itself.
pub open spec fn json_string_value(v: JsonV) -> JsonV {
    match v {
        JsonV::Str(s) => match parsed_json(s) {
            Some(p) => p,
            None => JsonV::Str(s),
        },
        _ => v,
    }
}

/// The tool call that an output item records: every item with a string `name`.
pub open spec fn tool_call_of(item: JsonV) -> Option<ToolCallV> {
    match str_field(item, "name"@) {
        Some(n) => Some(
            ToolCallV {
                name: n,
                call_id: str_field(item, "call_id"@),
                input: match field(item, "input"@) {
                    Some(x) => Some(json_string_value(x)),
                    None => match field(item, "arguments"@) {
                        Some(x) => Some(json_string_value(x)),
                        None => None,
                    },
                },
                status: str_field(item, "status"@),
            },
        ),
        None => None,
    }
}

pub open spec fn tool_calls_of(items: Seq<JsonV>) -> Seq<ToolCallV>
    decreases items.len(),
{
    if items.len() == 0 {
        seq![]
    } else {
        tool_calls_of(items.drop_last()) + match tool_call_of(items.last()) {
            Some(t) => seq![t],
            None => seq![],
        }
    }
}

pub open spec fn output_types_of(items: Seq<JsonV>) -> Seq<Seq<char>>
    decreases items.len(),
{
    if items.len() == 0 {
        seq![]
    } else {
        output_types_of(items.drop_last()) + match str_field(items.last(), "type"@) {
            Some(t) => seq![t],
            None => seq![],
        }
    }
}

/// A string value holding JSON text is parsed; anything else is copied.
pub fn parse_json_string_value(value: &Json) -> (r: Json)
    ensures
        jv(r) == json_string_value(jv(*value)),
{
    match value {
        Json::Str(s) => match crate::json::parse_json(s.as_str()) {
            Some(p) => p,
            None => Json::Str(s.clone()),
        },
        _ => value.copy(),
    }
}

fn str_field_exec(v: &Json, key: &str) -> (r: Option<String>)
    ensures
        r.deep_view() == str_field(jv(*v), key@),
{
    match v.get(key) {
        Some(x) => match x.as_str() {
            Some(s) => Some(s.clone()),
            None => None,
        },
        None => None,
    }
}

fn tool_call_exec(item: &Json) -> (r: Option<ToolCall>)
    ensures
        match r {
            Some(t) => tool_call_of(jv(*item)) == Some(t@),
            None => tool_call_of(jv(*item)) is None,
        },
{
    match str_field_exec(item, "name") {
        Some(name) => {
            let input = match item.get("input") {
                Some(x) => Some(parse_json_string_value(x)),
                None => match item.get("arguments") {
                    Some(x) => Some(parse_json_string_value(x)),
                    None => None,
                },
            };
            Some(
                ToolCall {
                    name,
                    call_id: str_field_exec(item, "call_id"),
                    input,
                    status: str_field_exec(item, "status"),
                },
            )
        },
        None => None,
    }
}

/// Tool calls of the output items, in order.
pub fn extract_tool_calls(raw: &Json) -> (r: Vec<ToolCall>)
    ensures
        tool_calls_view(r@) == tool_calls_of(crate::source::items_field(jv(*raw), "output"@)),
{
    let mut calls: Vec<ToolCall> = Vec::new();
    if let Some(o) = raw.get("output") {
        if let Some(items) = o.as_array() {
            proof {
                lemma_jv_items(items@);
            }
            let ghost jvs = jv_items(items@);
            let mut i: usize = 0;
            while i < items.len()
                invariant
                    i <= items@.len(),
                    jvs == jv_items(items@),
                    jvs.len() == items@.len(),
                    forall|k: int| 0 <= k < items@.len() ==> #[trigger] jvs[k] == jv(items@[k]),
                    tool_calls_view(calls@) == tool_calls_of(jvs.take(i as int)),
                decreases items@.len() - i,
            {
                if let Some(t) = tool_call_exec(&items[i]) {
                    calls.push(t);
                }
                proof {
                    assert(jvs.take(i + 1).drop_last() =~= jvs.take(i as int));
                    assert(jvs.take(i + 1).last() == jv(items@[i as int]));
                }
                assert(tool_calls_view(calls@) =~= tool_calls_of(jvs.take(i + 1)));
                i = i + 1;
            }
            assert(jvs.take(items@.len() as int) =~= jvs);
            return calls;
        }
    }
    assert(tool_calls_view(calls@) =~= tool_calls_of(items_field(jv(*raw), "output"@)));
    calls
}

fn extract_output_types(raw: &Json) -> (r: Vec<String>)
    ensures
        r.deep_view() == output_types_of(items_field(jv(*raw), "output"@)),
{
    let mut types: Vec<String> = Vec::new();
    if let Some(o) = raw.get("output") {
        if let Some(items) = o.as_array() {
            proof {
                lemma_jv_items(items@);
            }
            let ghost jvs = jv_items(items@);
            let mut i: usize = 0;
            while i < items.len()
                invariant
                    i <= items@.len(),
                    jvs == jv_items(items@),
                    jvs.len() == items@.len(),
                    forall|k: int| 0 <= k < items@.len() ==> #[trigger] jvs[k] == jv(items@[k]),
                    types.deep_view() == output_types_of(jvs.take(i as int)),
                decreases items@.len() - i,
            {
                if let Some(t) = str_field_exec(&items[i], "type") {
                    types.push(t);
                }
                proof {
                    assert(jvs.take(i + 1).drop_last() =~= jvs.take(i as int));
                    assert(jvs.take(i + 1).last() == jv(items@[i as int]));
                }
                assert(types.deep_view() =~= output_types_of(jvs.take(i + 1)));
                i = i + 1;
            }
            assert(jvs.take(items@.len() as int) =~= jvs);
            return types;
        }
    }
    assert(types.deep_view() =~= output_types_of(items_field(jv(*raw), "output"@)));
    types
}

/// A parsed response: answer, model, sources, tool calls, output item types, warnings.
pub struct ParsedResponse {
    pub answer: String,
    pub effective_model: Option<String>,
    pub sources: Vec<Source>,
    pub tool_calls: Vec<ToolCall>,
    pub output_types: Vec<String>,
    pub warnings: Vec<String>,
}

/// Some tool call is an X Search call.
pub open spec fn has_x_tool_call(calls: Seq<ToolCallV>) -> bool {
    exists|i: int|
        0 <= i < calls.len() && (has_prefix(#[trigger] calls[i].name, "x_"@) || calls[i].name
            == "x_search"@)
}

/// Some source is on X.
pub open spec fn has_x_source(sources: Seq<SourceV>) -> bool {
    exists|i: int| 0 <= i < sources.len() && #[trigger] sources[i].source_type == SourceType::X
}

/// Warnings about a parse: no sources at all; X Search used but no X source found.
pub open spec fn warnings_of(sources: Seq<SourceV>, calls: Seq<ToolCallV>) -> Seq<Seq<char>> {
    (if sources.len() == 0 {
        seq!["no_sources_detected"@]
    } else {
        seq![]
    }) + (if has_x_tool_call(calls) && !has_x_source(sources) {
        seq!["x_search_tool_call_without_x_source_url"@]
    } else {
        seq![]
    })
}

fn any_x_tool_call(calls: &Vec<ToolCall>) -> (b: bool)
    ensures
        b == has_x_tool_call(tool_calls_view(calls@)),
{
    let ghost tv = tool_calls_view(calls@);
    let mut i: usize = 0;
    while i < calls.len()
        invariant
            i <= calls@.len(),
            tv == tool_calls_view(calls@),
            forall|k: int|
                0 <= k < i ==> !(has_prefix(#[trigger] tv[k].name, "x_"@) || tv[k].name == "x_search"@),
        decreases calls@.len() - i,
    {
        let n = calls[i].name.as_str();
        if crate::text::starts_with(n, "x_") || crate::text::same_text(n, "x_search") {
            assert(tv[i as int].name == n@);
            return true;
        }
        i = i + 1;
    }
    false
}

fn any_x_source(sources: &Vec<Source>) -> (b: bool)
    ensures
        b == has_x_source(sources_view(sources@)),
{
    let ghost sv = sources_view(sources@);
    let mut i: usize = 0;
    while i < sources.len()
        invariant
            i <= sources@.len(),
            sv == sources_view(sources@),
            forall|k: int| 0 <= k < i ==> #[trigger] sv[k].source_type != SourceType::X,
        decreases sources@.len() - i,
    {
        if sources[i].source_type == SourceType::X {
            assert(sv[i as int].source_type == SourceType::X);
            return true;
        }
        i = i + 1;
    }
    false
}

/// Parses a Responses API reply seen at `observed_at`.
pub fn parse_response(raw: &Json, observed_at: &str) -> (r: ParsedResponse)
    ensures
        r.answer@ == answer_of(jv(*raw)),
        r.effective_model.deep_view() == str_field(jv(*raw), "model"@),
        tool_calls_view(r.tool_calls@) == tool_calls_of(items_field(jv(*raw), "output"@)),
        r.output_types.deep_view() == output_types_of(items_field(jv(*raw), "output"@)),
        sources_view(r.sources@) == normalized(
            response_candidates(jv(*raw), answer_of(jv(*raw))),
            observed_at@,
        ),
        r.warnings.deep_view() == warnings_of(sources_view(r.sources@), tool_calls_view(r.tool_calls@)),
        forall|k: int|
            0 <= k < urls_in(r.answer@).len() && clean_url(#[trigger] urls_in(r.answer@)[k]).len() > 0
                ==> filed(sources_view(r.sources@), clean_url(urls_in(r.answer@)[k])),
{
    proof {
        assert forall|k: int|
            0 <= k < urls_in(answer_of(jv(*raw))).len() && clean_url(
                #[trigger] urls_in(answer_of(jv(*raw)))[k],
            ).len() > 0 implies filed(
            normalized(response_candidates(jv(*raw), answer_of(jv(*raw))), observed_at@),
            clean_url(urls_in(answer_of(jv(*raw)))[k]),
        ) by {
            law_answer_urls_are_sources(jv(*raw), observed_at@, k);
        }
    }
    let answer = extract_answer(raw);
    let effective_model = str_field_exec(raw, "model");
    let tool_calls = extract_tool_calls(raw);
    let output_types = extract_output_types(raw);
    let mut candidates: Vec<Candidate> = Vec::new();
    if let Some(c) = raw.get("citations") {
        if let Some(citations) = c.as_array() {
            collect_all(citations, "citation", &mut candidates);
        }
    }
    assert(candidates.deep_view() =~= candidates_of_all(items_field(jv(*raw), "citations"@), "citation"@));
    let ghost c1 = candidates.deep_view();
    if let Some(o) = raw.get("output") {
        if let Some(items) = o.as_array() {
            push_output_candidates(items, &mut candidates);
        }
    }
    assert(candidates.deep_view() =~= c1 + output_candidates(items_field(jv(*raw), "output"@)));
    let urls = extract_urls(answer.as_str());
    let none: Option<String> = None;
    push_url_candidates(urls, &none, &none, "answer_text", &mut candidates);
    assert(candidates.deep_view() =~= response_candidates(jv(*raw), answer@));
    let sources = normalize_sources(candidates, observed_at);
    let mut warnings: Vec<String> = Vec::new();
    if sources.len() == 0 {
        warnings.push(owned("no_sources_detected"));
    }
    if any_x_tool_call(&tool_calls) && !any_x_source(&sources) {
        warnings.push(owned("x_search_tool_call_without_x_source_url"));
    }
    assert(warnings.deep_view() =~= warnings_of(sources_view(sources@), tool_calls_view(tool_calls@)));
    ParsedResponse { answer, effective_model, sources, tool_calls, output_types, warnings }
}


/// URLs strictly increase along the list (so no URL occurs twice).
pub open spec fn sorted_by_url(s: Seq<SourceV>) -> bool {
    forall|i: int, j: int| 0 <= i < j < s.len() ==> lex_lt(#[trigger] s[i].url, #[trigger] s[j].url)
}

proof fn lemma_add_candidate_sorted(s: Seq<SourceV>, c: CandV, observed: Seq<char>)
    requires
        sorted_by_url(s),
    ensures
        sorted_by_url(add_candidate(s, c, observed)),
{
    let u = clean_url(c.0);
    let r = add_candidate(s, c, observed);
    if u.len() > 0 {
        let p = insert_pos(s, u);
        lemma_insert_pos(s, u);
        if p < s.len() && s[p].url == u {
            assert forall|i: int, j: int| 0 <= i < j < r.len() implies lex_lt(
                #[trigger] r[i].url,
                #[trigger] r[j].url,
            ) by {
                assert(r[i].url == s[i].url);
                assert(r[j].url == s[j].url);
            }
        } else if post_match(s, u) >= 0 {
            lemma_post_index(s, x_url_parts(u).1->0);
            let q = post_match(s, u);
            assert forall|i: int, j: int| 0 <= i < j < r.len() implies lex_lt(
                #[trigger] r[i].url,
                #[trigger] r[j].url,
            ) by {
                assert(r[i].url == s[i].url);
                assert(r[j].url == s[j].url);
            }
        } else {
            let n = fresh_source(u, c, observed);
            if p < s.len() {
                lemma_lex_total(s[p].url, u);
            }
            assert forall|i: int, j: int| 0 <= i < j < r.len() implies lex_lt(
                #[trigger] r[i].url,
                #[trigger] r[j].url,
            ) by {
                if j < p {
                    assert(r[i] == s[i] && r[j] == s[j]);
                } else if j == p {
                    assert(r[i] == s[i]);
                    assert(r[j] == n);
                } else {
                    assert(r[j] == s[j - 1]);
                    assert(lex_lt(u, s[j - 1].url)) by {
                        if j - 1 > p {
                            lemma_lex_transitive(u, s[p].url, s[j - 1].url);
                        }
                    }
                    if i < p {
                        assert(r[i] == s[i]);
                        lemma_lex_transitive(s[i].url, u, s[j - 1].url);
                    } else if i == p {
                        assert(r[i] == n);
                    } else {
                        assert(r[i] == s[i - 1]);
                    }
                }
            }
        }
    }
}

/// The sources of any candidate list are strictly sorted by URL, so each URL is
/// filed once.
pub proof fn law_normalized_sorted_unique(cs: Seq<CandV>, observed: Seq<char>)
    ensures
        sorted_by_url(normalized(cs, observed)),
    decreases cs.len(),
{
    if cs.len() > 0 {
        law_normalized_sorted_unique(cs.drop_last(), observed);
        lemma_add_candidate_sorted(normalized(cs.drop_last(), observed), cs.last(), observed);
    }
}

/// Whether the sources hold the candidate filed under `u`: a source with that
/// URL, or the source of the same X post.
pub open spec fn filed(s: Seq<SourceV>, u: Seq<char>) -> bool {
    exists|i: int| #[trigger] filed_at(s, i, u)
}

/// Source `i` holds the candidate filed under `u`.
pub open spec fn filed_at(s: Seq<SourceV>, i: int, u: Seq<char>) -> bool {
    0 <= i < s.len() && (s[i].url == u || (x_url_parts(u).1 is Some && s[i].post_id
        == x_url_parts(u).1))
}

/// No two sources belong to the same X post.
pub open spec fn posts_unique(s: Seq<SourceV>) -> bool {
    forall|i: int, j: int|
        0 <= i < j < s.len() && (#[trigger] s[i]).post_id is Some ==> s[i].post_id
            != (#[trigger] s[j]).post_id
}

proof fn lemma_add_candidate_keeps(s: Seq<SourceV>, c: CandV, observed: Seq<char>, w: Seq<char>)
    requires
        filed(s, w),
    ensures
        filed(add_candidate(s, c, observed), w),
{
    let u = clean_url(c.0);
    let r = add_candidate(s, c, observed);
    let i = choose|i: int| #[trigger] filed_at(s, i, w);
    if u.len() > 0 {
        let p = insert_pos(s, u);
        lemma_insert_pos(s, u);
        if p < s.len() && s[p].url == u {
            assert(r[i].url == s[i].url && r[i].post_id == s[i].post_id);
            assert(filed_at(r, i, w));
        } else if post_match(s, u) >= 0 {
            lemma_post_index(s, x_url_parts(u).1->0);
            assert(r[i].url == s[i].url && r[i].post_id == s[i].post_id);
            assert(filed_at(r, i, w));
        } else if i < p {
            assert(r[i] == s[i]);
            assert(filed_at(r, i, w));
        } else {
            assert(r[i + 1] == s[i]);
            assert(filed_at(r, i + 1, w));
        }
    } else {
        assert(filed_at(r, i, w));
    }
}

proof fn lemma_add_candidate_adds(s: Seq<SourceV>, c: CandV, observed: Seq<char>)
    requires
        clean_url(c.0).len() > 0,
    ensures
        filed(add_candidate(s, c, observed), clean_url(c.0)),
{
    let u = clean_url(c.0);
    let r = add_candidate(s, c, observed);
    let p = insert_pos(s, u);
    lemma_insert_pos(s, u);
    if p < s.len() && s[p].url == u {
        assert(filed_at(r, p, u));
    } else if post_match(s, u) >= 0 {
        let q = post_match(s, u);
        lemma_post_index(s, x_url_parts(u).1->0);
        assert(r[q].post_id == x_url_parts(u).1);
        assert(filed_at(r, q, u));
    } else {
        assert(filed_at(r, p, u));
    }
}

/// Every candidate whose cleaned URL is not empty is filed among the sources:
/// under its URL, or with the source of the same X post.
pub proof fn law_normalized_covers_candidates(cs: Seq<CandV>, observed: Seq<char>, k: int)
    requires
        0 <= k < cs.len(),
        clean_url(cs[k].0).len() > 0,
    ensures
        filed(normalized(cs, observed), clean_url(cs[k].0)),
    decreases cs.len(),
{
    let prev = normalized(cs.drop_last(), observed);
    assert(normalized(cs, observed) == add_candidate(prev, cs.last(), observed));
    if k == cs.len() - 1 {
        lemma_add_candidate_adds(prev, cs.last(), observed);
    } else {
        assert(cs.drop_last()[k] == cs[k]);
        law_normalized_covers_candidates(cs.drop_last(), observed, k);
        lemma_add_candidate_keeps(prev, cs.last(), observed, clean_url(cs[k].0));
    }
}

proof fn lemma_add_candidate_posts(s: Seq<SourceV>, c: CandV, observed: Seq<char>)
    requires
        posts_unique(s),
    ensures
        posts_unique(add_candidate(s, c, observed)),
{
    let u = clean_url(c.0);
    let r = add_candidate(s, c, observed);
    if u.len() > 0 {
        let p = insert_pos(s, u);
        lemma_insert_pos(s, u);
        if p < s.len() && s[p].url == u {
            assert forall|i: int, j: int|
                0 <= i < j < r.len() && (#[trigger] r[i]).post_id is Some implies r[i].post_id
                != (#[trigger] r[j]).post_id by {
                assert(r[i].post_id == s[i].post_id && r[j].post_id == s[j].post_id);
            }
        } else if post_match(s, u) >= 0 {
            lemma_post_index(s, x_url_parts(u).1->0);
            assert forall|i: int, j: int|
                0 <= i < j < r.len() && (#[trigger] r[i]).post_id is Some implies r[i].post_id
                != (#[trigger] r[j]).post_id by {
                assert(r[i].post_id == s[i].post_id && r[j].post_id == s[j].post_id);
            }
        } else {
            let n = fresh_source(u, c, observed);
            match x_url_parts(u).1 {
                Some(id) => {
                    lemma_post_index(s, id);
                },
                None => {},
            }
            assert(n.post_id == x_url_parts(u).1);
            assert forall|i: int, j: int|
                0 <= i < j < r.len() && (#[trigger] r[i]).post_id is Some implies r[i].post_id
                != (#[trigger] r[j]).post_id by {
                if j < p {
                    assert(r[i] == s[i] && r[j] == s[j]);
                } else if j == p {
                    assert(r[i] == s[i]);
                    assert(r[j] == n);
                } else if i < p {
                    assert(r[i] == s[i] && r[j] == s[j - 1]);
                } else if i == p {
                    assert(r[i] == n && r[j] == s[j - 1]);
                } else {
                    assert(r[i] == s[i - 1] && r[j] == s[j - 1]);
                }
            }
        }
    }
}

/// No two sources of any candidate list belong to the same X post: X status
/// links to one post are merged into one source.
pub proof fn law_normalized_posts_unique(cs: Seq<CandV>, observed: Seq<char>)
    ensures
        posts_unique(normalized(cs, observed)),
    decreases cs.len(),
{
    if cs.len() > 0 {
        law_normalized_posts_unique(cs.drop_last(), observed);
        lemma_add_candidate_posts(normalized(cs.drop_last(), observed), cs.last(), observed);
    }
}

spec fn kind_matches_url(s: SourceV) -> bool {
    s.source_type == source_type_of(s.url) && s.provider == (if is_x_url_spec(s.url) {
        "x"@
    } else {
        "grok"@
    })
}

proof fn lemma_normalized_kinds(cs: Seq<CandV>, observed: Seq<char>)
    ensures
        forall|i: int|
            0 <= i < normalized(cs, observed).len() ==> kind_matches_url(
                #[trigger] normalized(cs, observed)[i],
            ),
    decreases cs.len(),
{
    if cs.len() > 0 {
        lemma_normalized_kinds(cs.drop_last(), observed);
        let s = normalized(cs.drop_last(), observed);
        let c = cs.last();
        let r = normalized(cs, observed);
        assert(r == add_candidate(s, c, observed));
        let u = clean_url(c.0);
        if u.len() > 0 {
            let p = insert_pos(s, u);
            lemma_insert_pos(s, u);
            if p < s.len() && s[p].url == u {
                assert forall|i: int| 0 <= i < r.len() implies kind_matches_url(#[trigger] r[i]) by {
                    assert(kind_matches_url(s[i]));
                }
            } else if post_match(s, u) >= 0 {
                lemma_post_index(s, x_url_parts(u).1->0);
                assert forall|i: int| 0 <= i < r.len() implies kind_matches_url(#[trigger] r[i]) by {
                    assert(kind_matches_url(s[i]));
                }
            } else {
                assert forall|i: int| 0 <= i < r.len() implies kind_matches_url(#[trigger] r[i]) by {
                    if i < p {
                        assert(r[i] == s[i]);
                        assert(kind_matches_url(s[i]));
                    } else if i > p {
                        assert(r[i] == s[i - 1]);
                        assert(kind_matches_url(s[i - 1]));
                    }
                }
            }
        }
    }
}

/// Every source is classified by its URL: an X or Twitter URL is an X source
/// from provider `x`; any other `http://` or `https://` URL is a web source from
/// provider `grok`; anything else is of unknown kind, from provider `grok`.
pub proof fn law_normalized_source_kinds(cs: Seq<CandV>, observed: Seq<char>)
    ensures
        forall|i: int|
            0 <= i < normalized(cs, observed).len() ==> {
                let s = #[trigger] normalized(cs, observed)[i];
                &&& (has_sub(s.url, "://x.com/"@) || has_sub(s.url, "://twitter.com/"@)) ==> s.source_type
                    == SourceType::X && s.provider == "x"@
                &&& !(has_sub(s.url, "://x.com/"@) || has_sub(s.url, "://twitter.com/"@)) && (has_prefix(
                    s.url,
                    "http://"@,
                ) || has_prefix(s.url, "https://"@)) ==> s.source_type == SourceType::Web
                    && s.provider == "grok"@
                &&& !(has_sub(s.url, "://x.com/"@) || has_sub(s.url, "://twitter.com/"@)) && !has_prefix(
                    s.url,
                    "http://"@,
                ) && !has_prefix(s.url, "https://"@) ==> s.source_type == SourceType::Unknown
                    && s.provider == "grok"@
            },
{
    lemma_normalized_kinds(cs, observed);
    assert forall|i: int| 0 <= i < normalized(cs, observed).len() implies {
        let s = #[trigger] normalized(cs, observed)[i];
        &&& (has_sub(s.url, "://x.com/"@) || has_sub(s.url, "://twitter.com/"@)) ==> s.source_type
            == SourceType::X && s.provider == "x"@
        &&& !(has_sub(s.url, "://x.com/"@) || has_sub(s.url, "://twitter.com/"@)) && (has_prefix(
            s.url,
            "http://"@,
        ) || has_prefix(s.url, "https://"@)) ==> s.source_type == SourceType::Web && s.provider
            == "grok"@
        &&& !(has_sub(s.url, "://x.com/"@) || has_sub(s.url, "://twitter.com/"@)) && !has_prefix(
            s.url,
            "http://"@,
        ) && !has_prefix(s.url, "https://"@) ==> s.source_type == SourceType::Unknown && s.provider
            == "grok"@
    } by {
        assert(kind_matches_url(normalized(cs, observed)[i]));
    }
}

/// Every URL in the answer text (non-empty once cleaned) is filed among the
/// parsed sources, under its URL or with the source of the same X post.
pub proof fn law_answer_urls_are_sources(raw: JsonV, observed: Seq<char>, k: int)
    requires
        0 <= k < urls_in(answer_of(raw)).len(),
        clean_url(urls_in(answer_of(raw))[k]).len() > 0,
    ensures
        filed(
            normalized(response_candidates(raw, answer_of(raw)), observed),
            clean_url(urls_in(answer_of(raw))[k]),
        ),
{
    let u = urls_in(answer_of(raw))[k];
    let a = candidates_of_all(items_field(raw, "citations"@), "citation"@) + output_candidates(
        items_field(raw, "output"@),
    );
    let cs = response_candidates(raw, answer_of(raw));
    let j = a.len() + k;
    assert(cs[j].0 == u);
    law_normalized_covers_candidates(cs, observed, j);
}

/// Source `i` holds the candidate filed under `u` and carries its label `l`.
pub open spec fn labelled_at(s: Seq<SourceV>, i: int, u: Seq<char>, l: Seq<char>) -> bool {
    filed_at(s, i, u) && s[i].provenance.contains(l)
}

/// No source lists a provenance label twice.
pub open spec fn labels_unique(s: Seq<SourceV>) -> bool {
    forall|i: int, a: int, b: int|
        #![trigger s[i].provenance[a], s[i].provenance[b]]
        0 <= i < s.len() && 0 <= a < b < s[i].provenance.len() ==> s[i].provenance[a]
            != s[i].provenance[b]
}

proof fn lemma_merged_keeps_labels(s: SourceV, c: CandV, l: Seq<char>)
    ensures
        s.provenance.contains(l) ==> merged_source(s, c).provenance.contains(l),
        merged_source(s, c).provenance.contains(c.3),
        merged_source(s, c).url == s.url,
        merged_source(s, c).post_id == s.post_id,
{
    let m = merged_source(s, c);
    if s.provenance.contains(l) {
        let t = choose|t: int| 0 <= t < s.provenance.len() && s.provenance[t] == l;
        assert(m.provenance[t] == l);
    }
    if !s.provenance.contains(c.3) {
        assert(m.provenance[s.provenance.len() as int] == c.3);
    }
}

proof fn lemma_add_candidate_labels(s: Seq<SourceV>, c: CandV, observed: Seq<char>, w: Seq<char>, l: Seq<char>)
    ensures
        labels_unique(s) ==> labels_unique(add_candidate(s, c, observed)),
        (exists|i: int| #[trigger] labelled_at(s, i, w, l)) ==> (exists|i: int|
            #[trigger] labelled_at(add_candidate(s, c, observed), i, w, l)),
        clean_url(c.0).len() > 0 ==> (exists|i: int|
            #[trigger] labelled_at(add_candidate(s, c, observed), i, clean_url(c.0), c.3)),
{
    let u = clean_url(c.0);
    let r = add_candidate(s, c, observed);
    if u.len() > 0 {
        let p = insert_pos(s, u);
        lemma_insert_pos(s, u);
        let direct = p < s.len() && s[p].url == u;
        let q = if direct {
            p
        } else {
            post_match(s, u)
        };
        if !direct && q >= 0 {
            lemma_post_index(s, x_url_parts(u).1->0);
        }
        if q >= 0 {
            // the candidate joins source q
            assert(r == s.update(q, merged_source(s[q], c)));
            lemma_merged_keeps_labels(s[q], c, l);
            if labels_unique(s) {
                assert forall|i: int, a: int, b: int|
                    #![trigger r[i].provenance[a], r[i].provenance[b]]
                    0 <= i < r.len() && 0 <= a < b < r[i].provenance.len() implies r[i].provenance[a]
                    != r[i].provenance[b] by {
                    if i == q {
                        if b == s[q].provenance.len() {
                            assert(!s[q].provenance.contains(c.3));
                            assert(r[q].provenance[b] == c.3);
                            assert(r[q].provenance[a] == s[q].provenance[a]);
                        } else {
                            assert(r[q].provenance[a] == s[q].provenance[a]);
                            assert(r[q].provenance[b] == s[q].provenance[b]);
                            assert(s[q].provenance[a] != s[q].provenance[b]);
                        }
                    } else {
                        assert(r[i] == s[i]);
                        assert(s[i].provenance[a] != s[i].provenance[b]);
                    }
                }
            }
            if exists|i: int| #[trigger] labelled_at(s, i, w, l) {
                let i = choose|i: int| #[trigger] labelled_at(s, i, w, l);
                if i == q {
                    assert(labelled_at(r, i, w, l));
                } else {
                    assert(r[i] == s[i]);
                    assert(labelled_at(r, i, w, l));
                }
            }
            if direct {
                assert(labelled_at(r, q, u, c.3));
            } else {
                assert(r[q].post_id == x_url_parts(u).1);
                assert(labelled_at(r, q, u, c.3));
            }
        } else {
            let n = fresh_source(u, c, observed);
            assert(r == s.insert(p, n));
            assert(r[p] == n);
            assert(n.provenance[0] == c.3);
            assert(labelled_at(r, p, u, c.3));
            if labels_unique(s) {
                assert forall|i: int, a: int, b: int|
                    #![trigger r[i].provenance[a], r[i].provenance[b]]
                    0 <= i < r.len() && 0 <= a < b < r[i].provenance.len() implies r[i].provenance[a]
                    != r[i].provenance[b] by {
                    if i < p {
                        assert(r[i] == s[i]);
                        assert(s[i].provenance[a] != s[i].provenance[b]);
                    } else if i > p {
                        assert(r[i] == s[i - 1]);
                        assert(s[i - 1].provenance[a] != s[i - 1].provenance[b]);
                    }
                }
            }
            if exists|i: int| #[trigger] labelled_at(s, i, w, l) {
                let i = choose|i: int| #[trigger] labelled_at(s, i, w, l);
                if i < p {
                    assert(r[i] == s[i]);
                    assert(labelled_at(r, i, w, l));
                } else {
                    assert(r[i + 1] == s[i]);
                    assert(labelled_at(r, i + 1, w, l));
                }
            }
        }
    }
}

/// No source lists a provenance label twice.
pub proof fn law_normalized_labels_unique(cs: Seq<CandV>, observed: Seq<char>)
    ensures
        labels_unique(normalized(cs, observed)),
    decreases cs.len(),
{
    if cs.len() > 0 {
        law_normalized_labels_unique(cs.drop_last(), observed);
        let c = cs.last();
        lemma_add_candidate_labels(normalized(cs.drop_last(), observed), c, observed, c.0, c.3);
    }
}

/// Provenance is kept: the source that files a candidate (under its URL or its X
/// post) lists the candidate's provenance label.
pub proof fn law_normalized_provenance(cs: Seq<CandV>, observed: Seq<char>, k: int)
    requires
        0 <= k < cs.len(),
        clean_url(cs[k].0).len() > 0,
    ensures
        exists|i: int| #[trigger] labelled_at(normalized(cs, observed), i, clean_url(cs[k].0), cs[k].3),
    decreases cs.len(),
{
    let prev = normalized(cs.drop_last(), observed);
    assert(normalized(cs, observed) == add_candidate(prev, cs.last(), observed));
    if k < cs.len() - 1 {
        assert(cs.drop_last()[k] == cs[k]);
        law_normalized_provenance(cs.drop_last(), observed, k);
    }
    lemma_add_candidate_labels(prev, cs.last(), observed, clean_url(cs[k].0), cs[k].3);
}

} // verus!
