//! The provider registry: loading manifests, routing a URL to the provider
//! that serves it, and preparing the requests sent to that provider.

use crate::config::{ActionConfig, ProviderManifest};
use crate::json::{Json, JsonValue};
use crate::text::{lemma_replace_absent, occurs_in, replace_all, replaced};
use vstd::prelude::*;

verus! {

broadcast use vstd::std_specs::vec::group_vec_axioms;

/// The message of the error that `regex::Regex::new` reports for `pattern`
/// (its `Display` text), or `None` when `pattern` compiles.
pub uninterp spec fn regex_error_text(pattern: Seq<char>) -> Option<Seq<char>>;

/// Whether the regular expression `pattern` matches somewhere in `text`
/// (`regex::Regex::is_match`).
pub uninterp spec fn regex_is_match(pattern: Seq<char>, text: Seq<char>) -> bool;

/// Compiles `pattern` with `regex::Regex::new` and reports the error text
/// when it does not compile.
#[verifier::external_body]
fn compile_pattern(pattern: &str) -> (r: Result<(), String>)
    ensures
        match r {
            Ok(()) => regex_error_text(pattern@) is None,
            Err(e) => regex_error_text(pattern@) == Some(e@),
        },
{
    regex::Regex::new(pattern).map(|_| ()).map_err(|e| e.to_string())
}

/// Whether `pattern`, compiled with `regex::Regex::new`, matches in `text`.
#[verifier::external_body]
fn pattern_matches(pattern: &str, text: &str) -> (b: bool)
    requires
        regex_error_text(pattern@) is None,
    ensures
        b == regex_is_match(pattern@, text@),
{
    regex::Regex::new(pattern).map(|re| re.is_match(text)).unwrap_or(false)
}

/// Every URL pattern of `m` compiles.
pub open spec fn patterns_compile(m: ProviderManifest) -> bool {
    forall|j: int|
        0 <= j < m.capabilities.url_patterns@.len() ==> (#[trigger] regex_error_text(
            m.capabilities.url_patterns@[j]@,
        )) is None
}

/// Some URL pattern of `m` matches `url`.
pub open spec fn serves(m: ProviderManifest, url: Seq<char>) -> bool {
    exists|j: int|
        0 <= j < m.capabilities.url_patterns@.len() && #[trigger] regex_is_match(
            m.capabilities.url_patterns@[j]@,
            url,
        )
}

/// `ms[i]` is the first manifest that serves `url`.
pub open spec fn is_first_match(ms: Seq<ProviderManifest>, url: Seq<char>, i: int) -> bool {
    &&& 0 <= i < ms.len()
    &&& serves(ms[i], url)
    &&& forall|k: int| 0 <= k < i ==> !serves(#[trigger] ms[k], url)
}

/// No manifest of `ms` serves `url`.
pub open spec fn none_serves(ms: Seq<ProviderManifest>, url: Seq<char>) -> bool {
    forall|k: int| 0 <= k < ms.len() ==> !serves(#[trigger] ms[k], url)
}

/// `sorted` with `m` inserted after every manifest whose priority is at
/// least that of `m`.
pub open spec fn insert_by_priority(sorted: Seq<ProviderManifest>, m: ProviderManifest) -> Seq<ProviderManifest>
    decreases sorted.len(),
{
    if sorted.len() == 0 || sorted.last().priority >= m.priority {
        sorted.push(m)
    } else {
        insert_by_priority(sorted.drop_last(), m).push(sorted.last())
    }
}

/// The manifests ordered by decreasing priority; manifests of equal
/// priority keep their order (a stable sort).
pub open spec fn sort_by_priority(s: Seq<ProviderManifest>) -> Seq<ProviderManifest>
    decreases s.len(),
{
    if s.len() == 0 {
        s
    } else {
        insert_by_priority(sort_by_priority(s.drop_last()), s.last())
    }
}

/// The error text of the first URL pattern in `patterns` that does not compile.
pub open spec fn first_pattern_error(patterns: Seq<Seq<char>>) -> Option<Seq<char>>
    decreases patterns.len(),
{
    if patterns.len() == 0 {
        None
    } else {
        match regex_error_text(patterns[0]) {
            Some(e) => Some(e),
            None => first_pattern_error(patterns.drop_first()),
        }
    }
}

/// The URL patterns of `m`, as text.
pub open spec fn pattern_texts(m: ProviderManifest) -> Seq<Seq<char>> {
    m.capabilities.url_patterns@.map_values(|p: String| p@)
}

/// Why a manifest entry cannot be loaded: the entry is an error, or one of
/// its URL patterns does not compile.
pub open spec fn entry_error(entry: Result<ProviderManifest, String>) -> Option<Seq<char>> {
    match entry {
        Err(e) => Some(e@),
        Ok(m) => first_pattern_error(pattern_texts(m)),
    }
}

/// The registry contents and the outcome after loading `entries` into a
/// registry holding `existing`: entries are added in order; the first entry
/// that cannot be loaded stops the loading with its error and leaves the
/// manifests added so far unsorted; when all are added, the whole registry
/// is sorted by priority.
pub open spec fn load_spec(existing: Seq<ProviderManifest>, entries: Seq<Result<ProviderManifest, String>>) -> (Seq<ProviderManifest>, Result<(), Seq<char>>)
    decreases entries.len(),
{
    if entries.len() == 0 {
        (sort_by_priority(existing), Ok(()))
    } else {
        match entry_error(entries[0]) {
            Some(e) => (existing, Err(e)),
            None => load_spec(existing.push(entries[0]->Ok_0), entries.drop_first()),
        }
    }
}

proof fn lemma_insert_at(s: Seq<ProviderManifest>, m: ProviderManifest, p: int)
    requires
        0 <= p <= s.len(),
        forall|k: int| p <= k < s.len() ==> (#[trigger] s[k]).priority < m.priority,
        p == 0 || s[p - 1].priority >= m.priority,
    ensures
        insert_by_priority(s, m) == s.take(p).push(m) + s.skip(p),
    decreases s.len(),
{
    if s.len() == p {
        assert(s.take(p) =~= s);
        assert(s.take(p).push(m) + s.skip(p) =~= s.push(m));
    } else {
        let t = s.drop_last();
        lemma_insert_at(t, m, p);
        assert(s.take(p).push(m) + s.skip(p) =~= (t.take(p).push(m) + t.skip(p)).push(s.last()));
    }
}

/// A URL has at most one first serving manifest, so `find_provider` and
/// `plan_request` pick the same provider for it.
pub proof fn lemma_first_match_unique(ms: Seq<ProviderManifest>, url: Seq<char>, i: int, j: int)
    requires
        is_first_match(ms, url, i),
        is_first_match(ms, url, j),
    ensures
        i == j,
{
    if i < j {
        assert(!serves(ms[i], url));
    } else if j < i {
        assert(!serves(ms[j], url));
    }
}

/// The manifests of `s` whose priority is `p`, in order.
pub open spec fn with_priority(s: Seq<ProviderManifest>, p: i32) -> Seq<ProviderManifest>
    decreases s.len(),
{
    if s.len() == 0 {
        s
    } else {
        let rest = with_priority(s.drop_last(), p);
        if s.last().priority == p {
            rest.push(s.last())
        } else {
            rest
        }
    }
}

/// Priorities never increase along `s`.
pub open spec fn priority_descending(s: Seq<ProviderManifest>) -> bool {
    forall|i: int, j: int| 0 <= i < j < s.len() ==> (#[trigger] s[i]).priority >= (#[trigger] s[j]).priority
}

proof fn lemma_insert_lower_bound(t: Seq<ProviderManifest>, m: ProviderManifest, q: int)
    requires
        forall|i: int| 0 <= i < t.len() ==> (#[trigger] t[i]).priority >= q,
        m.priority >= q,
    ensures
        insert_by_priority(t, m).len() == t.len() + 1,
        forall|i: int| 0 <= i < t.len() + 1 ==> (#[trigger] insert_by_priority(t, m)[i]).priority >= q,
    decreases t.len(),
{
    if !(t.len() == 0 || t.last().priority >= m.priority) {
        lemma_insert_lower_bound(t.drop_last(), m, q);
    }
}

proof fn lemma_insert_sorted(t: Seq<ProviderManifest>, m: ProviderManifest)
    requires
        priority_descending(t),
    ensures
        priority_descending(insert_by_priority(t, m)),
        insert_by_priority(t, m).len() == t.len() + 1,
    decreases t.len(),
{
    if t.len() == 0 || t.last().priority >= m.priority {
    } else {
        let t2 = t.drop_last();
        lemma_insert_sorted(t2, m);
        lemma_insert_lower_bound(t2, m, t.last().priority as int);
        let r = insert_by_priority(t2, m);
        assert forall|i: int, j: int| 0 <= i < j < r.push(t.last()).len() implies (#[trigger] r.push(
            t.last(),
        )[i]).priority >= (#[trigger] r.push(t.last())[j]).priority by {
            if j == r.len() {
                assert(r[i].priority >= t.last().priority);
            } else {
                assert(r.push(t.last())[i] == r[i] && r.push(t.last())[j] == r[j]);
            }
        }
    }
}

/// Sorting by priority yields priorities that never increase.
pub proof fn lemma_sort_descending(s: Seq<ProviderManifest>)
    ensures
        priority_descending(sort_by_priority(s)),
        sort_by_priority(s).len() == s.len(),
    decreases s.len(),
{
    if s.len() > 0 {
        lemma_sort_descending(s.drop_last());
        lemma_insert_sorted(sort_by_priority(s.drop_last()), s.last());
    }
}

proof fn lemma_insert_multiset(t: Seq<ProviderManifest>, m: ProviderManifest)
    ensures
        insert_by_priority(t, m).to_multiset() == t.to_multiset().insert(m),
    decreases t.len(),
{
    broadcast use vstd::seq_lib::to_multiset_build;
    if t.len() == 0 || t.last().priority >= m.priority {
    } else {
        let t2 = t.drop_last();
        lemma_insert_multiset(t2, m);
        assert(t2.push(t.last()) =~= t);
        assert(t.to_multiset() == t2.to_multiset().insert(t.last()));
        assert(insert_by_priority(t, m).to_multiset() =~= t.to_multiset().insert(m));
    }
}

/// Sorting by priority keeps every manifest, as often as it occurs.
pub proof fn lemma_sort_permutes(s: Seq<ProviderManifest>)
    ensures
        sort_by_priority(s).to_multiset() == s.to_multiset(),
    decreases s.len(),
{
    broadcast use vstd::seq_lib::to_multiset_build;
    if s.len() > 0 {
        lemma_sort_permutes(s.drop_last());
        lemma_insert_multiset(sort_by_priority(s.drop_last()), s.last());
        assert(s.drop_last().push(s.last()) =~= s);
    }
}

proof fn lemma_insert_with_priority(t: Seq<ProviderManifest>, m: ProviderManifest, p: i32)
    ensures
        with_priority(insert_by_priority(t, m), p) == if m.priority == p {
            with_priority(t, p).push(m)
        } else {
            with_priority(t, p)
        },
    decreases t.len(),
{
    if t.len() == 0 || t.last().priority >= m.priority {
        assert(t.push(m).drop_last() =~= t);
    } else {
        let t2 = t.drop_last();
        lemma_insert_with_priority(t2, m, p);
        let r = insert_by_priority(t2, m);
        assert(r.push(t.last()).drop_last() =~= r);
    }
}

/// Sorting by priority is stable: the manifests of any one priority keep
/// their order.
pub proof fn lemma_sort_stable(s: Seq<ProviderManifest>, p: i32)
    ensures
        with_priority(sort_by_priority(s), p) == with_priority(s, p),
    decreases s.len(),
{
    if s.len() > 0 {
        lemma_sort_stable(s.drop_last(), p);
        lemma_insert_with_priority(sort_by_priority(s.drop_last()), s.last(), p);
    }
}

proof fn lemma_with_priority_concat(a: Seq<ProviderManifest>, b: Seq<ProviderManifest>, p: i32)
    ensures
        with_priority(a + b, p) == with_priority(a, p) + with_priority(b, p),
    decreases b.len(),
{
    if b.len() == 0 {
        assert(a + b =~= a);
        assert(with_priority(a, p) + with_priority(b, p) =~= with_priority(a, p));
    } else {
        lemma_with_priority_concat(a, b.drop_last(), p);
        assert((a + b).drop_last() =~= a + b.drop_last());
        assert((a + b).last() == b.last());
        if b.last().priority == p {
            assert(with_priority(a, p) + with_priority(b.drop_last(), p).push(b.last()) =~= (with_priority(
                a,
                p,
            ) + with_priority(b.drop_last(), p)).push(b.last()));
        }
    }
}

proof fn lemma_with_priority_members(a: Seq<ProviderManifest>, p: i32)
    ensures
        forall|i: int| 0 <= i < with_priority(a, p).len() ==> a.contains(#[trigger] with_priority(a, p)[i]),
    decreases a.len(),
{
    if a.len() > 0 {
        let a2 = a.drop_last();
        lemma_with_priority_members(a2, p);
        assert forall|i: int| 0 <= i < with_priority(a, p).len() implies a.contains(#[trigger] with_priority(a, p)[i]) by {
            if i < with_priority(a2, p).len() {
                let x = with_priority(a2, p)[i];
                assert(with_priority(a, p)[i] == x);
                let k = choose|k: int| 0 <= k < a2.len() && a2[k] == x;
                assert(a[k] == x);
            } else {
                assert(with_priority(a, p)[i] == a.last());
                assert(a[a.len() - 1] == a.last());
            }
        }
    }
}

/// Routing by priority: when the manifests `loaded` are sorted as loading
/// sorts them and the `i`-th is the first to serve `url`, then no loaded
/// manifest that serves `url` has a higher priority, and among the loaded
/// manifests of that priority the chosen one is the first that serves
/// `url` in loading order.
pub proof fn lemma_priority_routing(loaded: Seq<ProviderManifest>, url: Seq<char>, i: int)
    requires
        is_first_match(sort_by_priority(loaded), url, i),
    ensures
        forall|j: int|
            0 <= j < loaded.len() && serves(#[trigger] loaded[j], url) ==> loaded[j].priority
                <= sort_by_priority(loaded)[i].priority,
        ({
            let chosen = sort_by_priority(loaded)[i];
            let same = with_priority(loaded, chosen.priority);
            exists|k: int|
                0 <= k < same.len() && same[k] == chosen && forall|l: int|
                    0 <= l < k ==> !serves(#[trigger] same[l], url)
        }),
{
    broadcast use vstd::seq_lib::group_to_multiset_ensures;
    let sorted = sort_by_priority(loaded);
    let chosen = sorted[i];
    lemma_sort_descending(loaded);
    lemma_sort_permutes(loaded);
    assert forall|j: int| 0 <= j < loaded.len() && serves(#[trigger] loaded[j], url) implies loaded[j].priority
        <= chosen.priority by {
        assert(loaded.contains(loaded[j]));
        assert(loaded.to_multiset().count(loaded[j]) > 0);
        assert(sorted.contains(loaded[j]));
        let q = choose|q: int| 0 <= q < sorted.len() && sorted[q] == loaded[j];
        if q < i {
            assert(!serves(sorted[q], url));
        }
    }
    let p = chosen.priority;
    lemma_sort_stable(loaded, p);
    let front = sorted.take(i);
    let back = sorted.skip(i);
    assert(front + back =~= sorted);
    lemma_with_priority_concat(front, back, p);
    lemma_with_priority_members(front, p);
    let k = with_priority(front, p).len() as int;
    let same = with_priority(loaded, p);
    assert(back =~= seq![chosen] + back.drop_first());
    lemma_with_priority_concat(seq![chosen], back.drop_first(), p);
    assert(seq![chosen].drop_last() =~= Seq::<ProviderManifest>::empty());
    assert(with_priority(Seq::<ProviderManifest>::empty(), p) == Seq::<ProviderManifest>::empty());
    assert(seq![chosen].last() == chosen);
    assert(with_priority(seq![chosen], p) == with_priority(seq![chosen].drop_last(), p).push(chosen));
    assert(with_priority(seq![chosen], p) =~= seq![chosen]);
    assert(same == with_priority(front, p) + (seq![chosen] + with_priority(back.drop_first(), p)));
    assert(same[k] == chosen);
    assert forall|l: int| 0 <= l < k implies !serves(#[trigger] same[l], url) by {
        let x = with_priority(front, p)[l];
        assert(same[l] == x);
        assert(front.contains(x));
        let q = choose|q: int| 0 <= q < front.len() && front[q] == x;
        assert(sorted[q] == x);
    }
}

/// The kind of request sent to a provider.
#[derive(Debug, Clone, Copy, PartialEq, Eq)]
pub enum ProviderAction {
    FetchFeed,
    ResolveStream,
}

/// The configuration of `action` in `m`.
pub open spec fn action_config(m: ProviderManifest, action: ProviderAction) -> ActionConfig {
    match action {
        ProviderAction::FetchFeed => m.actions.fetch_feed,
        ProviderAction::ResolveStream => m.actions.resolve_stream,
    }
}

/// A request to send to a provider.
#[derive(Debug, Clone)]
pub struct ProviderRequest {
    /// The position of the provider in the registry.
    pub provider_index: usize,
    pub method: String,
    pub url: String,
    pub headers: Vec<(String, String)>,
    pub payload: JsonValue,
}

/// The mathematical model of a [`ProviderRequest`].
pub struct RequestModel {
    pub provider_index: usize,
    pub method: Seq<char>,
    pub url: Seq<char>,
    pub headers: Seq<(Seq<char>, Seq<char>)>,
    pub payload: Json,
}

/// The model of a list of headers.
pub open spec fn headers_model(headers: Seq<(String, String)>) -> Seq<(Seq<char>, Seq<char>)> {
    headers.map_values(|h: (String, String)| (h.0@, h.1@))
}

impl View for ProviderRequest {
    type V = RequestModel;

    open spec fn view(&self) -> RequestModel {
        RequestModel {
            provider_index: self.provider_index,
            method: self.method@,
            url: self.url@,
            headers: headers_model(self.headers@),
            payload: self.payload@,
        }
    }
}

/// The placeholder that stands for the client's URL in request payloads.
pub open spec fn target_placeholder() -> Seq<char> {
    "{{target_url}}"@
}

/// `v` with the placeholder replaced by `target` in every string value;
/// object keys and all other values stay as they are.
pub open spec fn interpolate_spec(v: Json, target: Seq<char>) -> Json
    decreases v,
{
    match v {
        Json::String(s) => Json::String(replace_all(s, target_placeholder(), target)),
        Json::Array(items) => Json::Array(
            Seq::new(
                items.len(),
                |i: int|
                    if 0 <= i < items.len() {
                        interpolate_spec(items[i], target)
                    } else {
                        Json::Null
                    },
            ),
        ),
        Json::Object(members) => Json::Object(
            Seq::new(
                members.len(),
                |i: int|
                    if 0 <= i < members.len() {
                        (members[i].0, interpolate_spec(members[i].1, target))
                    } else {
                        (Seq::empty(), Json::Null)
                    },
            ),
        ),
        _ => v,
    }
}

/// No string in `v` holds the placeholder.
pub open spec fn placeholder_free(v: Json) -> bool
    decreases v,
{
    match v {
        Json::String(s) => !occurs_in(target_placeholder(), s),
        Json::Array(items) => forall|i: int| 0 <= i < items.len() ==> placeholder_free(#[trigger] items[i]),
        Json::Object(members) => forall|i: int|
            0 <= i < members.len() ==> placeholder_free(#[trigger] members[i].1),
        _ => true,
    }
}

/// A payload without the placeholder is sent as it is written.
pub proof fn lemma_interpolate_placeholder_free(v: Json, target: Seq<char>)
    requires
        placeholder_free(v),
    ensures
        interpolate_spec(v, target) == v,
    decreases v,
{
    match v {
        Json::String(s) => {
            lemma_replace_absent(s, target_placeholder(), target);
        },
        Json::Array(items) => {
            assert forall|i: int| 0 <= i < items.len() implies interpolate_spec(items[i], target) == items[i] by {
                assert(placeholder_free(items[i]));
                lemma_interpolate_placeholder_free(items[i], target);
            }
            assert(interpolate_spec(v, target)->Array_0 =~= items);
        },
        Json::Object(members) => {
            assert forall|i: int| 0 <= i < members.len() implies interpolate_spec(members[i].1, target)
                == members[i].1 by {
                assert(placeholder_free(members[i].1));
                lemma_interpolate_placeholder_free(members[i].1, target);
            }
            assert(interpolate_spec(v, target)->Object_0 =~= members);
        },
        _ => {},
    }
}

/// The request for `action` of the manifest `ms[i]` on behalf of `url`:
/// the endpoint followed by the action's path, the action's method and
/// headers, and its payload with the placeholder replaced by `url`.
pub open spec fn request_spec(ms: Seq<ProviderManifest>, i: int, url: Seq<char>, action: ProviderAction) -> RequestModel {
    let m = ms[i];
    let cfg = action_config(m, action);
    RequestModel {
        provider_index: i as usize,
        method: cfg.method@,
        url: m.endpoint@ + cfg.path@,
        headers: match cfg.headers {
            Some(h) => headers_model(h@),
            None => seq![],
        },
        payload: interpolate_spec(cfg.payload@, url),
    }
}

/// The value reached from `v` by following `path`: at an array the element
/// with the next index, at an object the value of the member with the next
/// index; none when the path leaves the document.
pub open spec fn value_at(v: Json, path: Seq<int>) -> Option<Json>
    decreases path.len(),
{
    if path.len() == 0 {
        Some(v)
    } else {
        let i = path[0];
        match v {
            Json::Array(items) => if 0 <= i < items.len() {
                value_at(items[i], path.skip(1))
            } else {
                None
            },
            Json::Object(members) => if 0 <= i < members.len() {
                value_at(members[i].1, path.skip(1))
            } else {
                None
            },
            _ => None,
        }
    }
}

/// Interpolation keeps the shape of a payload and touches only its strings:
/// at every path, the interpolated payload holds a value exactly when the
/// payload does; a string there becomes the string with every
/// `{{target_url}}` replaced by `target`, wherever it stands (array element
/// or object member); `null`, booleans and numbers stay as they are;
/// arrays keep their length and objects their keys, in order.
pub proof fn lemma_interpolate_at(v: Json, target: Seq<char>, path: Seq<int>)
    ensures
        value_at(v, path) is Some <==> value_at(interpolate_spec(v, target), path) is Some,
        value_at(v, path) matches Some(Json::String(s)) ==> value_at(interpolate_spec(v, target), path) == Some(
            Json::String(replace_all(s, "{{target_url}}"@, target)),
        ),
        value_at(v, path) matches Some(x) ==> ((x is Null || x is Bool || x is Number) ==> value_at(
            interpolate_spec(v, target),
            path,
        ) == Some(x)),
        value_at(v, path) matches Some(Json::Array(items)) ==> (value_at(interpolate_spec(v, target), path) matches Some(
            Json::Array(out),
        ) && out.len() == items.len()),
        value_at(v, path) matches Some(Json::Object(members)) ==> (value_at(interpolate_spec(v, target), path) matches Some(
            Json::Object(out),
        ) && out.len() == members.len() && forall|k: int| 0 <= k < members.len() ==> #[trigger] out[k].0 == members[k].0),
    decreases path.len(),
{
    if path.len() > 0 {
        let i = path[0];
        match v {
            Json::Array(items) => {
                if 0 <= i < items.len() {
                    lemma_interpolate_at(items[i], target, path.skip(1));
                }
            },
            Json::Object(members) => {
                if 0 <= i < members.len() {
                    lemma_interpolate_at(members[i].1, target, path.skip(1));
                }
            },
            _ => {},
        }
    }
}

/// A request is built from the configuration of its own action: a stream
/// resolution from the manifest's `resolve_stream` action and a feed fetch
/// from its `fetch_feed` action, each with that action's method and
/// headers, the endpoint followed by that action's path, and that action's
/// payload interpolated with the client's URL.
pub proof fn lemma_request_action(ms: Seq<ProviderManifest>, i: int, url: Seq<char>)
    ensures
        ({
            let m = ms[i];
            let resolve = request_spec(ms, i, url, ProviderAction::ResolveStream);
            let fetch = request_spec(ms, i, url, ProviderAction::FetchFeed);
            &&& resolve.method == m.actions.resolve_stream.method@
            &&& resolve.url == m.endpoint@ + m.actions.resolve_stream.path@
            &&& resolve.payload == interpolate_spec(m.actions.resolve_stream.payload@, url)
            &&& resolve.headers == match m.actions.resolve_stream.headers {
                Some(h) => headers_model(h@),
                None => seq![],
            }
            &&& fetch.method == m.actions.fetch_feed.method@
            &&& fetch.url == m.endpoint@ + m.actions.fetch_feed.path@
            &&& fetch.payload == interpolate_spec(m.actions.fetch_feed.payload@, url)
            &&& fetch.headers == match m.actions.fetch_feed.headers {
                Some(h) => headers_model(h@),
                None => seq![],
            }
            &&& resolve.provider_index == fetch.provider_index
        }),
{
}

fn interpolated(v: &JsonValue, target_url: &str) -> (r: JsonValue)
    ensures
        r@ == interpolate_spec(v@, target_url@),
    decreases v,
{
    match v {
        JsonValue::Null => JsonValue::Null,
        JsonValue::Bool(b) => JsonValue::Bool(*b),
        JsonValue::Number(n) => JsonValue::Number(n.copy()),
        JsonValue::String(s) => JsonValue::String(replaced(s.as_str(), "{{target_url}}", target_url)),
        JsonValue::Array(items) => {
            let mut out: Vec<JsonValue> = Vec::new();
            let mut i: usize = 0;
            while i < items.len()
                invariant
                    i <= items@.len(),
                    v is Array && v->Array_0 == *items,
                    out@.len() == i,
                    forall|k: int| 0 <= k < i ==> (#[trigger] out@[k])@ == interpolate_spec(items@[k]@, target_url@),
                decreases items@.len() - i,
            {
                proof {
                    assert(decreases_to!(*v => v->Array_0));
                    assert(decreases_to!(*items => items[i as int]));
                }
                let x = interpolated(&items[i], target_url);
                out.push(x);
                i = i + 1;
            }
            let r = JsonValue::Array(out);
            proof {
                let a = r@->Array_0;
                let b = interpolate_spec(v@, target_url@)->Array_0;
                assert(a.len() == b.len());
                assert forall|k: int| 0 <= k < a.len() implies a[k] == b[k] by {
                    assert(out@[k]@ == interpolate_spec(items@[k]@, target_url@));
                }
                assert(a =~= b);
            }
            r
        },
        JsonValue::Object(members) => {
            let mut out: Vec<(String, JsonValue)> = Vec::new();
            let mut i: usize = 0;
            while i < members.len()
                invariant
                    i <= members@.len(),
                    v is Object && v->Object_0 == *members,
                    out@.len() == i,
                    forall|k: int|
                        0 <= k < i ==> (#[trigger] out@[k]).0@ == members@[k].0@ && out@[k].1@
                            == interpolate_spec(members@[k].1@, target_url@),
                decreases members@.len() - i,
            {
                proof {
                    assert(decreases_to!(*v => v->Object_0));
                    assert(decreases_to!(*members => members[i as int]));
                    assert(decreases_to!(members[i as int] => members[i as int].1));
                }
                let key = members[i].0.clone();
                let x = interpolated(&members[i].1, target_url);
                out.push((key, x));
                i = i + 1;
            }
            let r = JsonValue::Object(out);
            proof {
                let a = r@->Object_0;
                let b = interpolate_spec(v@, target_url@)->Object_0;
                assert(a.len() == b.len());
                assert forall|k: int| 0 <= k < a.len() implies a[k] == b[k] by {
                    assert(out@[k].1@ == interpolate_spec(members@[k].1@, target_url@));
                }
                assert(a =~= b);
            }
            r
        },
    }
}

fn copy_headers(headers: &Option<Vec<(String, String)>>) -> (r: Vec<(String, String)>)
    ensures
        headers_model(r@) == match headers {
            Some(h) => headers_model(h@),
            None => seq![],
        },
{
    let mut out: Vec<(String, String)> = Vec::new();
    match headers {
        Some(h) => {
            let mut i: usize = 0;
            while i < h.len()
                invariant
                    i <= h@.len(),
                    headers_model(out@) =~= headers_model(h@.take(i as int)),
                decreases h@.len() - i,
            {
                let ghost before = out@;
                out.push((h[i].0.clone(), h[i].1.clone()));
                assert(h@.take(i + 1) =~= h@.take(i as int).push(h@[i as int]));
                assert(out@ =~= before.push(h@[i as int]));
                assert(headers_model(out@) =~= headers_model(before).push((h@[i as int].0@, h@[i as int].1@)));
                assert(headers_model(h@.take(i + 1)) =~= headers_model(h@.take(i as int)).push((h@[i as int].0@, h@[i as int].1@)));
                i = i + 1;
            }
            assert(h@.take(h@.len() as int) =~= h@);
        },
        None => {
            assert(headers_model(out@) =~= Seq::<(Seq<char>, Seq<char>)>::empty());
        },
    }
    out
}

/// The `Display` text of the HTTP status `code` (`http::StatusCode`): the
/// code followed by its canonical reason phrase.
pub uninterp spec fn http_status_text(code: u16) -> Seq<char>;

/// Renders an HTTP status code with `reqwest::StatusCode`'s `Display`.
#[verifier::external_body]
fn status_text(code: u16) -> (r: String)
    requires
        100 <= code <= 999,
    ensures
        r@ == http_status_text(code),
{
    reqwest::StatusCode::from_u16(code).map(|s| s.to_string()).unwrap_or_default()
}

/// Whether a provider's HTTP status is a success (2xx); otherwise the
/// error reported for it.
pub fn classify_provider_status(code: u16) -> (r: Result<(), String>)
    requires
        100 <= code <= 999,
    ensures
        match r {
            Ok(()) => 200 <= code < 300,
            Err(e) => !(200 <= code < 300) && e@ == "ProviderError: HTTP "@ + http_status_text(code),
        },
{
    if 200 <= code && code < 300 {
        Ok(())
    } else {
        let mut message = "ProviderError: HTTP ".to_owned();
        message.append(status_text(code).as_str());
        Err(message)
    }
}

/// The registered providers, in routing order.
#[derive(Debug)]
pub struct ProviderRegistry {
    providers: Vec<ProviderManifest>,
}

impl ProviderRegistry {
    /// The registered manifests, in the order in which URLs are routed.
    pub closed spec fn manifests(&self) -> Seq<ProviderManifest> {
        self.providers@
    }

    /// Every URL pattern of every registered manifest compiles: only
    /// manifests whose patterns compile are ever registered.
    #[verifier::type_invariant]
    spec fn wf(&self) -> bool {
        forall|i: int| 0 <= i < self.providers@.len() ==> patterns_compile(#[trigger] self.providers@[i])
    }

    /// An empty registry.
    pub fn new() -> (r: Self)
        ensures
            r.manifests() == Seq::<ProviderManifest>::empty(),
    {
        ProviderRegistry { providers: Vec::new() }
    }

    /// The number of registered providers.
    pub fn len(&self) -> (n: usize)
        ensures
            n == self.manifests().len(),
    {
        self.providers.len()
    }

    /// The provider at `index` in routing order.
    pub fn provider(&self, index: usize) -> (r: Option<&ProviderManifest>)
        ensures
            match r {
                Some(m) => index < self.manifests().len() && *m == self.manifests()[index as int],
                None => index >= self.manifests().len(),
            },
    {
        if index < self.providers.len() {
            Some(&self.providers[index])
        } else {
            None
        }
    }

    fn manifest_serves(m: &ProviderManifest, url: &str) -> (b: bool)
        requires
            patterns_compile(*m),
        ensures
            b == serves(*m, url@),
    {
        let patterns = &m.capabilities.url_patterns;
        let mut j: usize = 0;
        while j < patterns.len()
            invariant
                j <= patterns@.len(),
                *patterns == m.capabilities.url_patterns,
                patterns_compile(*m),
                forall|k: int| 0 <= k < j ==> !regex_is_match(#[trigger] patterns@[k]@, url@),
            decreases patterns@.len() - j,
        {
            assert(regex_error_text(patterns@[j as int]@) is None);
            if pattern_matches(patterns[j].as_str(), url) {
                return true;
            }
            j = j + 1;
        }
        false
    }

    fn find_index(&self, url: &str) -> (r: Option<usize>)
        ensures
            match r {
                Some(i) => is_first_match(self.manifests(), url@, i as int),
                None => none_serves(self.manifests(), url@),
            },
    {
        proof {
            use_type_invariant(self);
        }
        let mut i: usize = 0;
        while i < self.providers.len()
            invariant
                i <= self.providers@.len(),
                forall|k: int| 0 <= k < self.providers@.len() ==> patterns_compile(#[trigger] self.providers@[k]),
                forall|k: int| 0 <= k < i ==> !serves(#[trigger] self.manifests()[k], url@),
            decreases self.providers@.len() - i,
        {
            assert(patterns_compile(self.providers@[i as int]));
            if Self::manifest_serves(&self.providers[i], url) {
                return Some(i);
            }
            i = i + 1;
        }
        None
    }

    /// The first registered provider, in routing order, with a URL pattern
    /// that matches `url`.
    pub fn find_provider(&self, url: &str) -> (r: Option<&ProviderManifest>)
        ensures
            match r {
                Some(m) => exists|i: int| is_first_match(self.manifests(), url@, i) && *m == self.manifests()[i],
                None => none_serves(self.manifests(), url@),
            },
    {
        match self.find_index(url) {
            Some(i) => Some(&self.providers[i]),
            None => None,
        }
    }

    fn add_manifest(&mut self, m: ProviderManifest) -> (r: Result<(), String>)
        ensures
            match r {
                Ok(()) => first_pattern_error(pattern_texts(m)) is None
                    && final(self).manifests() == old(self).manifests().push(m),
                Err(e) => first_pattern_error(pattern_texts(m)) == Some(e@)
                    && final(self).manifests() == old(self).manifests(),
            },
    {
        proof {
            use_type_invariant(&*self);
        }
        let ghost ps = pattern_texts(m);
        let mut j: usize = 0;
        assert(ps.skip(0) =~= ps);
        while j < m.capabilities.url_patterns.len()
            invariant
                j <= ps.len() == m.capabilities.url_patterns@.len(),
                ps == pattern_texts(m),
                self.manifests() == old(self).manifests(),
                first_pattern_error(ps) == first_pattern_error(ps.skip(j as int)),
                forall|k: int| 0 <= k < j ==> (#[trigger] regex_error_text(ps[k])) is None,
            decreases ps.len() - j,
        {
            assert(ps.skip(j as int).drop_first() =~= ps.skip(j + 1));
            assert(ps.skip(j as int)[0] == ps[j as int]);
            match compile_pattern(m.capabilities.url_patterns[j].as_str()) {
                Err(e) => {
                    return Err(e);
                },
                Ok(()) => {},
            }
            j = j + 1;
        }
        assert(ps.skip(j as int) =~= Seq::<Seq<char>>::empty());
        assert(patterns_compile(m)) by {
            assert forall|k: int| 0 <= k < m.capabilities.url_patterns@.len() implies (#[trigger] regex_error_text(
                m.capabilities.url_patterns@[k]@,
            )) is None by {
                assert(ps[k] == m.capabilities.url_patterns@[k]@);
            }
        }
        let mut providers: Vec<ProviderManifest> = Vec::new();
        std::mem::swap(&mut providers, &mut self.providers);
        let ghost before = providers@;
        assert(before == old(self).manifests());
        providers.push(m);
        assert forall|i: int| 0 <= i < providers@.len() implies patterns_compile(#[trigger] providers@[i]) by {
            if i < before.len() {
                assert(providers@[i] == before[i]);
            }
        }
        self.providers = providers;
        Ok(())
    }

    fn sort_providers(&mut self)
        ensures
            final(self).manifests() == sort_by_priority(old(self).manifests()),
    {
        proof {
            use_type_invariant(&*self);
        }
        let ghost orig = self.providers@;
        let mut pending: Vec<ProviderManifest> = Vec::new();
        std::mem::swap(&mut pending, &mut self.providers);
        let mut sorted: Vec<ProviderManifest> = Vec::new();
        let ghost mut k: int = 0;
        assert(orig.skip(0) =~= orig);
        assert(orig.take(0) =~= Seq::<ProviderManifest>::empty());
        while pending.len() > 0
            invariant
                0 <= k <= orig.len(),
                pending@ == orig.skip(k),
                sorted@ == sort_by_priority(orig.take(k)),
                forall|i: int| 0 <= i < orig.len() ==> patterns_compile(#[trigger] orig[i]),
                forall|i: int| 0 <= i < sorted@.len() ==> patterns_compile(#[trigger] sorted@[i]),
            decreases pending@.len(),
        {
            assert(orig.skip(k)[0] == orig[k]);
            let m = pending.remove(0);
            assert(pending@ =~= orig.skip(k + 1));
            let mut p = sorted.len();
            while p > 0 && sorted[p - 1].priority < m.priority
                invariant
                    p <= sorted@.len(),
                    forall|q: int| p <= q < sorted@.len() ==> (#[trigger] sorted@[q]).priority < m.priority,
                decreases p,
            {
                p = p - 1;
            }
            proof {
                lemma_insert_at(sorted@, m, p as int);
                assert(orig.take(k + 1).drop_last() =~= orig.take(k));
                assert(orig.take(k + 1).last() == orig[k]);
            }
            let ghost before = sorted@;
            sorted.insert(p, m);
            assert(sorted@ =~= before.take(p as int).push(m) + before.skip(p as int));
            proof {
                k = k + 1;
                assert forall|i: int| 0 <= i < sorted@.len() implies patterns_compile(#[trigger] sorted@[i]) by {
                    if i < p {
                        assert(sorted@[i] == before[i]);
                    } else if i > p {
                        assert(sorted@[i] == before[i - 1]);
                    }
                }
            }
        }
        assert(orig.take(k) =~= orig);
        self.providers = sorted;
    }

    /// Loads manifest entries, as read from the manifest files in order:
    /// each entry is a parsed manifest or the error met while reading it.
    /// Manifests are added in order; the first entry that is an error, or
    /// whose URL patterns do not all compile, ends the loading with that
    /// error. When all entries are added, the registry is ordered by
    /// decreasing priority, manifests of equal priority in loading order.
    pub fn load_manifests(&mut self, entries: Vec<Result<ProviderManifest, String>>) -> (r: Result<(), String>)
        ensures
            final(self).manifests() == load_spec(old(self).manifests(), entries@).0,
            match r {
                Ok(()) => load_spec(old(self).manifests(), entries@).1 is Ok,
                Err(e) => load_spec(old(self).manifests(), entries@).1 == Err::<(), Seq<char>>(e@),
            },
    {
        let ghost all = entries@;
        let ghost start = self.manifests();
        let mut pending = entries;
        let ghost mut k: int = 0;
        assert(all.skip(0) =~= all);
        while pending.len() > 0
            invariant
                0 <= k <= all.len(),
                pending@ == all.skip(k),
                load_spec(start, all) == load_spec(self.manifests(), all.skip(k)),
                start == old(self).manifests(),
                all == entries@,
            decreases pending@.len(),
        {
            let ghost here = self.manifests();
            assert(all.skip(k).drop_first() =~= all.skip(k + 1));
            assert(pending@[0] == all.skip(k)[0]);
            let entry = pending.remove(0);
            assert(pending@ =~= all.skip(k + 1));
            assert(entry == all.skip(k)[0]);
            match entry {
                Err(e) => {
                    assert(load_spec(here, all.skip(k)) == (here, Err::<(), Seq<char>>(e@)));
                    return Err(e);
                },
                Ok(m) => {
                    match self.add_manifest(m) {
                        Err(e) => {
                            assert(load_spec(here, all.skip(k)) == (here, Err::<(), Seq<char>>(e@)));
                            return Err(e);
                        },
                        Ok(()) => {},
                    }
                },
            }
            proof {
                k = k + 1;
            }
        }
        assert(all.skip(k) =~= Seq::<Result<ProviderManifest, String>>::empty());
        self.sort_providers();
        Ok(())
    }

    /// Replaces the placeholder `{{target_url}}` by `target_url` in every
    /// string of `val`.
    pub fn interpolate_value(val: &mut JsonValue, target_url: &str)
        ensures
            final(val)@ == interpolate_spec(old(val)@, target_url@),
    {
        let v = interpolated(val, target_url);
        *val = v;
    }

    /// The request for `action` of the provider that serves `url`, or the
    /// error that no provider serves it.
    pub fn plan_request(&self, url: &str, action: ProviderAction) -> (r: Result<ProviderRequest, String>)
        ensures
            match r {
                Ok(req) => is_first_match(self.manifests(), url@, req.provider_index as int)
                    && req@ == request_spec(self.manifests(), req.provider_index as int, url@, action),
                Err(e) => none_serves(self.manifests(), url@) && e@ == "No provider found matching URL: "@ + url@,
            },
    {
        match self.find_index(url) {
            None => {
                let mut message = "No provider found matching URL: ".to_owned();
                message.append(url);
                Err(message)
            },
            Some(i) => {
                let m = &self.providers[i];
                let cfg = match action {
                    ProviderAction::FetchFeed => &m.actions.fetch_feed,
                    ProviderAction::ResolveStream => &m.actions.resolve_stream,
                };
                let mut action_url = m.endpoint.clone();
                action_url.append(cfg.path.as_str());
                let req = ProviderRequest {
                    provider_index: i,
                    method: cfg.method.clone(),
                    url: action_url,
                    headers: copy_headers(&cfg.headers),
                    payload: interpolated(&cfg.payload, url),
                };
                Ok(req)
            },
        }
    }
}

} // verus!
