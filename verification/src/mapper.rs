//! Maps a provider's JSON answer onto the unified media schema, following
//! the JSONPath expressions of the provider's manifest.

use crate::config::{ItemMapping, ProviderManifest};
use crate::json::{debug_text, json_debug_text, json_from_text, json_path_first, parse_json, query_first, Json, JsonNumber, JsonValue, NumberModel};
use crate::model::{FeedModel, ItemModel, MediaFeed, MediaItem};
use crate::text::{chars_of, decimal, digits_value, i64_to_decimal, is_ascii_digit, parse_u64, parse_u64_spec, signed_decimal, trim, trimmed, u64_to_decimal};
use vstd::prelude::*;

verus! {

/// The text `bool::to_string` gives.
pub open spec fn bool_text(b: bool) -> Seq<char> {
    if b {
        "true"@
    } else {
        "false"@
    }
}

/// The text `serde_json::Number::to_string` gives.
pub open spec fn number_text(n: NumberModel) -> Seq<char> {
    match n {
        NumberModel::PosInt(u) => decimal(u as nat),
        NumberModel::NegInt(i) => signed_decimal(i as int),
        NumberModel::Float(t) => t,
    }
}

/// What `serde_json::Number::as_u64` gives.
pub open spec fn number_as_u64(n: NumberModel) -> Option<u64> {
    match n {
        NumberModel::PosInt(u) => Some(u),
        NumberModel::NegInt(i) => if i >= 0 {
            Some(i as u64)
        } else {
            None
        },
        NumberModel::Float(_) => None,
    }
}

/// The text of a scalar node: a string as it is, a number or a boolean as
/// it is displayed; no text for `null`, arrays and objects.
pub open spec fn scalar_text(v: Json) -> Option<Seq<char>> {
    match v {
        Json::String(s) => Some(s),
        Json::Number(n) => Some(number_text(n)),
        Json::Bool(b) => Some(bool_text(b)),
        _ => None,
    }
}

/// The text of the first node that `path` selects in `doc`.
pub open spec fn query_string_spec(doc: Json, path: Seq<char>) -> Option<Seq<char>> {
    match json_path_first(path, doc) {
        Some(node) => scalar_text(node),
        None => None,
    }
}

/// The text at an optional path: none when there is no path.
pub open spec fn query_optional_spec(doc: Json, path: Option<String>) -> Option<Seq<char>> {
    match path {
        Some(p) => query_string_spec(doc, p@),
        None => None,
    }
}

/// The unsigned integer held by the first node that `path` selects in
/// `doc`: a non-negative integer number, or a string that parses as one.
pub open spec fn query_number_spec(doc: Json, path: Seq<char>) -> Option<u64> {
    match json_path_first(path, doc) {
        Some(Json::Number(n)) => number_as_u64(n),
        Some(Json::String(s)) => parse_u64_spec(s),
        _ => None,
    }
}

/// The elements of the first node that `path` selects in `doc`, when that
/// node is an array.
pub open spec fn query_array_spec(doc: Json, path: Seq<char>) -> Option<Seq<Json>> {
    match json_path_first(path, doc) {
        Some(Json::Array(items)) => Some(items),
        _ => None,
    }
}

/// The document to map: when `unpack_field` selects a scalar, the JSON
/// document that its text holds, or, when that text is no JSON document,
/// the text itself without surrounding white space; otherwise `raw`.
pub open spec fn unpack_spec(unpack_field: Option<Seq<char>>, raw: Json) -> Json {
    match unpack_field {
        Some(path) => match query_string_spec(raw, path) {
            Some(text) => match json_from_text(text) {
                Some(doc) => doc,
                None => Json::String(trim(text)),
            },
            None => raw,
        },
        None => raw,
    }
}

/// Without an unpack field, the provider's answer is mapped as it is.
pub proof fn lemma_unpack_absent(raw: Json)
    ensures
        unpack_spec(None, raw) == raw,
{
}

/// `o`, or `default` when there is none.
pub open spec fn or_else(o: Option<Seq<char>>, default: Seq<char>) -> Seq<char> {
    match o {
        Some(s) => s,
        None => default,
    }
}

/// Whether `y` is a leap year of the Gregorian calendar.
pub open spec fn is_leap_year(y: int) -> bool {
    (y % 4 == 0 && y % 100 != 0) || y % 400 == 0
}

/// The number of days of year `y`.
pub open spec fn days_in_year(y: int) -> int {
    if is_leap_year(y) {
        366
    } else {
        365
    }
}

/// The number of days of month `m` (1 to 12) of year `y`.
pub open spec fn days_in_month(y: int, m: int) -> int {
    if m == 2 {
        if is_leap_year(y) {
            29
        } else {
            28
        }
    } else if m == 4 || m == 6 || m == 9 || m == 11 {
        30
    } else {
        31
    }
}

/// The days from 1970-01-01 to the first day of year `y` (from 1970 on).
pub open spec fn days_before_year(y: int) -> int
    decreases y - 1970,
{
    if y <= 1970 {
        0
    } else {
        days_before_year(y - 1) + days_in_year(y - 1)
    }
}

/// The days from the first day of year `y` to the first day of month `m`.
pub open spec fn days_before_month(y: int, m: int) -> int
    decreases m,
{
    if m <= 1 {
        0
    } else {
        days_before_month(y, m - 1) + days_in_month(y, m - 1)
    }
}

/// The UNIX timestamp of midnight UTC of a date written `YYYYMMDD` (as
/// yt-dlp writes `upload_date`): none unless the text is eight decimal
/// digits naming a valid date from 1970-01-01 on.
pub open spec fn upload_date_seconds(text: Seq<char>) -> Option<u64> {
    if text.len() == 8 && (forall|i: int| 0 <= i < 8 ==> is_ascii_digit(#[trigger] text[i])) {
        let y = digits_value(text.subrange(0, 4)) as int;
        let m = digits_value(text.subrange(4, 6)) as int;
        let d = digits_value(text.subrange(6, 8)) as int;
        if y >= 1970 && 1 <= m <= 12 && 1 <= d <= days_in_month(y, m) {
            Some(((days_before_year(y) + days_before_month(y, m) + d - 1) * 86400) as u64)
        } else {
            None
        }
    } else {
        None
    }
}

/// The media item that `val` maps to, or none when it has no id.
#[verifier::opaque]
pub open spec fn map_item_spec(val: Json, m: ItemMapping, target: Seq<char>) -> Option<ItemModel> {
    match query_string_spec(val, m.id@) {
        None => None,
        Some(id) => Some(
            ItemModel {
                id,
                title: or_else(query_string_spec(val, m.title@), "Untitled Episode"@),
                description: query_optional_spec(val, m.description),
                pub_date: match query_number_spec(val, m.pub_date@) {
                    Some(d) => d,
                    None => match query_string_spec(val, "$.upload_date"@) {
                        Some(text) => match upload_date_seconds(text) {
                            Some(s) => s,
                            None => 0,
                        },
                        None => 0,
                    },
                },
                duration: match m.duration {
                    Some(p) => match query_number_spec(val, p@) {
                        Some(d) => Some(d as u32),
                        None => None,
                    },
                    None => None,
                },
                original_url: or_else(query_string_spec(val, m.original_url@), target),
                thumbnail_url: query_optional_spec(val, m.thumbnail_url),
            },
        ),
    }
}

/// The media items of `vals`, in order, leaving out the values without id.
pub open spec fn map_items_spec(vals: Seq<Json>, m: ItemMapping, target: Seq<char>) -> Seq<ItemModel>
    decreases vals.len(),
{
    if vals.len() == 0 {
        seq![]
    } else {
        let rest = map_items_spec(vals.drop_last(), m, target);
        match map_item_spec(vals.last(), m, target) {
            Some(item) => rest.push(item),
            None => rest,
        }
    }
}

/// The message for a feed field that is required and could not be resolved.
pub open spec fn missing_id_message(path: Seq<char>) -> Seq<char> {
    "MappingError: Failed to resolve feed 'id' using path '"@ + path + "'"@
}

/// The message for a missing feed title.
pub open spec fn missing_title_message(path: Seq<char>) -> Seq<char> {
    "MappingError: Failed to resolve feed 'title' using path '"@ + path + "'"@
}

/// The feed that a provider answer maps to: the feed id and title are
/// required; the link falls back to the client's URL; the items are those
/// of the array at `items_path` that have an id (none when there is no
/// such array).
pub open spec fn map_feed_spec(raw: Json, provider: ProviderManifest, target: Seq<char>) -> Result<FeedModel, Seq<char>> {
    let doc = unpack_spec(provider.response_mapping.unpack_field.deep_view(), raw);
    let fm = provider.response_mapping.feed;
    match query_string_spec(doc, fm.id@) {
        None => Err(missing_id_message(fm.id@)),
        Some(id) => match query_string_spec(doc, fm.title@) {
            None => Err(missing_title_message(fm.title@)),
            Some(title) => Ok(
                FeedModel {
                    id,
                    title,
                    description: query_optional_spec(doc, fm.description),
                    author: query_optional_spec(doc, fm.author),
                    link: or_else(query_string_spec(doc, fm.link@), target),
                    cover_url: query_optional_spec(doc, fm.cover_url),
                    items: match query_array_spec(doc, fm.items_path@) {
                        Some(vals) => map_items_spec(vals, provider.response_mapping.item, target),
                        None => seq![],
                    },
                },
            ),
        },
    }
}

/// The stream URL that a provider answer maps to: the unpacked document
/// when it is a string, else the text at `$.url`, else the text at
/// `$.entries[0].url`.
pub open spec fn map_stream_spec(raw: Json, provider: ProviderManifest) -> Result<Seq<char>, Seq<char>> {
    let doc = unpack_spec(provider.response_mapping.unpack_field.deep_view(), raw);
    match doc {
        Json::String(s) => Ok(s),
        _ => match query_string_spec(doc, "$.url"@) {
            Some(url) => Ok(url),
            None => match query_string_spec(doc, "$.entries[0].url"@) {
                Some(url) => Ok(url),
                None => Err(
                    "MappingError: Could not extract stream URL from JSON structure: "@ + json_debug_text(doc),
                ),
            },
        },
    }
}

/// The text of the node that `path` selects first in `doc`: a string as it
/// is written, a number or a boolean as it is displayed; none when nothing
/// is selected or the node is `null`, an array or an object.
pub open spec fn selected_text(path: Seq<char>, doc: Json) -> Option<Seq<char>> {
    match json_path_first(path, doc) {
        Some(Json::String(s)) => Some(s),
        Some(Json::Number(n)) => Some(number_text(n)),
        Some(Json::Bool(b)) => Some(bool_text(b)),
        _ => None,
    }
}

/// The text selected by an optional path; none when there is no path.
pub open spec fn optional_selected_text(path: Option<String>, doc: Json) -> Option<Seq<char>> {
    match path {
        Some(p) => selected_text(p@, doc),
        None => None,
    }
}

/// An item value is mapped exactly when its id path selects a scalar. The
/// item's id, description and thumbnail are the texts that their paths
/// select in the value; its title is the text at the title path, else
/// "Untitled Episode"; its link the text at the link path, else the
/// client's URL; an integer at the date path is its publication date.
pub proof fn lemma_item_fields(val: Json, m: ItemMapping, target: Seq<char>)
    ensures
        map_item_spec(val, m, target) is Some <==> selected_text(m.id@, val) is Some,
        map_item_spec(val, m, target) matches Some(item) ==> {
            &&& selected_text(m.id@, val) == Some(item.id)
            &&& item.title == match selected_text(m.title@, val) {
                Some(t) => t,
                None => "Untitled Episode"@,
            }
            &&& item.description == optional_selected_text(m.description, val)
            &&& item.thumbnail_url == optional_selected_text(m.thumbnail_url, val)
            &&& item.original_url == match selected_text(m.original_url@, val) {
                Some(u) => u,
                None => target,
            }
            &&& (json_path_first(m.pub_date@, val) matches Some(Json::Number(NumberModel::PosInt(n)))
                ==> item.pub_date == n)
        },
{
    reveal(map_item_spec);
}

/// The items mapped from a sequence of item values are the items of those
/// values that are mapped, in order: each item comes from a value at or
/// after the one the previous item came from, and every value that is
/// mapped gives an item.
pub proof fn lemma_items_from_values(vals: Seq<Json>, m: ItemMapping, target: Seq<char>)
    ensures
        forall|k: int|
            #![trigger map_items_spec(vals, m, target)[k]]
            0 <= k < map_items_spec(vals, m, target).len() ==> exists|j: int|
                0 <= j < vals.len() && #[trigger] map_item_spec(vals[j], m, target) == Some(
                    map_items_spec(vals, m, target)[k],
                ),
        forall|j: int|
            0 <= j < vals.len() && (#[trigger] map_item_spec(vals[j], m, target)) is Some ==> exists|k: int|
                0 <= k < map_items_spec(vals, m, target).len() && Some(map_items_spec(vals, m, target)[k])
                    == map_item_spec(vals[j], m, target),
        map_items_spec(vals, m, target).len() <= vals.len(),
    decreases vals.len(),
{
    if vals.len() > 0 {
        let init = vals.drop_last();
        lemma_items_from_values(init, m, target);
        let rest = map_items_spec(init, m, target);
        let all = map_items_spec(vals, m, target);
        assert forall|k: int| #![trigger all[k]] 0 <= k < all.len() implies exists|j: int|
            0 <= j < vals.len() && #[trigger] map_item_spec(vals[j], m, target) == Some(all[k]) by {
            if k < rest.len() {
                let j = choose|j: int| 0 <= j < init.len() && #[trigger] map_item_spec(init[j], m, target) == Some(rest[k]);
                assert(vals[j] == init[j]);
                assert(all[k] == rest[k]);
            } else {
                assert(map_item_spec(vals[vals.len() - 1], m, target) == Some(all[k]));
            }
        }
        assert forall|j: int| 0 <= j < vals.len() && (#[trigger] map_item_spec(vals[j], m, target)) is Some implies exists|k: int|
            0 <= k < all.len() && Some(all[k]) == map_item_spec(vals[j], m, target) by {
            if j < init.len() {
                assert(vals[j] == init[j]);
                assert(map_item_spec(init[j], m, target) is Some);
                let k = choose|k: int| 0 <= k < rest.len() && Some(rest[k]) == map_item_spec(init[j], m, target);
                assert(all[k] == rest[k]);
            } else {
                assert(all[all.len() - 1] == map_item_spec(vals.last(), m, target)->Some_0);
            }
        }
    }
}

/// A provider answer maps to a feed exactly when the feed's id and title
/// paths select scalars in the unpacked document. The feed's id, title,
/// description, author and cover are the texts that their paths select;
/// its link the text at the link path, else the client's URL; and each of
/// its items is the item of a value of the array at the items path.
pub proof fn lemma_feed_fields(raw: Json, provider: ProviderManifest, target: Seq<char>)
    ensures
        ({
            let doc = unpack_spec(provider.response_mapping.unpack_field.deep_view(), raw);
            let fm = provider.response_mapping.feed;
            &&& map_feed_spec(raw, provider, target) is Ok <==> (selected_text(fm.id@, doc) is Some && selected_text(
                fm.title@,
                doc,
            ) is Some)
            &&& map_feed_spec(raw, provider, target) matches Ok(f) ==> {
                &&& selected_text(fm.id@, doc) == Some(f.id)
                &&& selected_text(fm.title@, doc) == Some(f.title)
                &&& f.description == optional_selected_text(fm.description, doc)
                &&& f.author == optional_selected_text(fm.author, doc)
                &&& f.cover_url == optional_selected_text(fm.cover_url, doc)
                &&& f.link == match selected_text(fm.link@, doc) {
                    Some(l) => l,
                    None => target,
                }
                &&& forall|k: int|
                    #![trigger f.items[k]]
                    0 <= k < f.items.len() ==> (json_path_first(fm.items_path@, doc) matches Some(Json::Array(vals))
                        && exists|j: int|
                        0 <= j < vals.len() && #[trigger] map_item_spec(vals[j], provider.response_mapping.item, target)
                            == Some(f.items[k]))
            }
        }),
{
    let doc = unpack_spec(provider.response_mapping.unpack_field.deep_view(), raw);
    let fm = provider.response_mapping.feed;
    if let Some(Json::Array(vals)) = json_path_first(fm.items_path@, doc) {
        lemma_items_from_values(vals, provider.response_mapping.item, target);
    }
}

fn bool_to_text(b: bool) -> (s: String)
    ensures
        s@ == bool_text(b),
{
    if b {
        "true".to_owned()
    } else {
        "false".to_owned()
    }
}

fn number_to_text(n: &JsonNumber) -> (s: String)
    ensures
        s@ == number_text(n@),
{
    match n {
        JsonNumber::PosInt(u) => u64_to_decimal(*u),
        JsonNumber::NegInt(i) => i64_to_decimal(*i),
        JsonNumber::Float(t) => t.clone(),
    }
}

fn number_to_u64(n: &JsonNumber) -> (r: Option<u64>)
    ensures
        r == number_as_u64(n@),
{
    match n {
        JsonNumber::PosInt(u) => Some(*u),
        JsonNumber::NegInt(i) => if *i >= 0 {
            Some(*i as u64)
        } else {
            None
        },
        JsonNumber::Float(_) => None,
    }
}

fn query_string(json: &JsonValue, path: &str) -> (r: Option<String>)
    ensures
        r.deep_view() == query_string_spec(json@, path@),
{
    match query_first(json, path) {
        Some(JsonValue::String(s)) => Some(s),
        Some(JsonValue::Number(n)) => Some(number_to_text(&n)),
        Some(JsonValue::Bool(b)) => Some(bool_to_text(b)),
        _ => None,
    }
}

fn query_number(json: &JsonValue, path: &str) -> (r: Option<u64>)
    ensures
        r == query_number_spec(json@, path@),
{
    match query_first(json, path) {
        Some(JsonValue::Number(n)) => number_to_u64(&n),
        Some(JsonValue::String(s)) => parse_u64(s.as_str()),
        _ => None,
    }
}

fn query_array(json: &JsonValue, path: &str) -> (r: Option<Vec<JsonValue>>)
    ensures
        match r {
            Some(items) => query_array_spec(json@, path@) == Some(
                Seq::new(items@.len(), |i: int| items@[i]@),
            ),
            None => query_array_spec(json@, path@) is None,
        },
{
    match query_first(json, path) {
        Some(JsonValue::Array(items)) => {
            proof {
                let model = JsonValue::Array(items)@;
                let expected = Seq::new(items@.len(), |i: int| items@[i]@);
                assert(model->Array_0.len() == expected.len());
                assert forall|i: int| 0 <= i < expected.len() implies model->Array_0[i] == expected[i] by {}
                assert(model->Array_0 =~= expected);
            }
            Some(items)
        },
        _ => None,
    }
}

fn query_optional(json: &JsonValue, path: &Option<String>) -> (r: Option<String>)
    ensures
        r.deep_view() == query_optional_spec(json@, *path),
{
    match path {
        Some(p) => query_string(json, p.as_str()),
        None => None,
    }
}

fn is_leap(y: u64) -> (b: bool)
    ensures
        b == is_leap_year(y as int),
{
    (y % 4 == 0 && y % 100 != 0) || y % 400 == 0
}

fn month_days(y: u64, m: u64) -> (d: u64)
    ensures
        d == days_in_month(y as int, m as int),
{
    if m == 2 {
        if is_leap(y) {
            29
        } else {
            28
        }
    } else if m == 4 || m == 6 || m == 9 || m == 11 {
        30
    } else {
        31
    }
}

fn digit_value(c: char) -> (d: u64)
    requires
        is_ascii_digit(c),
    ensures
        d == c as int - 48,
{
    (c as u32 - 48) as u64
}

/// The UNIX timestamp of midnight UTC of a `YYYYMMDD` date.
pub fn upload_date_to_seconds(text: &str) -> (r: Option<u64>)
    ensures
        r == upload_date_seconds(text@),
{
    let v = chars_of(text);
    if v.len() != 8 {
        return None;
    }
    let mut k: usize = 0;
    while k < 8
        invariant
            k <= 8,
            v@.len() == 8,
            v@ == text@,
            forall|i: int| 0 <= i < k ==> is_ascii_digit(#[trigger] v@[i]),
        decreases 8 - k,
    {
        if !('0' <= v[k] && v[k] <= '9') {
            assert(!is_ascii_digit(text@[k as int]));
            assert(!(forall|i: int| 0 <= i < 8 ==> is_ascii_digit(#[trigger] text@[i])));
            return None;
        }
        k = k + 1;
    }
    let ghost t = text@;
    proof {
        reveal_with_fuel(digits_value, 5);
        assert(t.subrange(0, 4).drop_last().drop_last().drop_last().drop_last() =~= Seq::<char>::empty());
        assert(t.subrange(0, 4).drop_last().drop_last().drop_last() =~= t.subrange(0, 1));
        assert(t.subrange(0, 4).drop_last().drop_last() =~= t.subrange(0, 2));
        assert(t.subrange(0, 4).drop_last() =~= t.subrange(0, 3));
        assert(t.subrange(4, 6).drop_last().drop_last() =~= Seq::<char>::empty());
        assert(t.subrange(4, 6).drop_last() =~= t.subrange(4, 5));
        assert(t.subrange(6, 8).drop_last().drop_last() =~= Seq::<char>::empty());
        assert(t.subrange(6, 8).drop_last() =~= t.subrange(6, 7));
    }
    let y = digit_value(v[0]) * 1000 + digit_value(v[1]) * 100 + digit_value(v[2]) * 10 + digit_value(v[3]);
    let m = digit_value(v[4]) * 10 + digit_value(v[5]);
    let d = digit_value(v[6]) * 10 + digit_value(v[7]);
    assert(y == digits_value(t.subrange(0, 4)));
    assert(m == digits_value(t.subrange(4, 6)));
    assert(d == digits_value(t.subrange(6, 8)));
    if !(y >= 1970 && 1 <= m && m <= 12 && 1 <= d && d <= month_days(y, m)) {
        return None;
    }
    let mut days: u64 = 0;
    let mut year: u64 = 1970;
    while year < y
        invariant
            1970 <= year <= y <= 9999,
            days == days_before_year(year as int),
            days <= 366 * (year - 1970),
        decreases y - year,
    {
        days = days + if is_leap(year) {
            366
        } else {
            365
        };
        year = year + 1;
    }
    let mut month: u64 = 1;
    while month < m
        invariant
            1 <= month <= m <= 12,
            year == y,
            1970 <= y <= 9999,
            days == days_before_year(y as int) + days_before_month(y as int, month as int),
            days <= 366 * (y - 1970) + 31 * (month - 1),
        decreases m - month,
    {
        days = days + month_days(y, month);
        month = month + 1;
    }
    Some((days + d - 1) * 86400)
}

fn text_or(o: Option<String>, default: &str) -> (s: String)
    ensures
        s@ == or_else(o.deep_view(), default@),
{
    match o {
        Some(s) => s,
        None => default.to_owned(),
    }
}

fn unpack_response(provider: &ProviderManifest, raw_json: JsonValue) -> (r: JsonValue)
    ensures
        r@ == unpack_spec(provider.response_mapping.unpack_field.deep_view(), raw_json@),
{
    match &provider.response_mapping.unpack_field {
        Some(path) => match query_string(&raw_json, path.as_str()) {
            Some(text) => match parse_json(text.as_str()) {
                Some(doc) => doc,
                None => JsonValue::String(trimmed(text.as_str())),
            },
            None => raw_json,
        },
        None => raw_json,
    }
}

fn map_item(val: &JsonValue, m: &ItemMapping, target_url: &str) -> (r: Option<MediaItem>)
    ensures
        match r {
            Some(item) => map_item_spec(val@, *m, target_url@) == Some(item@),
            None => map_item_spec(val@, *m, target_url@) is None,
        },
{
    proof {
        reveal(map_item_spec);
    }
    match query_string(val, m.id.as_str()) {
        None => None,
        Some(id) => {
            let title = text_or(query_string(val, m.title.as_str()), "Untitled Episode");
            let description = query_optional(val, &m.description);
            let pub_date = match query_number(val, m.pub_date.as_str()) {
                Some(d) => d,
                None => match query_string(val, "$.upload_date") {
                    Some(text) => match upload_date_to_seconds(text.as_str()) {
                        Some(s) => s,
                        None => 0,
                    },
                    None => 0,
                },
            };
            let duration = match &m.duration {
                Some(p) => match query_number(val, p.as_str()) {
                    Some(d) => Some(d as u32),
                    None => None,
                },
                None => None,
            };
            let original_url = text_or(query_string(val, m.original_url.as_str()), target_url);
            let thumbnail_url = query_optional(val, &m.thumbnail_url);
            Some(MediaItem { id, title, description, pub_date, duration, original_url, thumbnail_url })
        },
    }
}

fn map_items(vals: &Vec<JsonValue>, m: &ItemMapping, target_url: &str) -> (r: Vec<MediaItem>)
    ensures
        r@.map_values(|i: MediaItem| i@) == map_items_spec(
            Seq::new(vals@.len(), |i: int| vals@[i]@),
            *m,
            target_url@,
        ),
{
    let ghost models = Seq::new(vals@.len(), |i: int| vals@[i]@);
    let mut items: Vec<MediaItem> = Vec::new();
    let mut i: usize = 0;
    assert(models.take(0) =~= Seq::<Json>::empty());
    while i < vals.len()
        invariant
            i <= vals@.len() == models.len(),
            models == Seq::new(vals@.len(), |i: int| vals@[i]@),
            items@.map_values(|i: MediaItem| i@) == map_items_spec(models.take(i as int), *m, target_url@),
        decreases vals@.len() - i,
    {
        let ghost before = items@;
        assert(models.take(i + 1).drop_last() =~= models.take(i as int));
        assert(models.take(i + 1).last() == vals@[i as int]@);
        match map_item(&vals[i], m, target_url) {
            Some(item) => {
                items.push(item);
                assert(items@.map_values(|i: MediaItem| i@) =~= before.map_values(|i: MediaItem| i@).push(item@));
            },
            None => {},
        }
        i = i + 1;
    }
    assert(models.take(vals@.len() as int) =~= models);
    items
}

/// Maps a provider's answer to `fetch_feed` onto a media feed.
pub fn map_feed(raw_json: JsonValue, provider: &ProviderManifest, target_url: &str) -> (r: Result<MediaFeed, String>)
    ensures
        match r {
            Ok(feed) => map_feed_spec(raw_json@, *provider, target_url@) == Ok::<FeedModel, Seq<char>>(feed@),
            Err(e) => map_feed_spec(raw_json@, *provider, target_url@) == Err::<FeedModel, Seq<char>>(e@),
        },
{
    let doc = unpack_response(provider, raw_json);
    let fm = &provider.response_mapping.feed;
    let id = match query_string(&doc, fm.id.as_str()) {
        Some(id) => id,
        None => {
            let mut message = "MappingError: Failed to resolve feed 'id' using path '".to_owned();
            message.append(fm.id.as_str());
            message.append("'");
            return Err(message);
        },
    };
    let title = match query_string(&doc, fm.title.as_str()) {
        Some(title) => title,
        None => {
            let mut message = "MappingError: Failed to resolve feed 'title' using path '".to_owned();
            message.append(fm.title.as_str());
            message.append("'");
            return Err(message);
        },
    };
    let description = query_optional(&doc, &fm.description);
    let author = query_optional(&doc, &fm.author);
    let link = text_or(query_string(&doc, fm.link.as_str()), target_url);
    let cover_url = query_optional(&doc, &fm.cover_url);
    let items = match query_array(&doc, fm.items_path.as_str()) {
        Some(vals) => map_items(&vals, &provider.response_mapping.item, target_url),
        None => Vec::new(),
    };
    let feed = MediaFeed { id, title, description, author, link, cover_url, items };
    proof {
        if query_array_spec(doc@, fm.items_path@) is None {
            assert(feed@.items =~= Seq::<ItemModel>::empty());
        }
    }
    Ok(feed)
}

/// Maps a provider's answer to `resolve_stream` onto a stream URL.
pub fn map_stream(raw_json: JsonValue, provider: &ProviderManifest) -> (r: Result<String, String>)
    ensures
        match r {
            Ok(url) => map_stream_spec(raw_json@, *provider) == Ok::<Seq<char>, Seq<char>>(url@),
            Err(e) => map_stream_spec(raw_json@, *provider) == Err::<Seq<char>, Seq<char>>(e@),
        },
{
    let doc = unpack_response(provider, raw_json);
    match doc {
        JsonValue::String(s) => Ok(s),
        other => {
            if let Some(url) = query_string(&other, "$.url") {
                Ok(url)
            } else if let Some(url) = query_string(&other, "$.entries[0].url") {
                Ok(url)
            } else {
                let mut message = "MappingError: Could not extract stream URL from JSON structure: ".to_owned();
                message.append(debug_text(&other).as_str());
                Err(message)
            }
        },
    }
}

} // verus!
