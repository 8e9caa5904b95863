//! The manifest rules: which media types are read, when a manifest is
//! valid, the magic keyword, the valid orders and the reply.

use vstd::prelude::*;
use vstd::string::StringExecFns;
use crate::float_literal::{is_float_literal, is_float_literal_str};
use crate::formats::{
    cargo_manifest_accepts, json_document, json_from_str, manifest_from_slice, toml_document,
    toml_from_str, yaml_document, yaml_from_str,
};
use crate::text::{
    ascii_lower_seq, ascii_lowercase, decimal, digits_value, eq_ascii_lowercased, lemma_ascii_lower_idempotent, lemma_decimal_reads_back,
    push_char, push_decimal, str_eq,
};
use crate::value::UnifiedValue;

verus! {

/// The format a manifest is written in, by its media type.
#[derive(Clone, Copy, Debug, PartialEq, Eq)]
pub enum Format {
    Toml,
    Json,
    Yaml,
}

/// The format that a media type names exactly: `application/toml`,
/// `application/json` or `application/yaml`, in small letters; `None` for
/// any other text.
pub open spec fn spec_exact_format(media_type: Seq<char>) -> Option<Format> {
    if media_type == "application/toml"@ {
        Some(Format::Toml)
    } else if media_type == "application/json"@ {
        Some(Format::Json)
    } else if media_type == "application/yaml"@ {
        Some(Format::Yaml)
    } else {
        None
    }
}

/// The format named by a `Content-Type` header once its ASCII capitals
/// are made small.
pub open spec fn spec_format_of(content_type: Seq<char>) -> Option<Format> {
    spec_exact_format(ascii_lower_seq(content_type))
}

/// The format that `media_type` names exactly (case matters).
pub fn exact_format(media_type: &str) -> (format: Option<Format>)
    ensures
        format == spec_exact_format(media_type@),
{
    if str_eq(media_type, "application/toml") {
        Some(Format::Toml)
    } else if str_eq(media_type, "application/json") {
        Some(Format::Json)
    } else if str_eq(media_type, "application/yaml") {
        Some(Format::Yaml)
    } else {
        None
    }
}

/// The format named by a `Content-Type` header, compared without regard
/// to the case of ASCII letters.
pub fn format_of(content_type: &str) -> (format: Option<Format>)
    ensures
        format == spec_format_of(content_type@),
{
    if eq_ascii_lowercased(content_type, "application/toml") {
        Some(Format::Toml)
    } else if eq_ascii_lowercased(content_type, "application/json") {
        Some(Format::Json)
    } else if eq_ascii_lowercased(content_type, "application/yaml") {
        Some(Format::Yaml)
    } else {
        None
    }
}

/// `package.name` is a string.
pub open spec fn spec_is_valid_package(value: UnifiedValue) -> bool {
    match value.spec_index("package"@) {
        Some(package) => match package.spec_index("name"@) {
            Some(name) => name.spec_as_str() is Some,
            None => false,
        },
        None => false,
    }
}

/// The minimal check of a JSON or YAML manifest: `package.name` is a string.
pub fn is_valid_package(value: &UnifiedValue) -> (valid: bool)
    ensures
        valid == spec_is_valid_package(*value),
{
    match value.get("package") {
        Some(package) => match package.get("name") {
            Some(name) => name.as_str().is_some(),
            None => false,
        },
        None => false,
    }
}

/// The top-level check of a manifest: a TOML body must be a `Cargo.toml`
/// that `cargo_manifest` accepts; a JSON or YAML body must parse and have a
/// string `package.name`.
pub open spec fn spec_top_level_ok(format: Format, body: Seq<char>) -> bool {
    match format {
        Format::Toml => cargo_manifest_accepts(vstd::utf8::encode_utf8(body)),
        Format::Json => match json_document(body) {
            Some(value) => spec_is_valid_package(value),
            None => false,
        },
        Format::Yaml => match yaml_document(body) {
            Some(value) => spec_is_valid_package(value),
            None => false,
        },
    }
}

/// Whether `body` passes the top-level check for `format`.
pub fn top_level_ok(format: Format, body: &str) -> (ok: bool)
    ensures
        ok == spec_top_level_ok(format, body@),
        format is Toml ==> ok == cargo_manifest_accepts(vstd::utf8::encode_utf8(body@)),
{
    proof {
        lemma_toml_check_is_cargo_manifest(body@);
    }
    match format {
        Format::Toml => manifest_from_slice(body.as_bytes()).is_ok(),
        Format::Json => match json_from_str(body) {
            Ok(value) => is_valid_package(&value),
            Err(_) => false,
        },
        Format::Yaml => match yaml_from_str(body) {
            Ok(value) => is_valid_package(&value),
            Err(_) => false,
        },
    }
}

/// A parsed document as a `Result`.
pub open spec fn parsed_or_err(document: Option<UnifiedValue>) -> Result<UnifiedValue, ()> {
    match document {
        Some(value) => Ok(value),
        None => Err(()),
    }
}

/// The document `body` holds, read in the format that `content_type` names
/// exactly (case matters).
pub open spec fn spec_parse_as_unified_value(body: Seq<char>, content_type: Seq<char>) -> Result<
    UnifiedValue,
    (),
> {
    match spec_exact_format(content_type) {
        Some(Format::Toml) => parsed_or_err(toml_document(body)),
        Some(Format::Json) => parsed_or_err(json_document(body)),
        Some(Format::Yaml) => parsed_or_err(yaml_document(body)),
        None => Err(()),
    }
}

/// Parses `body` as TOML, JSON or YAML, as `content_type` says; `Err` when
/// it does not parse or `content_type` is not exactly one of the three
/// small-letter media types.
pub fn parse_as_unified_value(body: &str, content_type: &str) -> (parsed: Result<UnifiedValue, ()>)
    ensures
        parsed == spec_parse_as_unified_value(body@, content_type@),
{
    match exact_format(content_type) {
        Some(Format::Toml) => match toml_from_str(body) {
            Ok(value) => Ok(value),
            Err(_) => Err(()),
        },
        Some(Format::Json) => match json_from_str(body) {
            Ok(value) => Ok(value),
            Err(_) => Err(()),
        },
        Some(Format::Yaml) => match yaml_from_str(body) {
            Ok(value) => Ok(value),
            Err(_) => Err(()),
        },
        None => Err(()),
    }
}

/// `package.rust-version` is absent, or present and a string that reads
/// as an `f64`.
pub open spec fn spec_has_valid_rust_version(value: UnifiedValue) -> bool {
    match value.spec_index("package"@) {
        None => true,
        Some(package) => match package.spec_index("rust-version"@) {
            None => true,
            Some(version) => match version.spec_as_str() {
                Some(s) => is_float_literal(s),
                None => false,
            },
        },
    }
}

/// Whether the manifest's `rust-version`, if it has one, is valid.
pub fn has_valid_rust_version(value: &UnifiedValue) -> (valid: bool)
    ensures
        valid == spec_has_valid_rust_version(*value),
{
    match value.get("package") {
        None => true,
        Some(package) => match package.get("rust-version") {
            None => true,
            Some(version) => match version.as_str() {
                Some(s) => is_float_literal_str(s),
                None => false,
            },
        },
    }
}

/// `package.keywords` is an array with the string `Christmas 2024` in it.
pub open spec fn spec_contains_magic_keyword(value: UnifiedValue) -> bool {
    match value.spec_get_path(seq!["package"@, "keywords"@]) {
        Some(keywords) => match keywords.spec_as_array() {
            Some(items) => exists|i: int|
                0 <= i < items.len() && #[trigger] items[i].spec_as_str() == Some(
                    "Christmas 2024"@,
                ),
            None => false,
        },
        None => false,
    }
}

/// Whether the manifest lists the magic keyword.
pub fn contains_magic_keyword(value: &UnifiedValue) -> (found: bool)
    ensures
        found == spec_contains_magic_keyword(*value),
{
    let path: [&str; 2] = ["package", "keywords"];
    assert(path@.map_values(|k: &str| k@) =~= seq!["package"@, "keywords"@]);
    let keywords = match value.get_path(&path) {
        Some(keywords) => keywords,
        None => return false,
    };
    let items = match keywords.as_array() {
        Some(items) => items,
        None => return false,
    };
    let n = items.len();
    assert(spec_contains_magic_keyword(*value) == exists|j: int|
        0 <= j < items@.len() && #[trigger] items@[j].spec_as_str() == Some("Christmas 2024"@));
    for i in 0..n
        invariant
            n == items@.len(),
            spec_contains_magic_keyword(*value) == exists|j: int|
                0 <= j < items@.len() && #[trigger] items@[j].spec_as_str() == Some("Christmas 2024"@),
            forall|j: int|
                0 <= j < i ==> #[trigger] items@[j].spec_as_str() != Some("Christmas 2024"@),
    {
        match items[i].as_str() {
            Some(s) => {
                if str_eq(s, "Christmas 2024") {
                    return true;
                }
            },
            None => {},
        }
    }
    false
}

/// An order with a string item and a quantity that fits in a `u32`.
pub struct ValidOrder {
    pub item: String,
    pub quantity: u32,
}

impl View for ValidOrder {
    type V = (Seq<char>, u32);

    open spec fn view(&self) -> (Seq<char>, u32) {
        (self.item@, self.quantity)
    }
}

/// The orders' views.
pub open spec fn order_views(orders: Seq<ValidOrder>) -> Seq<(Seq<char>, u32)> {
    orders.map_values(|o: ValidOrder| o@)
}

/// The order an entry of `package.metadata.orders` makes: its `item` is a
/// string and its `quantity` an integer in `0..=u32::MAX`.
pub open spec fn spec_order_of(entry: UnifiedValue) -> Option<(Seq<char>, u32)> {
    let item = match entry.spec_get_path(seq!["item"@]) {
        Some(v) => v.spec_as_str(),
        None => None,
    };
    let quantity = match entry.spec_get_path(seq!["quantity"@]) {
        Some(v) => v.spec_as_u32(),
        None => None,
    };
    match (item, quantity) {
        (Some(i), Some(q)) => Some((i, q)),
        _ => None,
    }
}

/// The orders that `entries` make, in order, skipping the invalid ones.
pub open spec fn spec_orders_of(entries: Seq<UnifiedValue>) -> Seq<(Seq<char>, u32)>
    decreases entries.len(),
{
    if entries.len() == 0 {
        seq![]
    } else {
        let before = spec_orders_of(entries.drop_last());
        match spec_order_of(entries.last()) {
            Some(order) => before.push(order),
            None => before,
        }
    }
}

/// The valid orders of `package.metadata.orders`; none when it is not an
/// array.
pub open spec fn spec_valid_orders(value: UnifiedValue) -> Seq<(Seq<char>, u32)> {
    match value.spec_get_path(seq!["package"@, "metadata"@, "orders"@]) {
        Some(orders) => match orders.spec_as_array() {
            Some(entries) => spec_orders_of(entries),
            None => seq![],
        },
        None => seq![],
    }
}

/// The order `entry` makes, if it is valid.
fn order_of(entry: &UnifiedValue) -> (order: Option<ValidOrder>)
    ensures
        match order {
            Some(o) => spec_order_of(*entry) == Some(o@),
            None => spec_order_of(*entry) is None,
        },
{
    let item_path: [&str; 1] = ["item"];
    let quantity_path: [&str; 1] = ["quantity"];
    assert(item_path@.map_values(|k: &str| k@) =~= seq!["item"@]);
    assert(quantity_path@.map_values(|k: &str| k@) =~= seq!["quantity"@]);
    let item = match entry.get_path(&item_path) {
        Some(v) => v.as_str(),
        None => None,
    };
    let quantity = match entry.get_path(&quantity_path) {
        Some(v) => v.as_u32(),
        None => None,
    };
    match (item, quantity) {
        (Some(i), Some(q)) => Some(ValidOrder { item: i.to_owned(), quantity: q }),
        _ => None,
    }
}

/// The valid orders of the manifest, in the order they are listed; an
/// entry whose item or quantity is missing or invalid is left out.
pub fn extract_valid_orders(value: &UnifiedValue) -> (orders: Vec<ValidOrder>)
    ensures
        order_views(orders@) == spec_valid_orders(*value),
{
    let path: [&str; 3] = ["package", "metadata", "orders"];
    assert(path@.map_values(|k: &str| k@) =~= seq!["package"@, "metadata"@, "orders"@]);
    let mut out: Vec<ValidOrder> = Vec::new();
    let entries = match value.get_path(&path) {
        Some(orders) => match orders.as_array() {
            Some(entries) => entries,
            None => return out,
        },
        None => return out,
    };
    let n = entries.len();
    assert(order_views(out@) =~= seq![]);
    for i in 0..n
        invariant
            n == entries@.len(),
            order_views(out@) == spec_orders_of(entries@.take(i as int)),
    {
        assert(entries@.take(i + 1).drop_last() == entries@.take(i as int));
        assert(entries@.take(i + 1).last() == entries@[i as int]);
        match order_of(&entries[i]) {
            Some(order) => {
                out.push(order);
                assert(order_views(out@) =~= spec_orders_of(entries@.take(i + 1)));
            },
            None => {},
        }
    }
    assert(entries@.take(n as int) == entries@);
    out
}

/// One line of the reply: `item: quantity`.
pub open spec fn order_line(order: (Seq<char>, u32)) -> Seq<char> {
    order.0 + seq![':', ' '] + decimal(order.1 as nat)
}

/// The lines of `orders`, joined by newlines.
pub open spec fn orders_text(orders: Seq<(Seq<char>, u32)>) -> Seq<char>
    decreases orders.len(),
{
    if orders.len() == 0 {
        seq![]
    } else if orders.len() == 1 {
        order_line(orders[0])
    } else {
        orders_text(orders.drop_last()) + seq!['\n'] + order_line(orders.last())
    }
}

/// The reply listing `orders`: one `item: quantity` line per order,
/// separated by newlines, with no newline at the end.
pub fn orders_to_string(orders: &[ValidOrder]) -> (text: String)
    ensures
        text@ == orders_text(order_views(orders@)),
{
    let ghost views = order_views(orders@);
    let mut text = String::new();
    let n = orders.len();
    for i in 0..n
        invariant
            n == orders@.len(),
            views == order_views(orders@),
            text@ == orders_text(views.take(i as int)),
    {
        let ghost before = text@;
        assert(views.take(i + 1).drop_last() == views.take(i as int));
        assert(views.take(i + 1).last() == orders@[i as int]@);
        if i != 0 {
            push_char(&mut text, '\n');
        }
        text.append(orders[i].item.as_str());
        push_char(&mut text, ':');
        push_char(&mut text, ' ');
        push_decimal(&mut text, orders[i].quantity);
        if i == 0 {
            assert(text@ =~= order_line(views[0]));
            assert(views.take(1) =~= seq![views[0]]);
        } else {
            assert(text@ =~= before + seq!['\n'] + order_line(views[i as int]));
        }
    }
    assert(views.take(n as int) == views);
    text
}

/// The reply to a manifest.
pub enum ManifestResponse {
    /// 415: the media type is none of the three formats.
    UnsupportedMediaType,
    /// 400 `Invalid manifest`.
    InvalidManifest,
    /// 400 `Magic keyword not provided`.
    MagicKeywordMissing,
    /// 204: no valid order.
    NoContent,
    /// 200, `text/plain`: the valid orders.
    Orders(String),
}

/// A reply, its body as characters.
pub enum ResponseView {
    UnsupportedMediaType,
    InvalidManifest,
    MagicKeywordMissing,
    NoContent,
    Orders(Seq<char>),
}

impl View for ManifestResponse {
    type V = ResponseView;

    open spec fn view(&self) -> ResponseView {
        match self {
            ManifestResponse::UnsupportedMediaType => ResponseView::UnsupportedMediaType,
            ManifestResponse::InvalidManifest => ResponseView::InvalidManifest,
            ManifestResponse::MagicKeywordMissing => ResponseView::MagicKeywordMissing,
            ManifestResponse::NoContent => ResponseView::NoContent,
            ManifestResponse::Orders(body) => ResponseView::Orders(body@),
        }
    }
}

/// The reply once the top-level check and the parse are done: invalid if
/// either failed or the `rust-version` is invalid, then the magic keyword,
/// then no content or the valid orders.
pub open spec fn spec_manifest_outcome(top_level_ok: bool, parsed: Result<UnifiedValue, ()>) -> ResponseView {
    if !top_level_ok {
        ResponseView::InvalidManifest
    } else {
        match parsed {
            Err(_) => ResponseView::InvalidManifest,
            Ok(value) => if !spec_has_valid_rust_version(value) {
                ResponseView::InvalidManifest
            } else if !spec_contains_magic_keyword(value) {
                ResponseView::MagicKeywordMissing
            } else if spec_valid_orders(value).len() == 0 {
                ResponseView::NoContent
            } else {
                ResponseView::Orders(orders_text(spec_valid_orders(value)))
            },
        }
    }
}

/// The reply to a manifest, given the outcome of the top-level check and
/// of the parse.
pub fn manifest_outcome(top_level_ok: bool, parsed: Result<UnifiedValue, ()>) -> (response: ManifestResponse)
    ensures
        response@ == spec_manifest_outcome(top_level_ok, parsed),
{
    if !top_level_ok {
        return ManifestResponse::InvalidManifest;
    }
    let value = match parsed {
        Ok(value) => value,
        Err(_) => return ManifestResponse::InvalidManifest,
    };
    if !has_valid_rust_version(&value) {
        return ManifestResponse::InvalidManifest;
    }
    if !contains_magic_keyword(&value) {
        return ManifestResponse::MagicKeywordMissing;
    }
    let orders = extract_valid_orders(&value);
    if orders.len() == 0 {
        return ManifestResponse::NoContent;
    }
    let text = orders_to_string(orders.as_slice());
    ManifestResponse::Orders(text)
}

/// The reply to `body` sent with the `Content-Type` `content_type`: the
/// header, its ASCII capitals made small, picks the format and is what the
/// parse is given.
pub open spec fn spec_handle_manifest(body: Seq<char>, content_type: Seq<char>) -> ResponseView {
    let media_type = ascii_lower_seq(content_type);
    match spec_exact_format(media_type) {
        None => ResponseView::UnsupportedMediaType,
        Some(format) => spec_manifest_outcome(
            spec_top_level_ok(format, body),
            spec_parse_as_unified_value(body, media_type),
        ),
    }
}

/// Answers a manifest: the media type picks the format, then the
/// top-level check, the parse, the `rust-version`, the magic keyword and
/// the orders decide the reply.
pub fn handle_manifest(body: &str, content_type: &str) -> (response: ManifestResponse)
    ensures
        response@ == spec_handle_manifest(body@, content_type@),
{
    let media_type = ascii_lowercase(content_type);
    let format = match exact_format(media_type.as_str()) {
        Some(format) => format,
        None => return ManifestResponse::UnsupportedMediaType,
    };
    if !top_level_ok(format, body) {
        return ManifestResponse::InvalidManifest;
    }
    let parsed = parse_as_unified_value(body, media_type.as_str());
    manifest_outcome(true, parsed)
}

/// The media type is read without regard to the case of ASCII letters:
/// a header and its small-letter form name the same format.
pub proof fn lemma_media_type_ignores_ascii_case(content_type: Seq<char>)
    ensures
        spec_format_of(ascii_lower_seq(content_type)) == spec_format_of(content_type),
{
    lemma_ascii_lower_idempotent(content_type);
}

/// A manifest is answered the same whatever the case of the ASCII letters
/// of its `Content-Type` header.
pub proof fn lemma_reply_ignores_ascii_case(body: Seq<char>, content_type: Seq<char>)
    ensures
        spec_handle_manifest(body, ascii_lower_seq(content_type)) == spec_handle_manifest(
            body,
            content_type,
        ),
{
    lemma_ascii_lower_idempotent(content_type);
}

/// A media type other than TOML, JSON and YAML is answered 415, whatever
/// the body.
pub proof fn lemma_other_media_type_unsupported(body: Seq<char>, content_type: Seq<char>)
    requires
        spec_format_of(content_type) is None,
    ensures
        spec_handle_manifest(body, content_type) == ResponseView::UnsupportedMediaType,
{
}

/// A manifest that fails the top-level check is answered `Invalid
/// manifest`, whatever else it holds.
pub proof fn lemma_failed_check_invalid(body: Seq<char>, content_type: Seq<char>)
    requires
        spec_format_of(content_type) matches Some(format) && !spec_top_level_ok(format, body),
    ensures
        spec_handle_manifest(body, content_type) == ResponseView::InvalidManifest,
{
}

/// A list of orders is printed with one line per order: the text of one
/// more order is the text so far, a newline, and the new line; and the
/// text of at least one order is never empty.
pub proof fn lemma_orders_text_line_by_line(orders: Seq<(Seq<char>, u32)>, order: (Seq<char>, u32))
    ensures
        orders.len() > 0 ==> orders_text(orders.push(order)) == orders_text(orders) + seq!['\n']
            + order_line(order),
        orders.len() == 0 ==> orders_text(orders.push(order)) == order_line(order),
        orders_text(orders.push(order)).len() > 0,
{
    assert(orders.push(order).drop_last() == orders);
    lemma_decimal_reads_back(order.1 as nat);
}

/// The orders listed in a 200 reply are exactly the valid orders, and a
/// reply with no valid order is 204.
pub proof fn lemma_reply_lists_valid_orders(top_level_ok: bool, value: UnifiedValue)
    requires
        top_level_ok,
        spec_has_valid_rust_version(value),
        spec_contains_magic_keyword(value),
    ensures
        spec_valid_orders(value).len() == 0 ==> spec_manifest_outcome(top_level_ok, Ok(value))
            == ResponseView::NoContent,
        spec_valid_orders(value).len() > 0 ==> spec_manifest_outcome(top_level_ok, Ok(value))
            == ResponseView::Orders(orders_text(spec_valid_orders(value))),
{
}

/// The TOML top-level check is exactly whether `cargo_manifest` reads the
/// body's UTF-8 bytes as a `Cargo.toml`: a TOML body with a string
/// `package.name` that `cargo_manifest` refuses fails the check.
pub proof fn lemma_toml_check_is_cargo_manifest(body: Seq<char>)
    ensures
        spec_top_level_ok(Format::Toml, body) == cargo_manifest_accepts(vstd::utf8::encode_utf8(body)),
{
}

/// The keyword check finds `Christmas 2024` at any position of the
/// `package.keywords` array, and says no when no element is that string
/// or `package.keywords` is missing or not an array.
pub proof fn lemma_magic_keyword_anywhere(value: UnifiedValue)
    ensures
        match value.spec_get_path(seq!["package"@, "keywords"@]) {
            Some(keywords) => match keywords.spec_as_array() {
                Some(items) => spec_contains_magic_keyword(value) == (exists|i: int|
                    0 <= i < items.len() && #[trigger] items[i].spec_as_str() == Some(
                        "Christmas 2024"@,
                    )),
                None => !spec_contains_magic_keyword(value),
            },
            None => !spec_contains_magic_keyword(value),
        },
{
}

/// A manifest that passes the top-level check, parses and has a valid
/// `rust-version`, but whose `package.keywords` holds no string
/// `Christmas 2024`, is answered `Magic keyword not provided`, whatever
/// orders it lists.
pub proof fn lemma_missing_keyword_refused(value: UnifiedValue)
    requires
        spec_has_valid_rust_version(value),
        match value.spec_get_path(seq!["package"@, "keywords"@]) {
            Some(keywords) => match keywords.spec_as_array() {
                Some(items) => forall|i: int|
                    0 <= i < items.len() ==> #[trigger] items[i].spec_as_str() != Some(
                        "Christmas 2024"@,
                    ),
                None => true,
            },
            None => true,
        },
    ensures
        spec_manifest_outcome(true, Ok(value)) == ResponseView::MagicKeywordMissing,
{
    lemma_magic_keyword_anywhere(value);
}

/// The orders that one more entry makes: a valid entry (a string `item`
/// and a `quantity` in `0..=u32::MAX`) adds its order after all the
/// earlier ones, however many there are; any other entry adds nothing.
pub proof fn lemma_orders_grow_by_valid_entry(entries: Seq<UnifiedValue>, entry: UnifiedValue)
    ensures
        spec_orders_of(Seq::<UnifiedValue>::empty()) == Seq::<(Seq<char>, u32)>::empty(),
        match (entry.spec_get_path(seq!["item"@]), entry.spec_get_path(seq!["quantity"@])) {
            (Some(item_node), Some(quantity_node)) => match (
                item_node.spec_as_str(),
                quantity_node.spec_as_u32(),
            ) {
                (Some(item), Some(quantity)) => spec_orders_of(entries.push(entry)) == spec_orders_of(
                    entries,
                ).push((item, quantity)),
                _ => spec_orders_of(entries.push(entry)) == spec_orders_of(entries),
            },
            _ => spec_orders_of(entries.push(entry)) == spec_orders_of(entries),
        },
{
    assert(entries.push(entry).drop_last() == entries);
    assert(entries.push(entry).last() == entry);
}

/// The valid orders are those of the entries of `package.metadata.orders`,
/// and there are never more of them than entries.
pub proof fn lemma_valid_orders_from_entries(value: UnifiedValue, orders: UnifiedValue, entries: Seq<UnifiedValue>)
    requires
        value.spec_get_path(seq!["package"@, "metadata"@, "orders"@]) == Some(orders),
        orders.spec_as_array() == Some(entries),
    ensures
        spec_valid_orders(value) == spec_orders_of(entries),
        spec_valid_orders(value).len() <= entries.len(),
{
    lemma_orders_at_most_entries(entries);
}

/// Each entry makes at most one order.
pub proof fn lemma_orders_at_most_entries(entries: Seq<UnifiedValue>)
    ensures
        spec_orders_of(entries).len() <= entries.len(),
    decreases entries.len(),
{
    if entries.len() > 0 {
        lemma_orders_at_most_entries(entries.drop_last());
    }
}

/// A `rust-version` that is present but not a string reading as an `f64`
/// makes the manifest invalid, whatever keywords and orders it holds; an
/// absent one is no objection.
pub proof fn lemma_rust_version_rule(value: UnifiedValue)
    ensures
        match value.spec_index("package"@) {
            Some(package) => match package.spec_index("rust-version"@) {
                Some(version) => match version.spec_as_str() {
                    Some(s) => !is_float_literal(s) ==> spec_manifest_outcome(true, Ok(value))
                        == ResponseView::InvalidManifest,
                    None => spec_manifest_outcome(true, Ok(value)) == ResponseView::InvalidManifest,
                },
                None => spec_has_valid_rust_version(value),
            },
            None => spec_has_valid_rust_version(value),
        },
{
}

/// A line of the reply is the item, a colon and a space, then the quantity
/// in decimal digits that read back as the quantity.
pub proof fn lemma_order_line_shape(order: (Seq<char>, u32))
    ensures
        order_line(order).take(order.0.len() as int) == order.0,
        order_line(order)[order.0.len() as int] == ':',
        order_line(order)[order.0.len() as int + 1] == ' ',
        digits_value(order_line(order).skip(order.0.len() as int + 2)) == order.1,
        order_line(order).len() > order.0.len() + 2,
{
    lemma_decimal_reads_back(order.1 as nat);
    assert(order_line(order).take(order.0.len() as int) =~= order.0);
    assert(order_line(order).skip(order.0.len() as int + 2) =~= decimal(order.1 as nat));
}

} // verus!
