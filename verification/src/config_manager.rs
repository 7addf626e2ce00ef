//! Typed application settings held in memory.
//!
//! A `ConfigCache` holds the settings that were read from the database, one
//! entry per key. Reads are typed: a reader asking for a string gets nothing
//! from an entry that holds a number. Changes are checked before they are
//! made: the key must exist, the entry must be editable by the user, and the
//! new value must be of the entry's declared type. A batch of changes is
//! checked as a whole before any of it is applied.
use vstd::prelude::*;
use vstd::string::StringExecFns;
use crate::error::DuckError;
use crate::text::{str_eq, to_chars, from_chars, extend_str};
use crate::sql_diff::types::{opt_view, copy_opt};
use crate::clock::{rfc3339_as_utc, parse_rfc3339_utc};
use crate::split::{parse_i32, parse_i32_chars, signed_decimal, signed_decimal_chars, lemma_parse_i32_signed_decimal};

verus! {

broadcast use vstd::string::group_string_axioms;

/// The declared type of a setting.
#[derive(Debug, Clone, Copy, PartialEq, Eq, Structural)]
pub enum ConfigType {
    String,
    Number,
    Boolean,
    Object,
    Array,
}

/// The name under which a type is stored.
pub open spec fn stored_type_name(t: ConfigType) -> Seq<char> {
    match t {
        ConfigType::String => "STRING"@,
        ConfigType::Number => "NUMBER"@,
        ConfigType::Boolean => "BOOLEAN"@,
        ConfigType::Object => "OBJECT"@,
        ConfigType::Array => "ARRAY"@,
    }
}

/// The type stored under `s`, if any.
pub open spec fn type_named(s: Seq<char>) -> Option<ConfigType> {
    if s == "STRING"@ {
        Some(ConfigType::String)
    } else if s == "NUMBER"@ {
        Some(ConfigType::Number)
    } else if s == "BOOLEAN"@ {
        Some(ConfigType::Boolean)
    } else if s == "OBJECT"@ {
        Some(ConfigType::Object)
    } else if s == "ARRAY"@ {
        Some(ConfigType::Array)
    } else {
        None
    }
}

impl ConfigType {
    pub fn as_str(&self) -> (r: &'static str)
        ensures
            r@ == stored_type_name(*self),
    {
        match self {
            ConfigType::String => "STRING",
            ConfigType::Number => "NUMBER",
            ConfigType::Boolean => "BOOLEAN",
            ConfigType::Object => "OBJECT",
            ConfigType::Array => "ARRAY",
        }
    }

    pub fn from_str(s: &str) -> (r: Option<ConfigType>)
        ensures
            r == type_named(s@),
    {
        if str_eq(s, "STRING") {
            Some(ConfigType::String)
        } else if str_eq(s, "NUMBER") {
            Some(ConfigType::Number)
        } else if str_eq(s, "BOOLEAN") {
            Some(ConfigType::Boolean)
        } else if str_eq(s, "OBJECT") {
            Some(ConfigType::Object)
        } else if str_eq(s, "ARRAY") {
            Some(ConfigType::Array)
        } else {
            None
        }
    }
}

/// Law: reading back the stored name of a type gives the type.
pub proof fn law_type_name_round_trip(t: ConfigType)
    ensures
        type_named(stored_type_name(t)) == Some(t),
{
    reveal_strlit("STRING");
    reveal_strlit("NUMBER");
    reveal_strlit("BOOLEAN");
    reveal_strlit("OBJECT");
    reveal_strlit("ARRAY");
    assert("STRING"@[0] != "NUMBER"@[0]);
    assert("STRING"@.len() != "BOOLEAN"@.len());
    assert("STRING"@[0] != "OBJECT"@[0]);
    assert("STRING"@.len() != "ARRAY"@.len());
    assert("NUMBER"@.len() != "BOOLEAN"@.len());
    assert("NUMBER"@[0] != "OBJECT"@[0]);
    assert("NUMBER"@.len() != "ARRAY"@.len());
    assert("BOOLEAN"@.len() != "OBJECT"@.len());
    assert("BOOLEAN"@.len() != "ARRAY"@.len());
    assert("OBJECT"@.len() != "ARRAY"@.len());
}

/// The value of a setting, by the JSON kind that it holds. A number carries
/// its JSON text and, when it is an integer that fits, its `i64` value;
/// arrays and objects carry their JSON text.
#[derive(Debug)]
pub enum ConfigValue {
    Null,
    Bool(bool),
    Number { integer: Option<i64>, text: String },
    String(String),
    Array(String),
    Object(String),
}

pub enum ValueView {
    Null,
    Bool(bool),
    Number { integer: Option<i64>, text: Seq<char> },
    String(Seq<char>),
    Array(Seq<char>),
    Object(Seq<char>),
}

impl View for ConfigValue {
    type V = ValueView;

    open spec fn view(&self) -> ValueView {
        match self {
            ConfigValue::Null => ValueView::Null,
            ConfigValue::Bool(b) => ValueView::Bool(*b),
            ConfigValue::Number { integer, text } => ValueView::Number {
                integer: *integer,
                text: text@,
            },
            ConfigValue::String(s) => ValueView::String(s@),
            ConfigValue::Array(s) => ValueView::Array(s@),
            ConfigValue::Object(s) => ValueView::Object(s@),
        }
    }
}

impl ConfigValue {
    /// A copy with the same view.
    pub fn duplicate(&self) -> (r: ConfigValue)
        ensures
            r@ == self@,
    {
        match self {
            ConfigValue::Null => ConfigValue::Null,
            ConfigValue::Bool(b) => ConfigValue::Bool(*b),
            ConfigValue::Number { integer, text } => ConfigValue::Number {
                integer: *integer,
                text: text.clone(),
            },
            ConfigValue::String(s) => ConfigValue::String(s.clone()),
            ConfigValue::Array(s) => ConfigValue::Array(s.clone()),
            ConfigValue::Object(s) => ConfigValue::Object(s.clone()),
        }
    }
}

/// Whether a value is of the declared type.
pub open spec fn kind_matches(v: ValueView, t: ConfigType) -> bool {
    match (v, t) {
        (ValueView::String(_), ConfigType::String) => true,
        (ValueView::Number { .. }, ConfigType::Number) => true,
        (ValueView::Bool(_), ConfigType::Boolean) => true,
        (ValueView::Object(_), ConfigType::Object) => true,
        (ValueView::Array(_), ConfigType::Array) => true,
        _ => false,
    }
}

/// Whether `value` is of type `expected_type`.
pub fn validate_value_type(value: &ConfigValue, expected_type: &ConfigType) -> (r: bool)
    ensures
        r == kind_matches(value@, *expected_type),
{
    match (value, expected_type) {
        (ConfigValue::String(_), ConfigType::String) => true,
        (ConfigValue::Number { .. }, ConfigType::Number) => true,
        (ConfigValue::Bool(_), ConfigType::Boolean) => true,
        (ConfigValue::Object(_), ConfigType::Object) => true,
        (ConfigValue::Array(_), ConfigType::Array) => true,
        _ => false,
    }
}

/// One setting.
#[derive(Debug)]
pub struct ConfigItem {
    pub key: String,
    pub value: ConfigValue,
    pub config_type: ConfigType,
    pub category: String,
    pub description: Option<String>,
    pub is_system_config: bool,
    pub is_user_editable: bool,
    pub validation_rule: Option<String>,
    pub default_value: Option<ConfigValue>,
}

pub struct ItemView {
    pub key: Seq<char>,
    pub value: ValueView,
    pub config_type: ConfigType,
    pub category: Seq<char>,
    pub description: Option<Seq<char>>,
    pub is_system_config: bool,
    pub is_user_editable: bool,
    pub validation_rule: Option<Seq<char>>,
    pub default_value: Option<ValueView>,
}

pub open spec fn opt_value_view(o: Option<ConfigValue>) -> Option<ValueView> {
    match o {
        Some(v) => Some(v@),
        None => None,
    }
}

impl View for ConfigItem {
    type V = ItemView;

    open spec fn view(&self) -> ItemView {
        ItemView {
            key: self.key@,
            value: self.value@,
            config_type: self.config_type,
            category: self.category@,
            description: opt_view(self.description),
            is_system_config: self.is_system_config,
            is_user_editable: self.is_user_editable,
            validation_rule: opt_view(self.validation_rule),
            default_value: opt_value_view(self.default_value),
        }
    }
}

fn copy_opt_value(o: &Option<ConfigValue>) -> (r: Option<ConfigValue>)
    ensures
        opt_value_view(r) == opt_value_view(*o),
{
    match o {
        Some(v) => Some(v.duplicate()),
        None => None,
    }
}

impl ConfigItem {
    /// A copy with the same view.
    pub fn duplicate(&self) -> (r: ConfigItem)
        ensures
            r@ == self@,
    {
        ConfigItem {
            key: self.key.clone(),
            value: self.value.duplicate(),
            config_type: self.config_type,
            category: self.category.clone(),
            description: copy_opt(&self.description),
            is_system_config: self.is_system_config,
            is_user_editable: self.is_user_editable,
            validation_rule: copy_opt(&self.validation_rule),
            default_value: copy_opt_value(&self.default_value),
        }
    }
}

/// A requested change of one setting.
#[derive(Debug)]
pub struct ConfigUpdateRequest {
    pub key: String,
    pub value: ConfigValue,
    pub validate: bool,
}

pub struct RequestView {
    pub key: Seq<char>,
    pub value: ValueView,
    pub validate: bool,
}

impl View for ConfigUpdateRequest {
    type V = RequestView;

    open spec fn view(&self) -> RequestView {
        RequestView { key: self.key@, value: self.value@, validate: self.validate }
    }
}

// ---------------------------------------------------------------------------
// The settings as a sequence of entries with distinct keys.

pub open spec fn item_views(v: Seq<ConfigItem>) -> Seq<ItemView> {
    v.map_values(|it: ConfigItem| it@)
}

pub open spec fn request_views(v: Seq<ConfigUpdateRequest>) -> Seq<RequestView> {
    v.map_values(|r: ConfigUpdateRequest| r@)
}

/// The index of the first entry with key `key` at or after `i`, or `-1`.
pub open spec fn find_key(s: Seq<ItemView>, key: Seq<char>, i: int) -> int
    decreases s.len() - i,
{
    if i < 0 || i >= s.len() {
        -1
    } else if s[i].key == key {
        i
    } else {
        find_key(s, key, i + 1)
    }
}

/// The entry with key `key`, if any.
pub open spec fn lookup(s: Seq<ItemView>, key: Seq<char>) -> Option<ItemView> {
    let k = find_key(s, key, 0);
    if k >= 0 {
        Some(s[k])
    } else {
        None
    }
}

pub open spec fn keys_unique(s: Seq<ItemView>) -> bool {
    forall|i: int, j: int| 0 <= i < s.len() && 0 <= j < s.len() && i != j ==> s[i].key != s[j].key
}

/// `s` with `it` in place of the entry of the same key, or with `it` added.
pub open spec fn upsert_item(s: Seq<ItemView>, it: ItemView) -> Seq<ItemView> {
    let k = find_key(s, it.key, 0);
    if k >= 0 {
        s.update(k, it)
    } else {
        s.push(it)
    }
}

/// The entries that loading `items` gives: a later entry of a key replaces
/// an earlier one.
pub open spec fn load_all(items: Seq<ItemView>) -> Seq<ItemView>
    decreases items.len(),
{
    if items.len() == 0 {
        Seq::empty()
    } else {
        upsert_item(load_all(items.drop_last()), items.last())
    }
}

pub open spec fn with_item_value(it: ItemView, v: ValueView) -> ItemView {
    ItemView {
        key: it.key,
        value: v,
        config_type: it.config_type,
        category: it.category,
        description: it.description,
        is_system_config: it.is_system_config,
        is_user_editable: it.is_user_editable,
        validation_rule: it.validation_rule,
        default_value: it.default_value,
    }
}

/// `s` with the value of the entry `key` set to `v`; unchanged when no
/// entry has that key.
pub open spec fn with_value(s: Seq<ItemView>, key: Seq<char>, v: ValueView) -> Seq<ItemView> {
    let k = find_key(s, key, 0);
    if k >= 0 {
        s.update(k, with_item_value(s[k], v))
    } else {
        s
    }
}

pub proof fn lemma_find_key_range(s: Seq<ItemView>, key: Seq<char>, i: int)
    requires
        0 <= i,
    ensures
        find_key(s, key, i) == -1 || (i <= find_key(s, key, i) < s.len() && s[find_key(
            s,
            key,
            i,
        )].key == key),
        find_key(s, key, i) == -1 ==> forall|k: int| i <= k < s.len() ==> s[k].key != key,
    decreases s.len() - i,
{
    if 0 <= i < s.len() && s[i].key != key {
        lemma_find_key_range(s, key, i + 1);
    }
}

/// Lemma: with distinct keys, the entry at `k` is the one its key finds.
pub proof fn lemma_find_key_at(s: Seq<ItemView>, k: int, i: int)
    requires
        keys_unique(s),
        0 <= i <= k < s.len(),
    ensures
        find_key(s, s[k].key, i) == k,
    decreases k - i,
{
    if i < k {
        assert(s[i].key != s[k].key);
        lemma_find_key_at(s, k, i + 1);
    }
}

proof fn lemma_upsert_item_unique(s: Seq<ItemView>, it: ItemView)
    requires
        keys_unique(s),
    ensures
        keys_unique(upsert_item(s, it)),
{
    lemma_find_key_range(s, it.key, 0);
    let r = upsert_item(s, it);
    let k = find_key(s, it.key, 0);
    assert forall|i: int, j: int| 0 <= i < r.len() && 0 <= j < r.len() && i != j implies r[i].key
        != r[j].key by {
        if k >= 0 {
            if i == k {
                assert(s[k].key == it.key);
            } else if j == k {
                assert(s[k].key == it.key);
            }
        } else {
            if i == s.len() {
                assert(s[j].key != it.key);
            } else if j == s.len() {
                assert(s[i].key != it.key);
            }
        }
    }
}

proof fn lemma_load_all_unique(items: Seq<ItemView>)
    ensures
        keys_unique(load_all(items)),
    decreases items.len(),
{
    if items.len() > 0 {
        lemma_load_all_unique(items.drop_last());
        lemma_upsert_item_unique(load_all(items.drop_last()), items.last());
    }
}

proof fn lemma_with_value_keys(s: Seq<ItemView>, key: Seq<char>, v: ValueView)
    requires
        keys_unique(s),
    ensures
        keys_unique(with_value(s, key, v)),
        with_value(s, key, v).len() == s.len(),
        forall|i: int| 0 <= i < s.len() ==> (#[trigger] with_value(s, key, v)[i]).key == s[i].key,
{
    lemma_find_key_range(s, key, 0);
}

// ---------------------------------------------------------------------------
// Typed reads.

pub open spec fn string_of(o: Option<ItemView>) -> Option<Seq<char>> {
    match o {
        Some(it) => match it.value {
            ValueView::String(x) => Some(x),
            _ => None,
        },
        None => None,
    }
}

pub open spec fn integer_of(o: Option<ItemView>) -> Option<i64> {
    match o {
        Some(it) => match it.value {
            ValueView::Number { integer, .. } => integer,
            _ => None,
        },
        None => None,
    }
}

pub open spec fn bool_of(o: Option<ItemView>) -> Option<bool> {
    match o {
        Some(it) => match it.value {
            ValueView::Bool(b) => Some(b),
            _ => None,
        },
        None => None,
    }
}

pub open spec fn object_of(o: Option<ItemView>) -> Option<Seq<char>> {
    match o {
        Some(it) => match it.value {
            ValueView::Object(x) => Some(x),
            _ => None,
        },
        None => None,
    }
}

pub open spec fn array_of(o: Option<ItemView>) -> Option<Seq<char>> {
    match o {
        Some(it) => match it.value {
            ValueView::Array(x) => Some(x),
            _ => None,
        },
        None => None,
    }
}

// ---------------------------------------------------------------------------
// Checks on changes.

/// The name by which a type is shown in messages.
pub open spec fn type_debug_name(t: ConfigType) -> Seq<char> {
    match t {
        ConfigType::String => "String"@,
        ConfigType::Number => "Number"@,
        ConfigType::Boolean => "Boolean"@,
        ConfigType::Object => "Object"@,
        ConfigType::Array => "Array"@,
    }
}

/// What `{:?}` writes for the `serde_json::Value` that `v` stands for.
pub uninterp spec fn json_value_debug(v: ValueView) -> Seq<char>;

pub open spec fn missing_text(key: Seq<char>) -> Seq<char> {
    "配置项 "@ + key + " 不存在"@
}

pub open spec fn locked_text(key: Seq<char>) -> Seq<char> {
    "配置项 "@ + key + " 不可编辑"@
}

/// Whether `value` may replace the value of the entry `key` of `s`, or the
/// text of the reason it may not.
pub open spec fn update_check(s: Seq<ItemView>, key: Seq<char>, value: ValueView) -> Result<
    (),
    Seq<char>,
> {
    match lookup(s, key) {
        None => Err(missing_text(key)),
        Some(it) => if !it.is_user_editable {
            Err(locked_text(key))
        } else if !kind_matches(value, it.config_type) {
            Err(
                "配置项 "@ + key + " 的值类型不匹配，期望 "@ + type_debug_name(it.config_type)
                    + "，实际 "@ + json_value_debug(value),
            )
        } else {
            Ok(())
        },
    }
}

/// The check of one request of a batch: the type is checked only where the
/// request asks for it.
pub open spec fn request_check(s: Seq<ItemView>, rq: RequestView) -> Result<(), Seq<char>> {
    match lookup(s, rq.key) {
        None => Err(missing_text(rq.key)),
        Some(it) => if !it.is_user_editable {
            Err(locked_text(rq.key))
        } else if rq.validate && !kind_matches(rq.value, it.config_type) {
            Err("配置项 "@ + rq.key + " 的值类型不匹配"@)
        } else {
            Ok(())
        },
    }
}

/// The check of a batch: the first failing request in order decides.
pub open spec fn batch_check(s: Seq<ItemView>, rqs: Seq<RequestView>) -> Result<(), Seq<char>>
    decreases rqs.len(),
{
    if rqs.len() == 0 {
        Ok(())
    } else {
        match batch_check(s, rqs.drop_last()) {
            Err(e) => Err(e),
            Ok(()) => request_check(s, rqs.last()),
        }
    }
}

/// The entries after applying the requests in order.
pub open spec fn apply_all(s: Seq<ItemView>, rqs: Seq<RequestView>) -> Seq<ItemView>
    decreases rqs.len(),
{
    if rqs.len() == 0 {
        s
    } else {
        let prev = apply_all(s, rqs.drop_last());
        with_value(prev, rqs.last().key, rqs.last().value)
    }
}

/// The value that resetting the entry `key` restores, or the reason it
/// cannot be reset.
pub open spec fn reset_check(s: Seq<ItemView>, key: Seq<char>) -> Result<ValueView, Seq<char>> {
    match lookup(s, key) {
        None => Err(missing_text(key)),
        Some(it) => if !it.is_user_editable {
            Err(locked_text(key))
        } else {
            match it.default_value {
                Some(d) => Ok(d),
                None => Err("配置项 "@ + key + " 没有默认值"@),
            }
        },
    }
}

/// Whether `r` reports `c`, with a reason carried as `DuckError::Custom`.
pub open spec fn reports(r: Result<(), DuckError>, c: Result<(), Seq<char>>) -> bool {
    match c {
        Ok(()) => r is Ok,
        Err(m) => r matches Err(DuckError::Custom(x)) && x@ == m,
    }
}

// ---------------------------------------------------------------------------
// Selections and counts.

/// The entries of category `c`, in order.
pub open spec fn in_category(s: Seq<ItemView>, c: Seq<char>) -> Seq<ItemView>
    decreases s.len(),
{
    if s.len() == 0 {
        Seq::empty()
    } else if s.last().category == c {
        in_category(s.drop_last(), c).push(s.last())
    } else {
        in_category(s.drop_last(), c)
    }
}

/// The entries that the user may edit, in order.
pub open spec fn editable_items(s: Seq<ItemView>) -> Seq<ItemView>
    decreases s.len(),
{
    if s.len() == 0 {
        Seq::empty()
    } else if s.last().is_user_editable {
        editable_items(s.drop_last()).push(s.last())
    } else {
        editable_items(s.drop_last())
    }
}

pub open spec fn count_system(s: Seq<ItemView>) -> nat
    decreases s.len(),
{
    if s.len() == 0 {
        0
    } else if s.last().is_system_config {
        count_system(s.drop_last()) + 1
    } else {
        count_system(s.drop_last())
    }
}

/// The index of category `c` at or after `i` in a tally, or `-1`.
pub open spec fn find_category(cs: Seq<(Seq<char>, nat)>, c: Seq<char>, i: int) -> int
    decreases cs.len() - i,
{
    if i < 0 || i >= cs.len() {
        -1
    } else if cs[i].0 == c {
        i
    } else {
        find_category(cs, c, i + 1)
    }
}

/// A tally with one more entry of category `c`.
pub open spec fn tally(cs: Seq<(Seq<char>, nat)>, c: Seq<char>) -> Seq<(Seq<char>, nat)> {
    let k = find_category(cs, c, 0);
    if k >= 0 {
        cs.update(k, (c, cs[k].1 + 1))
    } else {
        cs.push((c, 1nat))
    }
}

/// The number of entries of each category, in order of first occurrence.
pub open spec fn category_counts(s: Seq<ItemView>) -> Seq<(Seq<char>, nat)>
    decreases s.len(),
{
    if s.len() == 0 {
        Seq::empty()
    } else {
        tally(category_counts(s.drop_last()), s.last().category)
    }
}

pub open spec fn count_sum(cs: Seq<(Seq<char>, nat)>) -> nat
    decreases cs.len(),
{
    if cs.len() == 0 {
        0
    } else {
        count_sum(cs.drop_last()) + cs.last().1
    }
}

proof fn lemma_find_category_range(cs: Seq<(Seq<char>, nat)>, c: Seq<char>, i: int)
    requires
        0 <= i,
    ensures
        find_category(cs, c, i) == -1 || (i <= find_category(cs, c, i) < cs.len()
            && cs[find_category(cs, c, i)].0 == c),
    decreases cs.len() - i,
{
    if 0 <= i < cs.len() && cs[i].0 != c {
        lemma_find_category_range(cs, c, i + 1);
    }
}

proof fn lemma_count_sum_bump(cs: Seq<(Seq<char>, nat)>, k: int, c: Seq<char>)
    requires
        0 <= k < cs.len(),
    ensures
        count_sum(cs.update(k, (c, cs[k].1 + 1))) == count_sum(cs) + 1,
    decreases cs.len(),
{
    let u = cs.update(k, (c, cs[k].1 + 1));
    if k == cs.len() - 1 {
        assert(u.drop_last() =~= cs.drop_last());
    } else {
        assert(u.drop_last() =~= cs.drop_last().update(k, (c, cs[k].1 + 1)));
        lemma_count_sum_bump(cs.drop_last(), k, c);
    }
}

/// Law: the category counts add up to the number of entries.
pub proof fn law_category_counts_total(s: Seq<ItemView>)
    ensures
        count_sum(category_counts(s)) == s.len(),
    decreases s.len(),
{
    if s.len() > 0 {
        law_category_counts_total(s.drop_last());
        let cs = category_counts(s.drop_last());
        let c = s.last().category;
        lemma_find_category_range(cs, c, 0);
        let k = find_category(cs, c, 0);
        if k >= 0 {
            lemma_count_sum_bump(cs, k, c);
        } else {
            assert(cs.push((c, 1nat)).drop_last() =~= cs);
        }
    }
}

/// Counts of the settings: all, user-editable, system, and per category.
#[derive(Debug)]
pub struct ConfigStats {
    pub total_count: usize,
    pub editable_count: usize,
    pub system_count: usize,
    pub category_stats: Vec<(String, usize)>,
}

pub open spec fn tally_views(v: Seq<(String, usize)>) -> Seq<(Seq<char>, nat)> {
    v.map_values(|e: (String, usize)| (e.0@, e.1 as nat))
}

// ---------------------------------------------------------------------------
// The cache.

/// The settings in memory, one entry per key, and whether they have been
/// loaded.
pub struct ConfigCache {
    items: Vec<ConfigItem>,
    initialized: bool,
}

impl View for ConfigCache {
    type V = Seq<ItemView>;

    closed spec fn view(&self) -> Seq<ItemView> {
        item_views(self.items@)
    }
}

proof fn lemma_item_views_push(v: Seq<ConfigItem>, x: ConfigItem)
    ensures
        item_views(v.push(x)) == item_views(v).push(x@),
{
    assert(item_views(v.push(x)) =~= item_views(v).push(x@));
}

proof fn lemma_item_views_update(v: Seq<ConfigItem>, k: int, x: ConfigItem)
    requires
        0 <= k < v.len(),
    ensures
        item_views(v.update(k, x)) == item_views(v).update(k, x@),
{
    assert(item_views(v.update(k, x)) =~= item_views(v).update(k, x@));
}

/// The text `lead`, `key` and `trail` joined.
fn keyed_text(lead: &str, key: &str, trail: &str) -> (r: String)
    ensures
        r@ == lead@ + key@ + trail@,
{
    let mut v = to_chars(lead);
    extend_str(&mut v, key);
    extend_str(&mut v, trail);
    from_chars(&v)
}

fn type_debug_str(t: ConfigType) -> (r: &'static str)
    ensures
        r@ == type_debug_name(t),
{
    match t {
        ConfigType::String => "String",
        ConfigType::Number => "Number",
        ConfigType::Boolean => "Boolean",
        ConfigType::Object => "Object",
        ConfigType::Array => "Array",
    }
}

/// The `serde_json::Value` that `v` stands for (numbers, arrays and objects
/// read back from their JSON text with `serde_json::from_str`), written
/// with `{:?}`; the contract names the result.
#[verifier::external_body]
fn value_debug_text(v: &ConfigValue) -> (r: String)
    ensures
        r@ == json_value_debug(v@),
{
    let json = match v {
        ConfigValue::Null => serde_json::Value::Null,
        ConfigValue::Bool(b) => serde_json::Value::Bool(*b),
        ConfigValue::String(s) => serde_json::Value::String(s.clone()),
        ConfigValue::Number { text, .. } => serde_json::from_str(text).unwrap_or(serde_json::Value::Null),
        ConfigValue::Array(text) => serde_json::from_str(text).unwrap_or(serde_json::Value::Null),
        ConfigValue::Object(text) => serde_json::from_str(text).unwrap_or(serde_json::Value::Null),
    };
    format!("{:?}", json)
}

impl ConfigCache {
    #[verifier::type_invariant]
    spec fn wf(&self) -> bool {
        keys_unique(item_views(self.items@))
    }

    /// Whether the settings have been loaded since the cache was made or
    /// last invalidated.
    pub closed spec fn loaded(&self) -> bool {
        self.initialized
    }

    /// An empty cache, not yet loaded.
    pub fn new() -> (r: ConfigCache)
        ensures
            r@ == Seq::<ItemView>::empty(),
            !r.loaded(),
    {
        let r = ConfigCache { items: Vec::new(), initialized: false };
        assert(r@ =~= Seq::<ItemView>::empty());
        r
    }

    pub fn is_initialized(&self) -> (r: bool)
        ensures
            r == self.loaded(),
    {
        self.initialized
    }

    /// Marks the cache as needing a load; the entries stay until then.
    pub fn invalidate(&mut self)
        ensures
            final(self)@ == old(self)@,
            !final(self).loaded(),
    {
        proof {
            use_type_invariant(&*self);
        }
        self.initialized = false;
    }

    /// The index of the entry with key `key`.
    fn position(&self, key: &str) -> (r: Option<usize>)
        ensures
            match r {
                Some(k) => k as int == find_key(self@, key@, 0) && k < self@.len(),
                None => find_key(self@, key@, 0) == -1,
            },
    {
        let mut i: usize = 0;
        while i < self.items.len()
            invariant
                i <= self.items@.len(),
                self@ == item_views(self.items@),
                find_key(self@, key@, i as int) == find_key(self@, key@, 0),
            decreases self.items@.len() - i,
        {
            if str_eq(self.items[i].key.as_str(), key) {
                return Some(i);
            }
            i = i + 1;
        }
        None
    }

    /// Adds `item`, or replaces the entry of the same key by it.
    fn put(&mut self, item: ConfigItem)
        ensures
            final(self)@ == upsert_item(old(self)@, item@),
            final(self).loaded() == old(self).loaded(),
    {
        proof {
            use_type_invariant(&*self);
            lemma_upsert_item_unique(self@, item@);
            lemma_find_key_range(self@, item@.key, 0);
        }
        let pos = self.position(item.key.as_str());
        let mut items: Vec<ConfigItem> = Vec::new();
        std::mem::swap(&mut items, &mut self.items);
        match pos {
            Some(k) => {
                proof {
                    lemma_item_views_update(items@, k as int, item);
                }
                items.set(k, item);
            },
            None => {
                proof {
                    lemma_item_views_push(items@, item);
                }
                items.push(item);
            },
        }
        self.items = items;
    }

    /// Replaces the entries by `configs`, a later entry of a key replacing an
    /// earlier one, and marks the cache as loaded.
    pub fn load(&mut self, configs: Vec<ConfigItem>)
        ensures
            final(self)@ == load_all(item_views(configs@)),
            final(self).loaded(),
    {
        let ghost all = item_views(configs@);
        self.items = Vec::new();
        assert(self@ =~= Seq::<ItemView>::empty());
        let mut i: usize = 0;
        while i < configs.len()
            invariant
                i <= configs@.len(),
                all == item_views(configs@),
                self@ == load_all(all.take(i as int)),
            decreases configs@.len() - i,
        {
            let item = configs[i].duplicate();
            proof {
                assert(all.take(i + 1).drop_last() =~= all.take(i as int));
                assert(all.take(i + 1).last() == all[i as int]);
            }
            self.put(item);
            i = i + 1;
        }
        let ghost n = all.len();
        assert(all.take(n as int) =~= all);
        proof {
            lemma_load_all_unique(all);
        }
        self.initialized = true;
    }

    /// A copy of the entry with key `key`, if any.
    pub fn get_config(&self, key: &str) -> (r: Option<ConfigItem>)
        ensures
            match r {
                Some(it) => lookup(self@, key@) == Some(it@),
                None => lookup(self@, key@) is None,
            },
    {
        proof {
            lemma_find_key_range(self@, key@, 0);
        }
        match self.position(key) {
            Some(k) => Some(self.items[k].duplicate()),
            None => None,
        }
    }

    /// The string held by entry `key`, if it holds one.
    pub fn get_string(&self, key: &str) -> (r: Option<String>)
        ensures
            opt_view(r) == string_of(lookup(self@, key@)),
    {
        match self.position(key) {
            Some(k) => match &self.items[k].value {
                ConfigValue::String(x) => Some(x.clone()),
                _ => None,
            },
            None => None,
        }
    }

    /// The integer held by entry `key`, if it holds a number that is an
    /// integer within `i64`.
    pub fn get_integer(&self, key: &str) -> (r: Option<i64>)
        ensures
            r == integer_of(lookup(self@, key@)),
    {
        match self.position(key) {
            Some(k) => match &self.items[k].value {
                ConfigValue::Number { integer, .. } => *integer,
                _ => None,
            },
            None => None,
        }
    }

    /// The boolean held by entry `key`, if it holds one.
    pub fn get_bool(&self, key: &str) -> (r: Option<bool>)
        ensures
            r == bool_of(lookup(self@, key@)),
    {
        match self.position(key) {
            Some(k) => match &self.items[k].value {
                ConfigValue::Bool(b) => Some(*b),
                _ => None,
            },
            None => None,
        }
    }

    /// The JSON text of the object held by entry `key`, if it holds one.
    pub fn get_object(&self, key: &str) -> (r: Option<String>)
        ensures
            opt_view(r) == object_of(lookup(self@, key@)),
    {
        match self.position(key) {
            Some(k) => match &self.items[k].value {
                ConfigValue::Object(x) => Some(x.clone()),
                _ => None,
            },
            None => None,
        }
    }

    /// The JSON text of the array held by entry `key`, if it holds one.
    pub fn get_array(&self, key: &str) -> (r: Option<String>)
        ensures
            opt_view(r) == array_of(lookup(self@, key@)),
    {
        match self.position(key) {
            Some(k) => match &self.items[k].value {
                ConfigValue::Array(x) => Some(x.clone()),
                _ => None,
            },
            None => None,
        }
    }

    /// Copies of the entries of category `category`, in order.
    pub fn get_configs_by_category(&self, category: &str) -> (r: Vec<ConfigItem>)
        ensures
            item_views(r@) == in_category(self@, category@),
    {
        let mut r: Vec<ConfigItem> = Vec::new();
        let mut i: usize = 0;
        while i < self.items.len()
            invariant
                i <= self.items@.len(),
                self@ == item_views(self.items@),
                item_views(r@) == in_category(self@.take(i as int), category@),
            decreases self.items@.len() - i,
        {
            proof {
                assert(self@.take(i + 1).drop_last() =~= self@.take(i as int));
                assert(self@.take(i + 1).last() == self.items@[i as int]@);
            }
            if str_eq(self.items[i].category.as_str(), category) {
                let c = self.items[i].duplicate();
                proof {
                    lemma_item_views_push(r@, c);
                }
                r.push(c);
            }
            i = i + 1;
        }
        assert(self@.take(self@.len() as int) =~= self@);
        r
    }

    /// Copies of the entries the user may edit, in order.
    pub fn get_user_editable_configs(&self) -> (r: Vec<ConfigItem>)
        ensures
            item_views(r@) == editable_items(self@),
    {
        let mut r: Vec<ConfigItem> = Vec::new();
        let mut i: usize = 0;
        while i < self.items.len()
            invariant
                i <= self.items@.len(),
                self@ == item_views(self.items@),
                item_views(r@) == editable_items(self@.take(i as int)),
            decreases self.items@.len() - i,
        {
            proof {
                assert(self@.take(i + 1).drop_last() =~= self@.take(i as int));
                assert(self@.take(i + 1).last() == self.items@[i as int]@);
            }
            if self.items[i].is_user_editable {
                let c = self.items[i].duplicate();
                proof {
                    lemma_item_views_push(r@, c);
                }
                r.push(c);
            }
            i = i + 1;
        }
        assert(self@.take(self@.len() as int) =~= self@);
        r
    }

    /// Whether `value` may replace the value of entry `key`: the entry must
    /// exist, be editable by the user and be declared of the value's type.
    pub fn check_update(&self, key: &str, value: &ConfigValue) -> (r: Result<(), DuckError>)
        ensures
            reports(r, update_check(self@, key@, value@)),
    {
        proof {
            lemma_find_key_range(self@, key@, 0);
        }
        match self.position(key) {
            None => Err(DuckError::Custom(keyed_text("配置项 ", key, " 不存在"))),
            Some(k) => {
                let it = &self.items[k];
                if !it.is_user_editable {
                    return Err(DuckError::Custom(keyed_text("配置项 ", key, " 不可编辑")));
                }
                if !validate_value_type(value, &it.config_type) {
                    let mut v = to_chars("配置项 ");
                    extend_str(&mut v, key);
                    extend_str(&mut v, " 的值类型不匹配，期望 ");
                    extend_str(&mut v, type_debug_str(it.config_type));
                    extend_str(&mut v, "，实际 ");
                    extend_str(&mut v, value_debug_text(value).as_str());
                    return Err(DuckError::Custom(from_chars(&v)));
                }
                Ok(())
            },
        }
    }

    /// Sets the value of entry `key` to `value`; nothing changes when no
    /// entry has that key.
    pub fn apply_update(&mut self, key: &str, value: ConfigValue)
        ensures
            final(self)@ == with_value(old(self)@, key@, value@),
            final(self).loaded() == old(self).loaded(),
    {
        proof {
            use_type_invariant(&*self);
            lemma_find_key_range(self@, key@, 0);
            lemma_with_value_keys(self@, key@, value@);
        }
        match self.position(key) {
            None => {},
            Some(k) => {
                let mut items: Vec<ConfigItem> = Vec::new();
                std::mem::swap(&mut items, &mut self.items);
                let old_item = items[k].duplicate();
                let item = ConfigItem {
                    key: old_item.key,
                    value,
                    config_type: old_item.config_type,
                    category: old_item.category,
                    description: old_item.description,
                    is_system_config: old_item.is_system_config,
                    is_user_editable: old_item.is_user_editable,
                    validation_rule: old_item.validation_rule,
                    default_value: old_item.default_value,
                };
                proof {
                    lemma_item_views_update(items@, k as int, item);
                }
                items.set(k, item);
                self.items = items;
            },
        }
    }

    /// Whether every request of a batch may be applied; the first one in
    /// order that may not decides the error.
    pub fn check_updates(&self, updates: &Vec<ConfigUpdateRequest>) -> (r: Result<(), DuckError>)
        ensures
            reports(r, batch_check(self@, request_views(updates@))),
    {
        let ghost rv = request_views(updates@);
        let mut i: usize = 0;
        while i < updates.len()
            invariant
                i <= updates@.len(),
                rv == request_views(updates@),
                batch_check(self@, rv.take(i as int)) == Ok::<(), Seq<char>>(()),
            decreases updates@.len() - i,
        {
            let rq = &updates[i];
            proof {
                assert(rv.take(i + 1).drop_last() =~= rv.take(i as int));
                assert(rv.take(i + 1).last() == rq@);
                lemma_find_key_range(self@, rq.key@, 0);
                lemma_batch_err_stays(self@, rv, i + 1);
            }
            let key = rq.key.as_str();
            match self.position(key) {
                None => {
                    return Err(DuckError::Custom(keyed_text("配置项 ", key, " 不存在")));
                },
                Some(k) => {
                    let it = &self.items[k];
                    if !it.is_user_editable {
                        return Err(DuckError::Custom(keyed_text("配置项 ", key, " 不可编辑")));
                    }
                    if rq.validate && !validate_value_type(&rq.value, &it.config_type) {
                        return Err(
                            DuckError::Custom(keyed_text("配置项 ", key, " 的值类型不匹配")),
                        );
                    }
                },
            }
            i = i + 1;
        }
        assert(rv.take(rv.len() as int) =~= rv);
        Ok(())
    }

    /// Applies the requests of a batch in order.
    pub fn apply_updates(&mut self, updates: Vec<ConfigUpdateRequest>)
        ensures
            final(self)@ == apply_all(old(self)@, request_views(updates@)),
            final(self).loaded() == old(self).loaded(),
    {
        let ghost rv = request_views(updates@);
        let ghost start = self@;
        let mut i: usize = 0;
        while i < updates.len()
            invariant
                i <= updates@.len(),
                rv == request_views(updates@),
                self@ == apply_all(start, rv.take(i as int)),
                self.loaded() == old(self).loaded(),
            decreases updates@.len() - i,
        {
            let value = updates[i].value.duplicate();
            proof {
                assert(rv.take(i + 1).drop_last() =~= rv.take(i as int));
                assert(rv.take(i + 1).last() == updates@[i as int]@);
            }
            self.apply_update(updates[i].key.as_str(), value);
            i = i + 1;
        }
        assert(rv.take(rv.len() as int) =~= rv);
    }

    /// The default value that resetting entry `key` restores: the entry must
    /// exist, be editable by the user and have a default.
    pub fn reset_value(&self, key: &str) -> (r: Result<ConfigValue, DuckError>)
        ensures
            match reset_check(self@, key@) {
                Ok(d) => r matches Ok(v) && v@ == d,
                Err(m) => r matches Err(DuckError::Custom(x)) && x@ == m,
            },
    {
        proof {
            lemma_find_key_range(self@, key@, 0);
        }
        match self.position(key) {
            None => Err(DuckError::Custom(keyed_text("配置项 ", key, " 不存在"))),
            Some(k) => {
                let it = &self.items[k];
                if !it.is_user_editable {
                    return Err(DuckError::Custom(keyed_text("配置项 ", key, " 不可编辑")));
                }
                match &it.default_value {
                    Some(d) => Ok(d.duplicate()),
                    None => Err(DuckError::Custom(keyed_text("配置项 ", key, " 没有默认值"))),
                }
            },
        }
    }

    /// Counts of the entries: all, user-editable, system, and per category in
    /// order of first occurrence.
    pub fn config_stats(&self) -> (r: ConfigStats)
        ensures
            r.total_count == self@.len(),
            r.editable_count == editable_items(self@).len(),
            r.system_count == count_system(self@),
            tally_views(r.category_stats@) == category_counts(self@),
    {
        let mut editable: usize = 0;
        let mut system: usize = 0;
        let mut cats: Vec<(String, usize)> = Vec::new();
        let mut i: usize = 0;
        while i < self.items.len()
            invariant
                i <= self.items@.len(),
                self@ == item_views(self.items@),
                editable == editable_items(self@.take(i as int)).len(),
                system == count_system(self@.take(i as int)),
                editable <= i,
                system <= i,
                tally_views(cats@) == category_counts(self@.take(i as int)),
                count_sum(category_counts(self@.take(i as int))) == i,
            decreases self.items@.len() - i,
        {
            proof {
                assert(self@.take(i + 1).drop_last() =~= self@.take(i as int));
                assert(self@.take(i + 1).last() == self.items@[i as int]@);
                law_category_counts_total(self@.take(i + 1));
            }
            if self.items[i].is_user_editable {
                editable = editable + 1;
            }
            if self.items[i].is_system_config {
                system = system + 1;
            }
            tally_exec(&mut cats, &self.items[i].category, i);
            i = i + 1;
        }
        assert(self@.take(self@.len() as int) =~= self@);
        ConfigStats {
            total_count: self.items.len(),
            editable_count: editable,
            system_count: system,
            category_stats: cats,
        }
    }
}

proof fn lemma_batch_err_stays(s: Seq<ItemView>, rv: Seq<RequestView>, n: int)
    requires
        0 <= n <= rv.len(),
    ensures
        batch_check(s, rv.take(n)) is Err ==> batch_check(s, rv) == batch_check(s, rv.take(n)),
    decreases rv.len() - n,
{
    if n < rv.len() {
        assert(rv.take(n + 1).drop_last() =~= rv.take(n));
        lemma_batch_err_stays(s, rv, n + 1);
    } else {
        assert(rv.take(n) =~= rv);
    }
}

proof fn lemma_count_sum_bound(cs: Seq<(Seq<char>, nat)>, k: int)
    requires
        0 <= k < cs.len(),
    ensures
        cs[k].1 <= count_sum(cs),
    decreases cs.len(),
{
    if k < cs.len() - 1 {
        lemma_count_sum_bound(cs.drop_last(), k);
    }
}

/// Adds one entry of category `c` to a tally whose counts add up to `n`.
fn tally_exec(cats: &mut Vec<(String, usize)>, c: &String, n: usize)
    requires
        count_sum(tally_views(old(cats)@)) == n,
        n < usize::MAX,
    ensures
        tally_views(final(cats)@) == tally(tally_views(old(cats)@), c@),
{
    let ghost cs = tally_views(cats@);
    let mut k: usize = 0;
    while k < cats.len()
        invariant
            k <= cats@.len(),
            cs == tally_views(cats@),
            cats@ == old(cats)@,
            count_sum(cs) == n,
            n < usize::MAX,
            find_category(cs, c@, k as int) == find_category(cs, c@, 0),
        decreases cats@.len() - k,
    {
        if str_eq(cats[k].0.as_str(), c.as_str()) {
            proof {
                lemma_count_sum_bound(cs, k as int);
            }
            let name = c.clone();
            let m = cats[k].1 + 1;
            cats.set(k, (name, m));
            assert(tally_views(cats@) =~= tally(cs, c@));
            return;
        }
        k = k + 1;
    }
    cats.push((c.clone(), 1));
    assert(tally_views(cats@) =~= tally(cs, c@));
}

// ---------------------------------------------------------------------------
// Laws.

/// The last entry of key `k` among `items`, if any.
pub open spec fn last_with_key(items: Seq<ItemView>, k: Seq<char>) -> Option<ItemView>
    decreases items.len(),
{
    if items.len() == 0 {
        None
    } else if items.last().key == k {
        Some(items.last())
    } else {
        last_with_key(items.drop_last(), k)
    }
}

proof fn lemma_lookup_by_index(s: Seq<ItemView>, k: Seq<char>)
    requires
        keys_unique(s),
    ensures
        forall|j: int| 0 <= j < s.len() && s[j].key == k ==> lookup(s, k) == Some(s[j]),
        (forall|j: int| 0 <= j < s.len() ==> s[j].key != k) ==> lookup(s, k) is None,
{
    lemma_find_key_range(s, k, 0);
    assert forall|j: int| 0 <= j < s.len() && s[j].key == k implies lookup(s, k) == Some(s[j]) by {
        lemma_find_key_at(s, j, 0);
    }
}

/// Lemma: adding or replacing an entry changes what its key finds and
/// nothing else.
pub proof fn lemma_lookup_upsert(s: Seq<ItemView>, it: ItemView, k: Seq<char>)
    requires
        keys_unique(s),
    ensures
        lookup(upsert_item(s, it), k) == (if it.key == k {
            Some(it)
        } else {
            lookup(s, k)
        }),
{
    lemma_upsert_item_unique(s, it);
    lemma_find_key_range(s, it.key, 0);
    let r = upsert_item(s, it);
    let big_k = find_key(s, it.key, 0);
    lemma_lookup_by_index(r, k);
    lemma_lookup_by_index(s, k);
    if it.key == k {
        if big_k >= 0 {
            assert(r[big_k] == it);
        } else {
            assert(r[s.len() as int] == it);
        }
    } else {
        if lookup(s, k) is Some {
            lemma_find_key_range(s, k, 0);
            let j = find_key(s, k, 0);
            assert(r[j] == s[j]);
        } else {
            assert forall|j: int| 0 <= j < r.len() implies r[j].key != k by {
                if j < s.len() && j != big_k {
                    assert(r[j] == s[j]);
                    lemma_find_key_range(s, k, 0);
                }
            }
        }
    }
}

/// Law: loading entries keeps, for each key, the last entry given for it.
pub proof fn law_load_last_wins(items: Seq<ItemView>, k: Seq<char>)
    ensures
        lookup(load_all(items), k) == last_with_key(items, k),
    decreases items.len(),
{
    if items.len() == 0 {
        lemma_find_key_range(load_all(items), k, 0);
    } else {
        law_load_last_wins(items.drop_last(), k);
        lemma_load_all_unique(items.drop_last());
        lemma_lookup_upsert(load_all(items.drop_last()), items.last(), k);
    }
}

/// Law: after an accepted change, the entry holds the new value and every
/// other key finds what it found before.
pub proof fn law_update_reads_back(s: Seq<ItemView>, key: Seq<char>, v: ValueView, other: Seq<char>)
    requires
        keys_unique(s),
        update_check(s, key, v) is Ok,
    ensures
        lookup(with_value(s, key, v), key) == Some(with_item_value(lookup(s, key)->Some_0, v)),
        v matches ValueView::String(x) ==> string_of(lookup(with_value(s, key, v), key)) == Some(x),
        other != key ==> lookup(with_value(s, key, v), other) == lookup(s, other),
{
    lemma_find_key_range(s, key, 0);
    lemma_with_value_keys(s, key, v);
    let r = with_value(s, key, v);
    let kk = find_key(s, key, 0);
    lemma_lookup_by_index(r, key);
    assert(r[kk].key == key);
    lemma_lookup_by_index(r, other);
    lemma_lookup_by_index(s, other);
    if other != key {
        if lookup(s, other) is Some {
            lemma_find_key_range(s, other, 0);
            let j = find_key(s, other, 0);
            assert(r[j] == s[j]);
        } else {
            assert forall|j: int| 0 <= j < r.len() implies r[j].key != other by {
                lemma_find_key_range(s, other, 0);
            }
        }
    }
}

/// Law: a batch passes its check exactly when each of its requests does.
pub proof fn law_batch_all_or_nothing(s: Seq<ItemView>, rqs: Seq<RequestView>)
    ensures
        batch_check(s, rqs) is Ok <==> forall|i: int|
            0 <= i < rqs.len() ==> (#[trigger] request_check(s, rqs[i])) is Ok,
    decreases rqs.len(),
{
    if rqs.len() > 0 {
        law_batch_all_or_nothing(s, rqs.drop_last());
        if batch_check(s, rqs) is Ok {
            assert forall|i: int| 0 <= i < rqs.len() implies (#[trigger] request_check(
                s,
                rqs[i],
            )) is Ok by {
                if i < rqs.len() - 1 {
                    assert(rqs.drop_last()[i] == rqs[i]);
                }
            }
        } else {
            if batch_check(s, rqs.drop_last()) is Err {
                let i = choose|i: int|
                    0 <= i < rqs.drop_last().len() && (#[trigger] request_check(
                        s,
                        rqs.drop_last()[i],
                    )) is Err;
                assert(rqs.drop_last()[i] == rqs[i]);
            } else {
                assert(request_check(s, rqs[rqs.len() - 1]) is Err);
            }
        }
    }
}

/// Law: resetting an entry whose default is of its declared type passes the
/// change check, and afterwards the entry holds its default.
pub proof fn law_reset_restores_default(s: Seq<ItemView>, key: Seq<char>)
    requires
        keys_unique(s),
        reset_check(s, key) is Ok,
        kind_matches(reset_check(s, key)->Ok_0, lookup(s, key)->Some_0.config_type),
    ensures
        update_check(s, key, reset_check(s, key)->Ok_0) is Ok,
        lookup(with_value(s, key, reset_check(s, key)->Ok_0), key)->Some_0.value == lookup(
            s,
            key,
        )->Some_0.default_value->Some_0,
{
    law_update_reads_back(s, key, reset_check(s, key)->Ok_0, key);
}

// ---------------------------------------------------------------------------
// Automatic backup settings.

/// The automatic backup settings as stored, with the time of the last backup
/// as RFC 3339 text in UTC.
#[derive(Debug)]
pub struct AutoBackupConfig {
    pub enabled: bool,
    pub cron_expression: String,
    pub last_backup_time: Option<String>,
    pub backup_retention_days: i32,
    pub backup_directory: String,
}

pub open spec fn or_text(o: Option<Seq<char>>, d: Seq<char>) -> Seq<char> {
    match o {
        Some(x) => x,
        None => d,
    }
}

fn string_or(o: Option<String>, d: &str) -> (r: String)
    ensures
        r@ == or_text(opt_view(o), d@),
{
    match o {
        Some(x) => x,
        None => String::from_str(d),
    }
}

impl ConfigCache {
    /// The automatic backup settings: off, at 02:00 daily, kept seven days,
    /// under `./backups`, where the entries do not say otherwise.
    pub fn get_auto_backup_config(&self) -> (r: AutoBackupConfig)
        ensures
            r.enabled == (bool_of(lookup(self@, "auto_backup_enabled"@)) == Some(true)),
            r.cron_expression@ == or_text(
                string_of(lookup(self@, "auto_backup_schedule"@)),
                "0 2 * * *"@,
            ),
            r.backup_retention_days == (match integer_of(
                lookup(self@, "auto_backup_retention_days"@),
            ) {
                Some(n) => n as i32,
                None => 7i32,
            }),
            r.backup_directory@ == or_text(
                string_of(lookup(self@, "auto_backup_directory"@)),
                "./backups"@,
            ),
            opt_view(r.last_backup_time) == (match string_of(
                lookup(self@, "auto_backup_last_time"@),
            ) {
                Some(t) => rfc3339_as_utc(t),
                None => None,
            }),
    {
        let enabled = match self.get_bool("auto_backup_enabled") {
            Some(b) => b,
            None => false,
        };
        let cron_expression = string_or(self.get_string("auto_backup_schedule"), "0 2 * * *");
        let backup_retention_days: i32 = match self.get_integer("auto_backup_retention_days") {
            Some(n) => #[verifier::truncate] (n as i32),
            None => 7,
        };
        let backup_directory = string_or(self.get_string("auto_backup_directory"), "./backups");
        let last_backup_time = match self.get_string("auto_backup_last_time") {
            Some(t) => parse_rfc3339_utc(t.as_str()),
            None => None,
        };
        AutoBackupConfig {
            enabled,
            cron_expression,
            last_backup_time,
            backup_retention_days,
            backup_directory,
        }
    }
}


// ---------------------------------------------------------------------------
// Automatic upgrade tasks, and their rows in the `auto_upgrade_tasks` table.

/// A scheduled automatic upgrade. Its times are RFC 3339 texts in UTC.
#[derive(Debug, Clone)]
pub struct AutoUpgradeTask {
    pub task_id: String,
    pub task_name: String,
    pub schedule_time: String,
    pub upgrade_type: String,
    pub target_version: Option<String>,
    pub status: String,
    pub progress: Option<i32>,
    pub error_message: Option<String>,
    pub created_at: String,
    pub updated_at: String,
}

/// A row of the `auto_upgrade_tasks` table, every column as text.
#[derive(Debug, Clone)]
pub struct UpgradeTaskRow {
    pub task_id: String,
    pub task_name: String,
    pub schedule_time: String,
    pub upgrade_type: String,
    pub target_version: String,
    pub status: String,
    pub progress: String,
    pub error_message: String,
    pub created_at: String,
    pub updated_at: String,
}

/// An optional text as a column stores it: absent as the empty text.
pub open spec fn stored_text(o: Option<Seq<char>>) -> Seq<char> {
    match o {
        Some(t) => t,
        None => Seq::empty(),
    }
}

/// A column read back: the empty text as absent.
pub open spec fn text_or_none(t: Seq<char>) -> Option<Seq<char>> {
    if t.len() == 0 {
        None
    } else {
        Some(t)
    }
}

/// A progress as a column stores it: its decimal, or the empty text.
pub open spec fn stored_progress(p: Option<i32>) -> Seq<char> {
    match p {
        Some(n) => signed_decimal(n as int),
        None => Seq::empty(),
    }
}

/// A progress column read back: absent when empty or not a number.
pub open spec fn progress_of(t: Seq<char>) -> Option<i32> {
    if t.len() == 0 {
        None
    } else {
        parse_i32(t)
    }
}

fn text_of(o: &Option<String>) -> (r: String)
    ensures
        r@ == stored_text(opt_view(*o)),
{
    match o {
        Some(t) => t.clone(),
        None => String::new(),
    }
}

fn none_if_empty(t: &String) -> (r: Option<String>)
    ensures
        opt_view(r) == text_or_none(t@),
{
    if to_chars(t.as_str()).len() == 0 {
        None
    } else {
        Some(t.clone())
    }
}

/// The text stored for a progress.
pub fn progress_text(progress: Option<i32>) -> (r: String)
    ensures
        r@ == stored_progress(progress),
{
    match progress {
        Some(n) => from_chars(&signed_decimal_chars(n as i64)),
        None => String::new(),
    }
}

/// The row that stores `task`.
pub fn upgrade_task_row(task: &AutoUpgradeTask) -> (r: UpgradeTaskRow)
    ensures
        r.task_id@ == task.task_id@,
        r.task_name@ == task.task_name@,
        r.schedule_time@ == task.schedule_time@,
        r.upgrade_type@ == task.upgrade_type@,
        r.target_version@ == stored_text(opt_view(task.target_version)),
        r.status@ == task.status@,
        r.progress@ == stored_progress(task.progress),
        r.error_message@ == stored_text(opt_view(task.error_message)),
        r.created_at@ == task.created_at@,
        r.updated_at@ == task.updated_at@,
{
    UpgradeTaskRow {
        task_id: task.task_id.clone(),
        task_name: task.task_name.clone(),
        schedule_time: task.schedule_time.clone(),
        upgrade_type: task.upgrade_type.clone(),
        target_version: text_of(&task.target_version),
        status: task.status.clone(),
        progress: progress_text(task.progress),
        error_message: text_of(&task.error_message),
        created_at: task.created_at.clone(),
        updated_at: task.updated_at.clone(),
    }
}

/// The task that `row` stores, its times moved to UTC; or the name of the
/// first of `schedule_time`, `created_at` and `updated_at` that holds no
/// RFC 3339 timestamp.
pub fn upgrade_task_from_row(row: &UpgradeTaskRow) -> (r: Result<AutoUpgradeTask, String>)
    ensures
        match r {
            Ok(t) => {
                &&& rfc3339_as_utc(row.schedule_time@) == Some(t.schedule_time@)
                &&& rfc3339_as_utc(row.created_at@) == Some(t.created_at@)
                &&& rfc3339_as_utc(row.updated_at@) == Some(t.updated_at@)
                &&& t.task_id@ == row.task_id@
                &&& t.task_name@ == row.task_name@
                &&& t.upgrade_type@ == row.upgrade_type@
                &&& opt_view(t.target_version) == text_or_none(row.target_version@)
                &&& t.status@ == row.status@
                &&& t.progress == progress_of(row.progress@)
                &&& opt_view(t.error_message) == text_or_none(row.error_message@)
            },
            Err(column) => if rfc3339_as_utc(row.schedule_time@) is None {
                column@ == "schedule_time"@
            } else if rfc3339_as_utc(row.created_at@) is None {
                column@ == "created_at"@
            } else {
                rfc3339_as_utc(row.updated_at@) is None && column@ == "updated_at"@
            },
        },
{
    let schedule_time = match parse_rfc3339_utc(row.schedule_time.as_str()) {
        Some(t) => t,
        None => return Err(String::from_str("schedule_time")),
    };
    let created_at = match parse_rfc3339_utc(row.created_at.as_str()) {
        Some(t) => t,
        None => return Err(String::from_str("created_at")),
    };
    let updated_at = match parse_rfc3339_utc(row.updated_at.as_str()) {
        Some(t) => t,
        None => return Err(String::from_str("updated_at")),
    };
    let digits = to_chars(row.progress.as_str());
    let progress = if digits.len() == 0 {
        None
    } else {
        parse_i32_chars(&digits)
    };
    Ok(AutoUpgradeTask {
        task_id: row.task_id.clone(),
        task_name: row.task_name.clone(),
        schedule_time,
        upgrade_type: row.upgrade_type.clone(),
        target_version: none_if_empty(&row.target_version),
        status: row.status.clone(),
        progress,
        error_message: none_if_empty(&row.error_message),
        created_at,
        updated_at,
    })
}


/// An upgrade task's optional fields stored in a row and read back are
/// the same: its progress always, its target version and error message
/// unless one is present and empty.
pub proof fn law_task_fields_round_trip(
    target_version: Option<Seq<char>>,
    progress: Option<i32>,
    error_message: Option<Seq<char>>,
)
    requires
        target_version != Some(Seq::<char>::empty()),
        error_message != Some(Seq::<char>::empty()),
    ensures
        text_or_none(stored_text(target_version)) == target_version,
        progress_of(stored_progress(progress)) == progress,
        text_or_none(stored_text(error_message)) == error_message,
{
    if let Some(n) = progress {
        lemma_parse_i32_signed_decimal(n);
        assert(signed_decimal(n as int).len() > 0) by {
            crate::split::lemma_decimal_digits(if n < 0 { (-(n as int)) as nat } else { n as nat });
        }
    }
    if let Some(t) = target_version {
        assert(t.len() > 0) by {
            if t.len() == 0 {
                assert(t =~= Seq::<char>::empty());
            }
        }
    }
    if let Some(t) = error_message {
        assert(t.len() > 0) by {
            if t.len() == 0 {
                assert(t =~= Seq::<char>::empty());
            }
        }
    }
}


/// Law: every value matches the type of its own kind and no other, and a
/// null matches none; so an editable entry accepts any value of its
/// declared kind, a boolean entry any boolean.
pub proof fn law_value_kinds(
    v: ValueView,
    t1: ConfigType,
    t2: ConfigType,
    b: bool,
    text: Seq<char>,
    integer: Option<i64>,
    s: Seq<ItemView>,
    key: Seq<char>,
)
    ensures
        kind_matches(ValueView::Bool(b), ConfigType::Boolean),
        kind_matches(ValueView::String(text), ConfigType::String),
        kind_matches(ValueView::Number { integer, text }, ConfigType::Number),
        kind_matches(ValueView::Array(text), ConfigType::Array),
        kind_matches(ValueView::Object(text), ConfigType::Object),
        !kind_matches(ValueView::Null, t1),
        kind_matches(v, t1) && kind_matches(v, t2) ==> t1 == t2,
        (lookup(s, key) matches Some(it) && it.is_user_editable && it.config_type
            == ConfigType::Boolean) ==> update_check(s, key, ValueView::Bool(b)) is Ok,
{
}

} // verus!
