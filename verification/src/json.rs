//! JSON values, as `serde_json` parses them.

use vstd::prelude::*;

verus! {

/// What a JSON value holds. A number stands as the text that it prints as.
pub enum JsonTree {
    Null,
    Bool(bool),
    Number(Seq<char>),
    Str(Seq<char>),
    Array(Seq<JsonTree>),
    Object(Map<Seq<char>, JsonTree>),
}

impl JsonTree {
    /// The member `key` of an object that has it.
    pub open spec fn member(self, key: Seq<char>) -> Option<JsonTree> {
        match self {
            JsonTree::Object(members) if members.contains_key(key) => Some(members[key]),
            _ => None,
        }
    }

    /// The characters of a string.
    pub open spec fn string(self) -> Option<Seq<char>> {
        match self {
            JsonTree::Str(s) => Some(s),
            _ => None,
        }
    }

    /// The value of a boolean.
    pub open spec fn boolean(self) -> Option<bool> {
        match self {
            JsonTree::Bool(b) => Some(b),
            _ => None,
        }
    }
}

/// The type `serde_json::Value`.
#[verifier::external_type_specification]
#[verifier::external_body]
pub struct ExValue(serde_json::Value);

/// What a `serde_json::Value` holds.
pub uninterp spec fn json_tree(value: serde_json::Value) -> JsonTree;

/// What `serde_json::from_str` makes of a text: the value that it denotes, or `None` where it is
/// not one JSON value.
pub uninterp spec fn json_parsed(text: Seq<char>) -> Option<JsonTree>;

/// The compact text that `to_string` gives of a `serde_json::Value`.
pub uninterp spec fn json_text(tree: JsonTree) -> Seq<char>;

/// The digit for a number below sixteen.
pub open spec fn hex_digit(d: int) -> char {
    "0123456789abcdef"@[d]
}

/// A character as it stands inside a JSON string: quotation marks, backslashes and control
/// characters are escaped.
pub open spec fn escaped(c: char) -> Seq<char> {
    if c == '"' || c == '\\' {
        seq!['\\', c]
    } else if c == '\u{8}' {
        seq!['\\', 'b']
    } else if c == '\t' {
        seq!['\\', 't']
    } else if c == '\n' {
        seq!['\\', 'n']
    } else if c == '\u{c}' {
        seq!['\\', 'f']
    } else if c == '\r' {
        seq!['\\', 'r']
    } else if (c as int) < 32 {
        seq!['\\', 'u', '0', '0', hex_digit(c as int / 16), hex_digit(c as int % 16)]
    } else {
        seq![c]
    }
}

/// Characters as they stand inside a JSON string.
pub open spec fn escaped_text(s: Seq<char>) -> Seq<char>
    decreases s.len(),
{
    if s.len() == 0 {
        seq![]
    } else {
        escaped_text(s.drop_last()) + escaped(s.last())
    }
}

/// Characters as a JSON string.
pub open spec fn quoted(s: Seq<char>) -> Seq<char> {
    seq!['"'] + escaped_text(s) + seq!['"']
}

/// The text of a value that holds no other value.
pub open spec fn scalar_text(tree: JsonTree) -> Option<Seq<char>> {
    match tree {
        JsonTree::Null => Some("null"@),
        JsonTree::Bool(b) => Some(if b {
            "true"@
        } else {
            "false"@
        }),
        JsonTree::Number(text) => Some(text),
        JsonTree::Str(s) => Some(quoted(s)),
        _ => None,
    }
}

/// A value as compact JSON text.
pub open spec fn printed(tree: JsonTree) -> Seq<char> {
    match scalar_text(tree) {
        Some(text) => text,
        None => json_text(tree),
    }
}

/// Characters of which none is a quotation mark, a backslash or a control character stand in a JSON
/// string as they are.
pub proof fn law_plain_text_is_not_escaped(s: Seq<char>)
    requires
        forall|i: int| 0 <= i < s.len() ==> #[trigger] s[i] >= ' ' && s[i] != '"' && s[i] != '\\',
    ensures
        quoted(s) == seq!['"'] + s + seq!['"'],
    decreases s.len(),
{
    if s.len() > 0 {
        let rest = s.drop_last();
        assert forall|i: int| 0 <= i < rest.len() implies #[trigger] rest[i] >= ' ' && rest[i]
            != '"' && rest[i] != '\\' by {
            assert(rest[i] == s[i]);
        }
        law_plain_text_is_not_escaped(rest);
        assert(quoted(rest).subrange(1, quoted(rest).len() - 1) =~= escaped_text(rest));
        assert((seq!['"'] + rest + seq!['"']).subrange(1, rest.len() as int + 1) =~= rest);
        assert(escaped(s.last()) == seq![s.last()]);
        assert(escaped_text(s) =~= s);
    } else {
        assert(escaped_text(s) =~= s);
    }
}

/// Calls `serde_json::from_str`. The value that comes back, or that none does, is fixed by the
/// text alone.
#[verifier::external_body]
fn value_from_str(text: &str) -> (r: Option<serde_json::Value>)
    ensures
        r is Some <==> json_parsed(text@) is Some,
        r matches Some(v) ==> Some(json_tree(v)) == json_parsed(text@),
{
    serde_json::from_str::<serde_json::Value>(text).ok()
}

/// Calls `serde_json::Value::get` with a string index: the member of that name, where the value is
/// an object that has it, and `None` everywhere else.
#[verifier::external_body]
fn value_get<'a>(value: &'a serde_json::Value, key: &str) -> (r: Option<&'a serde_json::Value>)
    ensures
        r is Some <==> json_tree(*value).member(key@) is Some,
        r matches Some(v) ==> Some(json_tree(*v)) == json_tree(*value).member(key@),
{
    value.get(key)
}

/// Calls `serde_json::Value::as_str`: the characters of a string, and `None` for every other value.
#[verifier::external_body]
fn value_as_str(value: &serde_json::Value) -> (r: Option<&str>)
    ensures
        r.deep_view() == json_tree(*value).string(),
{
    value.as_str()
}

/// Calls `serde_json::Value::as_bool`: the value of a boolean, and `None` for every other value.
#[verifier::external_body]
fn value_as_bool(value: &serde_json::Value) -> (r: Option<bool>)
    ensures
        r == json_tree(*value).boolean(),
{
    value.as_bool()
}

/// Calls `to_string` on a `serde_json::Value`, which prints the value as compact JSON: `null`,
/// `true`, `false`, the text of a number, or a string in quotation marks with its escapes. What is
/// printed for an array or an object is fixed by what it holds (members come in the order of their
/// keys, as objects are kept without the crate's feature `preserve_order`), and is not spelt out.
#[verifier::external_body]
fn value_to_string(value: &serde_json::Value) -> (r: String)
    ensures
        r@ == json_text(json_tree(*value)),
        scalar_text(json_tree(*value)) matches Some(text) ==> r@ == text,
{
    value.to_string()
}

/// A JSON value.
pub struct Json {
    value: serde_json::Value,
}

/// A JSON value inside a [`Json`].
#[derive(Clone, Copy)]
pub struct JsonRef<'a> {
    value: &'a serde_json::Value,
}

impl View for Json {
    type V = JsonTree;

    closed spec fn view(&self) -> JsonTree {
        json_tree(self.value)
    }
}

impl DeepView for Json {
    type V = JsonTree;

    open spec fn deep_view(&self) -> JsonTree {
        self@
    }
}

impl<'a> View for JsonRef<'a> {
    type V = JsonTree;

    closed spec fn view(&self) -> JsonTree {
        json_tree(*self.value)
    }
}

impl<'a> DeepView for JsonRef<'a> {
    type V = JsonTree;

    open spec fn deep_view(&self) -> JsonTree {
        self@
    }
}

impl Json {
    /// Parses one JSON value. `None` where `text` is not one.
    pub fn parse(text: &str) -> (r: Option<Json>)
        ensures
            r.deep_view() == json_parsed(text@),
    {
        match value_from_str(text) {
            Some(value) => Some(Json { value }),
            None => None,
        }
    }

    /// The value itself, to walk from.
    pub fn root(&self) -> (r: JsonRef<'_>)
        ensures
            r@ == self@,
    {
        JsonRef { value: &self.value }
    }
}

impl<'a> JsonRef<'a> {
    /// The member `key`, where the value is an object that has it.
    pub fn get(&self, key: &str) -> (r: Option<JsonRef<'a>>)
        ensures
            r.deep_view() == self@.member(key@),
    {
        match value_get(self.value, key) {
            Some(value) => Some(JsonRef { value }),
            None => None,
        }
    }

    /// The characters of a string.
    pub fn as_str(&self) -> (r: Option<&'a str>)
        ensures
            r.deep_view() == self@.string(),
    {
        value_as_str(self.value)
    }

    /// The value of a boolean.
    pub fn as_bool(&self) -> (r: Option<bool>)
        ensures
            r == self@.boolean(),
    {
        value_as_bool(self.value)
    }

    /// The value as compact JSON text.
    pub fn to_text(&self) -> (r: String)
        ensures
            r@ == printed(self@),
    {
        value_to_string(self.value)
    }
}

/// The member `key` of a value that may be missing.
pub open spec fn member_at(value: Option<JsonTree>, key: Seq<char>) -> Option<JsonTree> {
    match value {
        Some(v) => v.member(key),
        None => None,
    }
}

/// The member `key` of a value that may be missing, where that member is a string.
pub open spec fn str_at(value: Option<JsonTree>, key: Seq<char>) -> Option<Seq<char>> {
    match member_at(value, key) {
        Some(v) => v.string(),
        None => None,
    }
}

/// The member `key` of a value that may be missing, where that member is a boolean.
pub open spec fn bool_at(value: Option<JsonTree>, key: Seq<char>) -> Option<bool> {
    match member_at(value, key) {
        Some(v) => v.boolean(),
        None => None,
    }
}

/// The member `key` of a value that may be missing.
pub fn get_member<'a>(value: Option<JsonRef<'a>>, key: &str) -> (r: Option<JsonRef<'a>>)
    ensures
        r.deep_view() == member_at(value.deep_view(), key@),
{
    match value {
        Some(v) => v.get(key),
        None => None,
    }
}

/// The member `key` of a value that may be missing, where that member is a string.
pub fn get_str<'a>(value: Option<JsonRef<'a>>, key: &str) -> (r: Option<&'a str>)
    ensures
        r.deep_view() == str_at(value.deep_view(), key@),
{
    match get_member(value, key) {
        Some(v) => v.as_str(),
        None => None,
    }
}

/// The member `key` of a value that may be missing, where that member is a boolean.
pub fn get_bool<'a>(value: Option<JsonRef<'a>>, key: &str) -> (r: Option<bool>)
    ensures
        r == bool_at(value.deep_view(), key@),
{
    match get_member(value, key) {
        Some(v) => v.as_bool(),
        None => None,
    }
}

/// Whether `v` is an object whose member `key` is `value`.
pub open spec fn has_member(v: JsonTree, key: Seq<char>, value: JsonTree) -> bool {
    v matches JsonTree::Object(members) && members.contains_key(key) && members[key] == value
}

/// Looking up a member finds exactly the member of that name, and as a string or a boolean only
/// where it is one, with its value unchanged.
pub proof fn law_lookup_finds_the_member(
    value: Option<JsonRef<'_>>,
    key: &str,
    member: Option<JsonRef<'_>>,
    text: Option<&str>,
    flag: Option<bool>,
)
    requires
        call_ensures(get_member, (value, key), member),
        call_ensures(get_str, (value, key), text),
        call_ensures(get_bool, (value, key), flag),
    ensures
        value is None ==> member is None && text is None && flag is None,
        value matches Some(v) ==> {
            &&& forall|m: JsonTree| #[trigger]
                has_member(v@, key@, m) <==> member.deep_view() == Some(m)
            &&& forall|t: Seq<char>| #[trigger]
                has_member(v@, key@, JsonTree::Str(t)) <==> text.deep_view() == Some(t)
            &&& forall|b: bool| #[trigger]
                has_member(v@, key@, JsonTree::Bool(b)) <==> flag == Some(b)
        },
{
    assert(value.deep_view() is None <==> value is None);
}

/// A value that holds no other prints as the word, number or string that it is: a string in
/// quotation marks, with its characters as they are where none of them needs an escape, and with a
/// backslash before a quotation mark, a backslash or a line feed.
pub proof fn law_text_of_scalars(v: JsonRef<'_>, s: Seq<char>, r: String)
    requires
        call_ensures(JsonRef::to_text, (&v,), r),
    ensures
        v@ is Null ==> r@ == "null"@,
        v@ == JsonTree::Bool(true) ==> r@ == "true"@,
        v@ == JsonTree::Bool(false) ==> r@ == "false"@,
        v@ == JsonTree::Number(s) ==> r@ == s,
        v@ == JsonTree::Str(s) && (forall|i: int|
            0 <= i < s.len() ==> #[trigger] s[i] >= ' ' && s[i] != '"' && s[i] != '\\') ==> r@
            == seq!['"'] + s + seq!['"'],
        v@ == JsonTree::Str(seq!['"']) ==> r@ == seq!['"', '\\', '"', '"'],
        v@ == JsonTree::Str(seq!['\\']) ==> r@ == seq!['"', '\\', '\\', '"'],
        v@ == JsonTree::Str(seq!['\n']) ==> r@ == seq!['"', '\\', 'n', '"'],
        v@ is Array || v@ is Object ==> r@ == json_text(v@),
        r@ == printed(v@),
{
    if forall|i: int|
        0 <= i < s.len() ==> #[trigger] s[i] >= ' ' && s[i] != '"' && s[i] != '\\' {
        law_plain_text_is_not_escaped(s);
    }
    lemma_quoted_one('"');
    lemma_quoted_one('\\');
    lemma_quoted_one('\n');
}

proof fn lemma_quoted_one(c: char)
    ensures
        quoted(seq![c]) == seq!['"'] + escaped(c) + seq!['"'],
{
    let s = seq![c];
    assert(s.drop_last() =~= Seq::<char>::empty());
    assert(escaped_text(s.drop_last()) =~= Seq::<char>::empty());
    assert(escaped_text(s) =~= escaped(c));
}

/// What stands in a JSON string for two texts one after the other is what stands for each of them.
pub proof fn law_escaping_goes_by_character(a: Seq<char>, b: Seq<char>)
    ensures
        escaped_text(a + b) == escaped_text(a) + escaped_text(b),
    decreases b.len(),
{
    if b.len() == 0 {
        assert(a + b =~= a);
        assert(escaped_text(a + b) =~= escaped_text(a) + escaped_text(b));
    } else {
        law_escaping_goes_by_character(a, b.drop_last());
        assert((a + b).drop_last() =~= a + b.drop_last());
        assert((a + b).last() == b.last());
        assert(escaped_text(a + b) =~= escaped_text(a) + escaped_text(b));
    }
}

/// Parsing gives the value that the text denotes, and nothing where it denotes none; the value is
/// walked from as it is.
pub proof fn law_parsed_value_is_the_text_read(
    text: &str,
    parsed: Option<Json>,
    json: Json,
    root: JsonRef<'_>,
)
    requires
        call_ensures(Json::parse, (text,), parsed),
        call_ensures(Json::root, (&json,), root),
    ensures
        parsed is None <==> json_parsed(text@) is None,
        parsed == Some(json) ==> json_parsed(text@) == Some(root@),
{
    assert(parsed.deep_view() is None <==> parsed is None);
}

} // verus!
