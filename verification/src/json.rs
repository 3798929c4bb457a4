//! JSON documents: parsing text into a document and writing a string as a
//! JSON string literal, both done by serde_json, and a document as a tree of
//! plain values, for code that has to look inside one.

use serde_json::Value;
use vstd::prelude::*;

verus! {

/// serde_json's value type: a document, carried as it is. What it holds is
/// spoken of through `json_document` alone.
#[verifier::external_type_specification]
#[verifier::external_body]
pub struct ExValue(Value);

/// What a JSON value holds: the document, as its compact text.
pub uninterp spec fn json_document(v: Value) -> Seq<char>;

/// A JSON document, held as a tree of the library's own values. Texts are
/// held character by character.
#[derive(Debug)]
pub enum Json {
    Null,
    Bool(bool),
    /// A number, as the text that writes it.
    Number(Vec<char>),
    Text(Vec<char>),
    Array(Vec<Json>),
    /// The members, each with its name; no name stands twice.
    Object(Vec<(Vec<char>, Json)>),
}

/// The tree of the document whose compact text is `document`.
pub uninterp spec fn document_tree(document: Seq<char>) -> Json;

/// What parsing `text` as one JSON document gives: the document, as its
/// compact text, or else the parser's complaint in its two forms, the message
/// first and the diagnostic form second.
pub uninterp spec fn json_parse(text: Seq<char>) -> Result<Seq<char>, (Seq<char>, Seq<char>)>;

/// The number of the character `c`, for a character of one byte.
pub open spec fn code_point(c: char) -> int {
    c as u8 as int
}

/// How many times sixteen goes into the number of `c`.
pub open spec fn high_nibble(c: char) -> int {
    code_point(c) / 16
}

/// What is left of the number of `c` when the sixteens are taken away.
pub open spec fn low_nibble(c: char) -> int {
    code_point(c) - 16 * high_nibble(c)
}

/// The hexadecimal digit for `n`, in lower case.
pub open spec fn hex_digit(n: int) -> char {
    "0123456789abcdef"@[n]
}

/// How the character `c` stands inside a JSON string literal: the quotation
/// mark and the reverse solidus behind a reverse solidus, a control character
/// below the space by its short escape where it has one and else as `\u00`
/// and two hexadecimal digits, any other character as it is.
pub open spec fn escaped(c: char) -> Seq<char> {
    if c == '"' {
        seq!['\\', '"']
    } else if c == '\\' {
        seq!['\\', '\\']
    } else if c == '\u{8}' {
        seq!['\\', 'b']
    } else if c == '\t' {
        seq!['\\', 't']
    } else if c == '\n' {
        seq!['\\', 'n']
    } else if c == '\u{c}' {
        seq!['\\', 'f']
    } else if c == '\r' {
        seq!['\\', 'r']
    } else if ' ' > c {
        seq!['\\', 'u', '0', '0', hex_digit(high_nibble(c)), hex_digit(low_nibble(c))]
    } else {
        seq![c]
    }
}

/// The characters of `s`, each as it stands inside a JSON string literal.
pub open spec fn escaped_text(s: Seq<char>) -> Seq<char>
    decreases s.len(),
{
    if s.len() == 0 {
        Seq::empty()
    } else {
        escaped_text(s.drop_last()) + escaped(s.last())
    }
}

/// The JSON string literal for `s`: its characters, escaped, between two
/// quotation marks.
pub open spec fn json_string(s: Seq<char>) -> Seq<char> {
    seq!['"'] + escaped_text(s) + seq!['"']
}

/// Whether `s` holds no control character below the space, so no line feed
/// and no tab.
pub open spec fn is_plain(s: Seq<char>) -> bool {
    forall|i: int| 0 <= i < s.len() ==> #[trigger] s[i] >= ' '
}

/// No character is written with a control character.
pub proof fn lemma_escaped_is_plain(c: char)
    ensures
        is_plain(escaped(c)),
{
    reveal_strlit("0123456789abcdef");
    if ' ' > c {
        assert(0 <= high_nibble(c) < 2 && 0 <= low_nibble(c) < 16);
        assert(hex_digit(high_nibble(c)) >= ' ');
        assert(hex_digit(low_nibble(c)) >= ' ');
    }
}

/// A JSON string literal holds no control character, whatever the text it
/// stands for.
pub proof fn lemma_json_string_is_plain(s: Seq<char>)
    ensures
        is_plain(escaped_text(s)),
        is_plain(json_string(s)),
    decreases s.len(),
{
    if s.len() > 0 {
        lemma_json_string_is_plain(s.drop_last());
        lemma_escaped_is_plain(s.last());
    }
}

/// Why a text is no JSON document.
#[derive(Debug)]
pub struct SyntaxError {
    /// The parser's message, with the line and column where it stopped.
    pub message: String,
    /// The same complaint in the parser's diagnostic form.
    pub detail: String,
}

impl View for SyntaxError {
    type V = (Seq<char>, Seq<char>);

    open spec fn view(&self) -> (Seq<char>, Seq<char>) {
        (self.message@, self.detail@)
    }
}

impl Clone for SyntaxError {
    fn clone(&self) -> (r: Self)
        ensures
            r@ == self@,
    {
        SyntaxError { message: self.message.clone(), detail: self.detail.clone() }
    }
}

/// `serde_json::from_str::<Value>`: the outcome is a function of the text
/// alone. On failure the error is kept as the two texts that its `Display`
/// and `Debug` impls write.
#[verifier::external_body]
pub(crate) fn from_text(text: &str) -> (r: Result<Value, SyntaxError>)
    ensures
        match r {
            Ok(v) => json_parse(text@) == Ok::<Seq<char>, (Seq<char>, Seq<char>)>(
                json_document(v),
            ),
            Err(e) => json_parse(text@) == Err::<Seq<char>, (Seq<char>, Seq<char>)>(e@),
        },
{
    match serde_json::from_str::<Value>(text) {
        Ok(v) => Ok(v),
        Err(e) => Err(SyntaxError { message: e.to_string(), detail: format!("{:?}", e) }),
    }
}

/// A `serde_json::Value` taken apart, variant by variant: the tree is the
/// one that the value's compact text writes. Members come in the order in
/// which the value's map holds them, a number as its `Display` text, and
/// every text as its characters.
#[verifier::external_body]
pub(crate) fn to_tree(v: &Value) -> (r: Json)
    ensures
        r == document_tree(json_document(*v)),
{
    match v {
        Value::Null => Json::Null,
        Value::Bool(b) => Json::Bool(*b),
        Value::Number(n) => Json::Number(n.to_string().chars().collect()),
        Value::String(s) => Json::Text(s.chars().collect()),
        Value::Array(items) => Json::Array(items.iter().map(to_tree).collect()),
        Value::Object(members) => Json::Object(
            members.iter().map(|(name, value)| (name.chars().collect(), to_tree(value))).collect(),
        ),
    }
}

/// `serde_json::to_string` on a string slice: the JSON string literal for it,
/// escaped by serde_json's table, which `escaped` states. Writing a string
/// into memory has no failure of its own, so the result is always there.
#[verifier::external_body]
pub(crate) fn quote(s: &str) -> (r: String)
    ensures
        r@ == json_string(s@),
{
    serde_json::to_string(s).expect("a string always has a JSON literal")
}

/// The document that `v` holds, as a tree.
pub fn tree_of(v: &Value) -> (r: Json)
    ensures
        r == document_tree(json_document(*v)),
{
    to_tree(v)
}

/// Parses the schema document that the configuration holds as text.
///
/// The document comes back exactly when the text is JSON; otherwise the
/// parser's message does.
pub fn parse_json_schema(schema_str: &str) -> (r: Result<Value, String>)
    ensures
        match json_parse(schema_str@) {
            Ok(doc) => r is Ok && json_document(r->Ok_0) == doc,
            Err(e) => r is Err && r->Err_0@ == e.0,
        },
{
    match from_text(schema_str) {
        Ok(schema) => Ok(schema),
        Err(e) => Err(e.message),
    }
}

} // verus!
