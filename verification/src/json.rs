//! JSON values, carried as compact text, and TOML documents as JSON values.

use vstd::prelude::*;

verus! {

/// What `serde_json::from_str` reads from a text: the value in compact text
/// form, or the message of the error.
pub uninterp spec fn json_parsed(text: Seq<char>) -> Result<Seq<char>, Seq<char>>;

/// A hexadecimal digit, in lower case.
pub open spec fn hex_digit(n: int) -> char {
    if n < 10 {
        ('0' as int + n) as char
    } else {
        ('a' as int + n - 10) as char
    }
}

/// What stands for a character in a JSON string literal: quotes, backslashes and
/// control characters are escaped, all others stand for themselves.
pub open spec fn json_escaped(c: char) -> Seq<char> {
    if c == '"' || c == '\\' {
        seq!['\\', c]
    } else if c == '\u{8}' {
        seq!['\\', 'b']
    } else if c == '\u{9}' {
        seq!['\\', 't']
    } else if c == '\u{a}' {
        seq!['\\', 'n']
    } else if c == '\u{c}' {
        seq!['\\', 'f']
    } else if c == '\u{d}' {
        seq!['\\', 'r']
    } else if c as int <= 0x1f {
        seq!['\\', 'u', '0', '0', hex_digit(c as int / 16), hex_digit(c as int % 16)]
    } else {
        seq![c]
    }
}

/// The characters of a text as they stand in a JSON string literal.
pub open spec fn json_contents(text: Seq<char>) -> Seq<char>
    decreases text.len(),
{
    if text.len() == 0 {
        Seq::empty()
    } else {
        json_contents(text.drop_last()) + json_escaped(text.last())
    }
}

/// The JSON string literal for a text.
pub open spec fn json_quoted(text: Seq<char>) -> Seq<char> {
    seq!['"'] + json_contents(text) + seq!['"']
}

/// The member that `serde_json::Value::get` finds under a key, in compact text
/// form; `None` if the value is no object or has no such member.
pub uninterp spec fn json_member(text: Seq<char>, key: Seq<char>) -> Option<Seq<char>>;

/// What `serde_json::Value::as_str` says of a value: the text it holds, if it is
/// a string.
pub uninterp spec fn json_held_text(text: Seq<char>) -> Option<Seq<char>>;

/// What `serde_json::Value::as_u64` says of a value: the number it holds, if it
/// is an unsigned integer that fits.
pub uninterp spec fn json_held_number(text: Seq<char>) -> Option<u64>;

/// What `serde_json::Value::is_object` says of a value.
pub uninterp spec fn json_is_object(text: Seq<char>) -> bool;

/// Calls `serde_json::from_str` for a `Value`, and writes the value as compact
/// text or the error as its message. The result, named `json_parsed`, depends on
/// the text alone.
#[verifier::external_body]
fn read_json(text: &str) -> (r: Result<String, String>)
    ensures
        match r {
            Ok(value) => json_parsed(text@) == Ok::<Seq<char>, Seq<char>>(value@),
            Err(message) => json_parsed(text@) == Err::<Seq<char>, Seq<char>>(message@),
        },
{
    let value: Result<serde_json::Value, serde_json::Error> = serde_json::from_str(text);
    value.map(|v| v.to_string()).map_err(|e| e.to_string())
}

/// Calls the `Display` of `serde_json::Value` on a string value, which writes it
/// as a quoted literal with quotes, backslashes and control characters escaped. The
/// literal parses, and is compact.
#[verifier::external_body]
fn write_json_string(text: &str) -> (r: String)
    ensures
        r@ == json_quoted(text@),
        json_parsed(r@) == Ok::<Seq<char>, Seq<char>>(r@),
{
    serde_json::Value::from(text).to_string()
}

/// Calls `serde_json::Value::get` with a key on the value that a text holds, and
/// writes the member as compact text. The result, named `json_member`, depends on
/// the text and the key alone; a text that holds no value has no members.
#[verifier::external_body]
fn find_member(text: &str, key: &str) -> (r: Option<String>)
    ensures
        match r {
            Some(member) => json_member(text@, key@) == Some(member@),
            None => json_member(text@, key@) is None,
        },
{
    let value: Option<serde_json::Value> = serde_json::from_str(text).ok();
    value.as_ref().and_then(|v| v.get(key)).map(|v| v.to_string())
}

/// Calls `serde_json::Value::as_str` on the value that a text holds. The result,
/// named `json_held_text`, depends on the text alone.
#[verifier::external_body]
fn find_text(text: &str) -> (r: Option<String>)
    ensures
        match r {
            Some(held) => json_held_text(text@) == Some(held@),
            None => json_held_text(text@) is None,
        },
{
    let value: Option<serde_json::Value> = serde_json::from_str(text).ok();
    value.as_ref().and_then(|v| v.as_str()).map(|t| t.to_owned())
}

/// Calls `serde_json::Value::as_u64` on the value that a text holds. The result,
/// named `json_held_number`, depends on the text alone.
#[verifier::external_body]
fn find_number(text: &str) -> (r: Option<u64>)
    ensures
        r == json_held_number(text@),
{
    let value: Option<serde_json::Value> = serde_json::from_str(text).ok();
    value.as_ref().and_then(|v| v.as_u64())
}

/// Calls `serde_json::Value::is_object` on the value that a text holds. The
/// result, named `json_is_object`, depends on the text alone.
#[verifier::external_body]
fn find_object(text: &str) -> (r: bool)
    ensures
        r == json_is_object(text@),
{
    let value: Option<serde_json::Value> = serde_json::from_str(text).ok();
    value.as_ref().is_some_and(|v| v.is_object())
}

/// The message of the error that `toml::from_str` gives for a TOML document; `None`
/// if it can be read.
pub uninterp spec fn toml_error(text: Seq<char>) -> Option<Seq<char>>;

/// What `serde_json::Value::pointer` finds in the value that `toml::from_str` reads
/// from a TOML document, in compact text form.
pub uninterp spec fn toml_at(text: Seq<char>, pointer: Seq<char>) -> Option<Seq<char>>;

/// Whether there is a value at a pointer into a TOML document of which
/// `serde_json::Value::is_object` says that it is an object.
pub uninterp spec fn toml_object_at(text: Seq<char>, pointer: Seq<char>) -> bool;

/// Whether there is a value at a pointer into a TOML document of which
/// `serde_json::Value::is_array` says that it is an array.
pub uninterp spec fn toml_array_at(text: Seq<char>, pointer: Seq<char>) -> bool;

/// Calls `toml::from_str` for a `serde_json::Value`, and hands out the message of
/// its error. The result, named `toml_error`, depends on the text alone.
#[verifier::external_body]
fn check_toml(text: &str) -> (r: Option<String>)
    ensures
        match r {
            Some(message) => toml_error(text@) == Some(message@),
            None => toml_error(text@) is None,
        },
{
    let value: Result<serde_json::Value, toml::de::Error> = toml::from_str(text);
    value.err().map(|e| e.to_string())
}

/// Calls `serde_json::Value::pointer` on the value that `toml::from_str` reads, and
/// writes what it finds as compact text. The result, named `toml_at`, depends on
/// the text and the pointer alone; a text that cannot be read holds nothing.
#[verifier::external_body]
fn find_in_toml(text: &str, pointer: &str) -> (r: Option<String>)
    ensures
        match r {
            Some(value) => toml_at(text@, pointer@) == Some(value@),
            None => toml_at(text@, pointer@) is None,
        },
{
    let value: Option<serde_json::Value> = toml::from_str(text).ok();
    value.as_ref().and_then(|v| v.pointer(pointer)).map(|v| v.to_string())
}

/// Calls `serde_json::Value::is_object` on what `serde_json::Value::pointer` finds
/// in the value that `toml::from_str` reads. The result, named `toml_object_at`,
/// depends on the text and the pointer alone; it is false where nothing is found.
#[verifier::external_body]
fn find_object_in_toml(text: &str, pointer: &str) -> (r: bool)
    ensures
        r == toml_object_at(text@, pointer@),
{
    let value: Option<serde_json::Value> = toml::from_str(text).ok();
    value.as_ref().and_then(|v| v.pointer(pointer)).is_some_and(|v| v.is_object())
}

/// Calls `serde_json::Value::is_array` on what `serde_json::Value::pointer` finds
/// in the value that `toml::from_str` reads. The result, named `toml_array_at`,
/// depends on the text and the pointer alone; it is false where nothing is found.
#[verifier::external_body]
fn find_array_in_toml(text: &str, pointer: &str) -> (r: bool)
    ensures
        r == toml_array_at(text@, pointer@),
{
    let value: Option<serde_json::Value> = toml::from_str(text).ok();
    value.as_ref().and_then(|v| v.pointer(pointer)).is_some_and(|v| v.is_array())
}

/// A TOML document that can be read. A place in it is a JSON pointer: `/limits/0`
/// is the first element of `limits`.
#[derive(Debug)]
pub struct TomlDocument {
    text: String,
}

impl View for TomlDocument {
    type V = Seq<char>;

    closed spec fn view(&self) -> Seq<char> {
        self.text@
    }
}

impl TomlDocument {
    /// Takes a document; the error is the parser's message.
    pub fn parse(text: &str) -> (r: Result<TomlDocument, String>)
        ensures
            match r {
                Ok(document) => toml_error(text@) is None && document@ == text@,
                Err(message) => toml_error(text@) == Some(message@),
            },
    {
        match check_toml(text) {
            Some(message) => Err(message),
            None => Ok(TomlDocument { text: text.to_owned() }),
        }
    }

    /// The value at a place.
    pub fn at(&self, pointer: &str) -> (r: Option<Json>)
        ensures
            match r {
                Some(value) => toml_at(self@, pointer@) == Some(value@),
                None => toml_at(self@, pointer@) is None,
            },
    {
        match find_in_toml(self.text.as_str(), pointer) {
            Some(text) => Some(Json { text }),
            None => None,
        }
    }

    /// Whether a table stands at a place.
    pub fn is_table_at(&self, pointer: &str) -> (r: bool)
        ensures
            r == toml_object_at(self@, pointer@),
    {
        find_object_in_toml(self.text.as_str(), pointer)
    }

    /// Whether a list stands at a place.
    pub fn is_list_at(&self, pointer: &str) -> (r: bool)
        ensures
            r == toml_array_at(self@, pointer@),
    {
        find_array_in_toml(self.text.as_str(), pointer)
    }
}

/// A JSON value in compact text form.
#[derive(Debug)]
pub struct Json {
    text: String,
}

impl View for Json {
    type V = Seq<char>;

    closed spec fn view(&self) -> Seq<char> {
        self.text@
    }
}

impl Clone for Json {
    fn clone(&self) -> (r: Json)
        ensures
            r == *self,
    {
        Json { text: self.text.clone() }
    }
}

impl Json {
    /// Reads a value; the error is the parser's message.
    pub fn parse(text: &str) -> (r: Result<Json, String>)
        ensures
            match r {
                Ok(value) => json_parsed(text@) == Ok::<Seq<char>, Seq<char>>(value@),
                Err(message) => json_parsed(text@) == Err::<Seq<char>, Seq<char>>(message@),
            },
    {
        match read_json(text) {
            Ok(text) => Ok(Json { text }),
            Err(message) => Err(message),
        }
    }

    /// The member of an object under a key.
    pub fn member(&self, key: &str) -> (r: Option<Json>)
        ensures
            match r {
                Some(member) => json_member(self@, key@) == Some(member@),
                None => json_member(self@, key@) is None,
            },
    {
        match find_member(self.text.as_str(), key) {
            Some(text) => Some(Json { text }),
            None => None,
        }
    }

    /// The text of a string value.
    pub fn held_text(&self) -> (r: Option<String>)
        ensures
            match r {
                Some(held) => json_held_text(self@) == Some(held@),
                None => json_held_text(self@) is None,
            },
    {
        find_text(self.text.as_str())
    }

    /// The number of an unsigned integer value.
    pub fn held_number(&self) -> (r: Option<u64>)
        ensures
            r == json_held_number(self@),
    {
        find_number(self.text.as_str())
    }

    /// Whether the value is an object.
    pub fn is_object(&self) -> (r: bool)
        ensures
            r == json_is_object(self@),
    {
        find_object(self.text.as_str())
    }

    /// The value `null`.
    pub fn null() -> (r: Json)
        ensures
            r@ == "null"@,
    {
        Json { text: "null".to_owned() }
    }

    /// The schema of an arbitrary object.
    pub fn object_schema() -> (r: Json)
        ensures
            r@ == "{\"type\":\"object\"}"@,
    {
        Json { text: "{\"type\":\"object\"}".to_owned() }
    }

    /// A string value.
    pub fn string(text: &str) -> (r: Json)
        ensures
            r@ == json_quoted(text@),
            json_parsed(r@) == Ok::<Seq<char>, Seq<char>>(r@),
    {
        Json { text: write_json_string(text) }
    }

    /// The compact text of the value.
    pub fn as_str(&self) -> (r: &str)
        ensures
            r@ == self@,
    {
        self.text.as_str()
    }
}

/// A string literal is the text between quotes, one character after the other. No
/// control character stands in it, and a text of which nothing has to be escaped
/// stands in it as it is.
pub proof fn law_literals_hold_the_text(text: Seq<char>, c: char, i: int)
    ensures
        json_quoted(text).len() >= 2,
        json_quoted(text)[0] == '"',
        json_quoted(text).last() == '"',
        json_contents(text.push(c)) == json_contents(text) + json_escaped(c),
        0 <= i < json_quoted(text).len() ==> json_quoted(text)[i] as int >= 0x20,
        (forall|k: int|
            0 <= k < text.len() ==> (#[trigger] text[k]) as int >= 0x20 && text[k] != '"' && text[k]
                != '\\') ==> json_quoted(text) == seq!['"'] + text + seq!['"'],
{
    assert(text.push(c).drop_last() =~= text);
    lemma_contents(text);
    let all = json_quoted(text);
    if 0 < i < all.len() - 1 {
        assert(all[i] == json_contents(text)[i - 1]);
    }
}

proof fn lemma_escaped(c: char, j: int)
    requires
        0 <= j < json_escaped(c).len(),
    ensures
        json_escaped(c)[j] as int >= 0x20,
{
    assert(forall|n: int| 0 <= n < 16 ==> (#[trigger] hex_digit(n)) as int >= 0x20);
    let escape = json_escaped(c);
    if escape.len() == 6 {
        assert(0 <= c as int / 16 < 16);
        assert(0 <= c as int % 16 < 16);
        assert(j == 0 || j == 1 || j == 2 || j == 3 || j == 4 || j == 5);
    } else {
        assert(j == 0 || j == 1);
    }
}

proof fn lemma_contents(text: Seq<char>)
    ensures
        forall|i: int|
            0 <= i < json_contents(text).len() ==> (#[trigger] json_contents(text)[i]) as int
                >= 0x20,
        (forall|k: int|
            0 <= k < text.len() ==> (#[trigger] text[k]) as int >= 0x20 && text[k] != '"' && text[k]
                != '\\') ==> json_contents(text) == text,
    decreases text.len(),
{
    if text.len() > 0 {
        let init = text.drop_last();
        let c = text.last();
        lemma_contents(init);
        let before = json_contents(init);
        let escape = json_escaped(c);
        assert forall|i: int| 0 <= i < json_contents(text).len() implies (
        #[trigger] json_contents(text)[i]) as int >= 0x20 by {
            if i < before.len() {
                assert(json_contents(text)[i] == before[i]);
            } else {
                lemma_escaped(c, i - before.len());
                assert(json_contents(text)[i] == escape[i - before.len()]);
            }
        }
        if forall|k: int|
            0 <= k < text.len() ==> (#[trigger] text[k]) as int >= 0x20 && text[k] != '"' && text[k]
                != '\\' {
            assert(forall|k: int| 0 <= k < init.len() ==> init[k] == text[k]);
            assert(text[text.len() - 1] == c);
            assert(before == init);
            assert(init + seq![c] =~= text);
        }
    }
}

/// Quotes and backslashes are escaped by a backslash, and every control character by
/// one too.
pub proof fn law_special_characters_are_escaped(c: char)
    ensures
        json_escaped(c).len() > 1 <==> c == '"' || c == '\\' || (c as int) < 0x20,
        json_escaped(c).len() > 1 ==> json_escaped(c)[0] == '\\',
        json_escaped(c).len() == 1 ==> json_escaped(c)[0] == c,
        c == '"' || c == '\\' ==> json_escaped(c)[1] == c,
{
}

} // verus!
