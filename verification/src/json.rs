//! Flat JSON objects, in which key material is stored.

use serde_json::Map as JsonMap;
use serde_json::Value;
use vstd::prelude::*;

verus! {

/// A value in a JSON object, as far as key material uses it.
pub enum Json {
    /// There is no such member.
    Missing,
    /// The value `null`.
    Null,
    /// The value `true` or `false`.
    Flag(bool),
    /// A string.
    Text(String),
    /// A number, an array or an object.
    Other,
}

/// What a [`Json`] value holds.
pub enum JsonModel {
    Missing,
    Null,
    Flag(bool),
    Text(Seq<char>),
    Other,
}

impl View for Json {
    type V = JsonModel;

    open spec fn view(&self) -> JsonModel {
        match self {
            Json::Missing => JsonModel::Missing,
            Json::Null => JsonModel::Null,
            Json::Flag(flag) => JsonModel::Flag(*flag),
            Json::Text(text) => JsonModel::Text(text@),
            Json::Other => JsonModel::Other,
        }
    }
}

/// The members of an object, in the order in which they are written.
pub type Members = Seq<(Seq<char>, JsonModel)>;

/// The values of an object by key. Where a key occurs more than once, the last occurrence counts.
pub open spec fn as_object(members: Members) -> Map<Seq<char>, JsonModel>
    decreases members.len(),
{
    if members.len() == 0 {
        Map::empty()
    } else {
        as_object(members.drop_last()).insert(members.last().0, members.last().1)
    }
}

/// The value that an object has for a key.
pub open spec fn member(object: Map<Seq<char>, JsonModel>, key: Seq<char>) -> JsonModel {
    if object.contains_key(key) {
        object[key]
    } else {
        JsonModel::Missing
    }
}

/// The lowercase hexadecimal digit for a number below sixteen.
pub open spec fn hex_digit(n: int) -> char {
    if n < 10 {
        ('0' as int + n) as char
    } else {
        ('a' as int + n - 10) as char
    }
}

/// How a character is written inside a JSON string.
pub open spec fn escaped(c: char) -> Seq<char> {
    if c == '"' || c == '\\' {
        seq!['\\', c]
    } else if c as int == 8 {
        seq!['\\', 'b']
    } else if c as int == 9 {
        seq!['\\', 't']
    } else if c as int == 10 {
        seq!['\\', 'n']
    } else if c as int == 12 {
        seq!['\\', 'f']
    } else if c as int == 13 {
        seq!['\\', 'r']
    } else if (c as int) < 32 {
        seq!['\\', 'u', '0', '0', hex_digit(c as int / 16), hex_digit(c as int % 16)]
    } else {
        seq![c]
    }
}

/// The characters of `text`, each written as in a JSON string.
pub open spec fn all_escaped(text: Seq<char>) -> Seq<char>
    decreases text.len(),
{
    if text.len() == 0 {
        Seq::empty()
    } else {
        all_escaped(text.drop_last()) + escaped(text.last())
    }
}

/// `text` as a JSON string.
pub open spec fn quoted(text: Seq<char>) -> Seq<char> {
    (seq!['"'] + all_escaped(text)).push('"')
}

/// Whether a value is a flag or a string.
pub open spec fn is_plain(value: JsonModel) -> bool {
    value is Flag || value is Text
}

/// A flag or string as JSON.
pub open spec fn value_text(value: JsonModel) -> Seq<char> {
    match value {
        JsonModel::Flag(true) => "true"@,
        JsonModel::Flag(false) => "false"@,
        JsonModel::Text(text) => quoted(text),
        _ => "null"@,
    }
}

/// The members as JSON, separated by commas.
pub open spec fn members_text(members: Members) -> Seq<char>
    decreases members.len(),
{
    if members.len() == 0 {
        Seq::empty()
    } else {
        let separator: Seq<char> = if members.len() == 1 {
            Seq::empty()
        } else {
            seq![',']
        };
        members_text(members.drop_last()) + separator + quoted(members.last().0).push(':')
            + value_text(members.last().1)
    }
}

/// An object with these members as JSON, without whitespace.
pub open spec fn object_text(members: Members) -> Seq<char> {
    (seq!['{'] + members_text(members)).push('}')
}

/// Whether each member is a flag or a string.
pub open spec fn all_plain(members: Members) -> bool {
    forall|i: int| 0 <= i < members.len() ==> is_plain((#[trigger] members[i]).1)
}

fn hex_digit_char(n: u32) -> (r: char)
    requires
        n < 16,
    ensures
        r == hex_digit(n as int),
{
    if n < 10 {
        (48u8 + n as u8) as char
    } else {
        (87u8 + n as u8) as char
    }
}

fn code_point(c: char) -> (r: u32)
    ensures
        r == c as int,
{
    c as u32
}

/// Appends `text` to `out` as a JSON string.
fn push_quoted(out: &mut String, text: &str)
    ensures
        final(out)@ == old(out)@ + quoted(text@),
{
    let ghost before = out@;
    out.push('"');
    assert(text@.take(0) =~= Seq::<char>::empty());
    for c in it: text.chars()
        invariant
            it.seq() == text@,
            out@ =~= before + (seq!['"'] + all_escaped(text@.take(it.index()))),
    {
        assert(text@.take(it.index() + 1).drop_last() =~= text@.take(it.index()));
        let ghost so_far = out@;
        let code: u32 = code_point(c);
        if c == '"' || c == '\\' {
            out.push('\\');
            out.push(c);
        } else if code == 8 {
            out.push('\\');
            out.push('b');
        } else if code == 9 {
            out.push('\\');
            out.push('t');
        } else if code == 10 {
            out.push('\\');
            out.push('n');
        } else if code == 12 {
            out.push('\\');
            out.push('f');
        } else if code == 13 {
            out.push('\\');
            out.push('r');
        } else if code < 32 {
            out.push('\\');
            out.push('u');
            out.push('0');
            out.push('0');
            out.push(hex_digit_char(code / 16));
            out.push(hex_digit_char(code % 16));
        } else {
            out.push(c);
        }
        assert(out@ =~= so_far + escaped(c));
    }
    assert(text@.take(text@.len() as int) =~= text@);
    out.push('"');
}

/// Writes a JSON object with members that are flags and strings.
pub struct ObjectWriter {
    text: String,
    members: Ghost<Members>,
}

impl View for ObjectWriter {
    type V = Members;

    closed spec fn view(&self) -> Members {
        self.members@
    }
}

impl ObjectWriter {
    #[verifier::type_invariant]
    spec fn inv(self) -> bool {
        &&& self.text@ == seq!['{'] + members_text(self.members@)
        &&& all_plain(self.members@)
    }

    /// Starts an object.
    pub fn new() -> (r: Self)
        ensures
            r@ == Members::empty(),
    {
        let mut text = String::new();
        text.push('{');
        assert(text@ =~= seq!['{'] + members_text(Members::empty()));
        ObjectWriter { text, members: Ghost(Members::empty()) }
    }

    /// Writes the next member, whose value is a string.
    pub fn text_member(self, key: &str, value: &str) -> (r: Self)
        ensures
            r@ == self@.push((key@, JsonModel::Text(value@))),
    {
        let ghost members = self.members@.push((key@, JsonModel::Text(value@)));
        let mut text = self.start_member(key);
        push_quoted(&mut text, value);
        assert(members.drop_last() =~= self.members@);
        assert(text@ =~= seq!['{'] + members_text(members));
        ObjectWriter { text, members: Ghost(members) }
    }

    /// Writes the next member, whose value is a flag.
    pub fn flag_member(self, key: &str, value: bool) -> (r: Self)
        ensures
            r@ == self@.push((key@, JsonModel::Flag(value))),
    {
        let ghost members = self.members@.push((key@, JsonModel::Flag(value)));
        let mut text = self.start_member(key);
        if value {
            text.append("true");
        } else {
            text.append("false");
        }
        assert(members.drop_last() =~= self.members@);
        assert(text@ =~= seq!['{'] + members_text(members));
        ObjectWriter { text, members: Ghost(members) }
    }

    fn start_member(self, key: &str) -> (r: String)
        ensures
            ({
                let separator: Seq<char> = if self.members@.len() == 0 {
                    Seq::empty()
                } else {
                    seq![',']
                };
                r@ == seq!['{'] + members_text(self.members@) + separator + quoted(key@).push(':')
            }),
            all_plain(self.members@),
    {
        proof {
            use_type_invariant(&self);
        }
        let mut text = self.text;
        proof {
            lemma_members_text_empty(self.members@);
        }
        if text.unicode_len() > 1 {
            text.push(',');
        }
        push_quoted(&mut text, key);
        text.push(':');
        text
    }

    /// Ends the object.
    pub fn finish(self) -> (r: String)
        ensures
            r@ == object_text(self@),
            all_plain(self@),
    {
        proof {
            use_type_invariant(&self);
        }
        let mut text = self.text;
        text.push('}');
        text
    }
}

proof fn lemma_members_text_empty(members: Members)
    ensures
        members_text(members).len() == 0 <==> members.len() == 0,
{
}

/// A JSON object of `serde_json`.
#[verifier::external_type_specification]
#[verifier::external_body]
#[verifier::reject_recursive_types(K)]
#[verifier::reject_recursive_types(V)]
pub struct ExJsonMap<K, V>(serde_json::Map<K, V>);

/// A JSON value of `serde_json`.
#[verifier::external_type_specification]
#[verifier::external_body]
pub struct ExJsonValue(serde_json::Value);

/// The values of an object by key.
pub uninterp spec fn json_members(object: JsonMap<String, Value>) -> Map<Seq<char>, JsonModel>;

/// What reading a text as a JSON object gives: its values by key, or the description of the error.
pub uninterp spec fn json_parsed(text: Seq<char>) -> Result<Map<Seq<char>, JsonModel>, Seq<char>>;

/// `serde_json::from_str` for an object. The object, or the text of the error, depends on the text
/// alone. The text of an object whose members are flags and strings reads as these members.
#[verifier::external_body]
pub(crate) fn parse_object(text: &str) -> (r: Result<JsonMap<String, Value>, String>)
    ensures
        match r {
            Ok(object) => json_parsed(text@) == Ok::<Map<Seq<char>, JsonModel>, Seq<char>>(
                json_members(object),
            ),
            Err(e) => json_parsed(text@) == Err::<Map<Seq<char>, JsonModel>, Seq<char>>(e@),
        },
        forall|members: Members|
            all_plain(members) && text@ == #[trigger] object_text(members) ==> r is Ok
                && json_members(r->Ok_0) == as_object(members),
{
    serde_json::from_str(text).map_err(|e| e.to_string())
}

/// `serde_json::Map::get`: the value of a member of an object.
#[verifier::external_body]
pub(crate) fn get_member(object: &JsonMap<String, Value>, key: &str) -> (r: Json)
    ensures
        r@ == member(json_members(*object), key@),
{
    match object.get(key) {
        None => Json::Missing,
        Some(Value::Null) => Json::Null,
        Some(Value::Bool(flag)) => Json::Flag(*flag),
        Some(Value::String(text)) => Json::Text(text.clone()),
        Some(Value::Number(_)) => Json::Other,
        Some(Value::Array(_)) => Json::Other,
        Some(Value::Object(_)) => Json::Other,
    }
}

} // verus!
