//! A JSON document model that the protocol logic reads, and the wrapper that
//! obtains it from text through `serde_json`.

use vstd::prelude::*;
use vstd::string::*;

verus! {

/// A JSON number as `serde_json` holds it: a non-negative integer, a negative
/// integer, or a finite float, the last kept as the text that `serde_json`
/// renders for it.
#[derive(Debug, PartialEq)]
pub enum JsonNumber {
    PosInt(u64),
    NegInt(i64),
    Float(String),
}

/// A JSON document. Object members keep the order in which the parser yields
/// them.
#[derive(Debug, PartialEq)]
pub enum Json {
    Null,
    Bool(bool),
    Number(JsonNumber),
    Str(String),
    Array(Vec<Json>),
    Object(Vec<(String, Json)>),
}

/// The value of the first member of `entries` whose name is `key`.
pub open spec fn lookup(entries: Seq<(String, Json)>, key: Seq<char>) -> Option<Json>
    decreases entries.len(),
{
    if entries.len() == 0 {
        None
    } else if entries[0].0@ == key {
        Some(entries[0].1)
    } else {
        lookup(entries.drop_first(), key)
    }
}

/// Skipping a prefix in which `key` does not occur leaves the lookup unchanged.
pub proof fn lemma_lookup_skip(entries: Seq<(String, Json)>, key: Seq<char>, i: int)
    requires
        0 <= i <= entries.len(),
        forall|j: int| 0 <= j < i ==> #[trigger] entries[j].0@ != key,
    ensures
        lookup(entries, key) == lookup(entries.skip(i), key),
    decreases i,
{
    if i > 0 {
        assert(entries.drop_first().skip(i - 1) =~= entries.skip(i));
        assert forall|j: int| 0 <= j < i - 1 implies #[trigger] entries.drop_first()[j].0@ != key by {
            assert(entries.drop_first()[j] == entries[j + 1]);
        }
        lemma_lookup_skip(entries.drop_first(), key, i - 1);
    } else {
        assert(entries.skip(0) =~= entries);
    }
}

impl JsonNumber {
    /// The number as a `u64`, where it is a non-negative integer.
    pub open spec fn spec_as_u64(self) -> Option<u64> {
        match self {
            JsonNumber::PosInt(n) => Some(n),
            _ => None,
        }
    }

    /// The number as an `i64`, where it is an integer in range.
    pub open spec fn spec_as_i64(self) -> Option<i64> {
        match self {
            JsonNumber::PosInt(n) => if n <= i64::MAX { Some(n as i64) } else { None },
            JsonNumber::NegInt(n) => Some(n),
            JsonNumber::Float(_) => None,
        }
    }
}

impl Json {
    /// The member `key` of an object; nothing for any other kind of value.
    pub open spec fn field(self, key: Seq<char>) -> Option<Json> {
        match self {
            Json::Object(entries) => lookup(entries@, key),
            _ => None,
        }
    }

    /// The value as a `u64`, where it is a non-negative integer.
    pub open spec fn spec_as_u64(self) -> Option<u64> {
        match self {
            Json::Number(n) => n.spec_as_u64(),
            _ => None,
        }
    }

    /// The value as an `i64`, where it is an integer in range.
    pub open spec fn spec_as_i64(self) -> Option<i64> {
        match self {
            Json::Number(n) => n.spec_as_i64(),
            _ => None,
        }
    }

    /// Whether the value is `null`.
    pub fn is_null(&self) -> (b: bool)
        ensures
            b == (*self is Null),
    {
        match self {
            Json::Null => true,
            _ => false,
        }
    }

    /// The value as a `u64`, where it is a non-negative integer.
    pub fn as_u64(&self) -> (r: Option<u64>)
        ensures
            r == self.spec_as_u64(),
    {
        match self {
            Json::Number(JsonNumber::PosInt(n)) => Some(*n),
            _ => None,
        }
    }

    /// The value as an `i64`, where it is an integer in range.
    pub fn as_i64(&self) -> (r: Option<i64>)
        ensures
            r == self.spec_as_i64(),
    {
        match self {
            Json::Number(JsonNumber::PosInt(n)) => {
                if *n <= 9223372036854775807u64 {
                    Some(*n as i64)
                } else {
                    None
                }
            },
            Json::Number(JsonNumber::NegInt(n)) => Some(*n),
            _ => None,
        }
    }

    /// The member `key` of an object, by reference.
    pub fn get(&self, key: &str) -> (r: Option<&Json>)
        ensures
            match r {
                Some(v) => self.field(key@) == Some(*v),
                None => self.field(key@) is None,
            },
    {
        match self {
            Json::Object(entries) => {
                match find_member(entries, key) {
                    Some(i) => Some(&entries[i].1),
                    None => None,
                }
            },
            _ => None,
        }
    }

    /// The member `key` of an object, taking the document apart.
    pub fn into_field(self, key: &str) -> (r: Option<Json>)
        ensures
            r == self.field(key@),
    {
        match self {
            Json::Object(mut entries) => {
                match find_member(&entries, key) {
                    Some(i) => {
                        let (_, v) = entries.swap_remove(i);
                        Some(v)
                    },
                    None => None,
                }
            },
            _ => None,
        }
    }
}

/// The index of the first member of `entries` named `key`.
pub fn find_member(entries: &Vec<(String, Json)>, key: &str) -> (r: Option<usize>)
    ensures
        match r {
            Some(i) => i < entries@.len() && entries@[i as int].0@ == key@
                && (forall|j: int| 0 <= j < i ==> #[trigger] entries@[j].0@ != key@)
                && lookup(entries@, key@) == Some(entries@[i as int].1),
            None => lookup(entries@, key@) is None,
        },
{
    let name = String::from_str(key);
    let mut i: usize = 0;
    while i < entries.len()
        invariant
            i <= entries@.len(),
            name@ == key@,
            forall|j: int| 0 <= j < i ==> #[trigger] entries@[j].0@ != key@,
        decreases entries@.len() - i,
    {
        if entries[i].0 == name {
            proof {
                lemma_lookup_skip(entries@, key@, i as int);
                assert(entries@.skip(i as int)[0] == entries@[i as int]);
            }
            return Some(i);
        }
        i = i + 1;
    }
    proof {
        lemma_lookup_skip(entries@, key@, i as int);
        assert(entries@.skip(i as int).len() == 0);
    }
    None
}

} // verus!

verus! {

#[verifier::external_type_specification]
#[verifier::external_body]
pub struct ExValue(serde_json::Value);

#[verifier::external_type_specification]
#[verifier::external_body]
pub struct ExNumber(serde_json::Number);

/// What `serde_json::from_str::<serde_json::Value>` yields for `text`: the
/// document, or the message of the syntax error it reports.
pub uninterp spec fn serde_parse(text: Seq<char>) -> Result<Json, Seq<char>>;

/// Parses `text` with `serde_json::from_str::<serde_json::Value>`.
/// Claimed of it: the outcome is a function of the text alone (`serde_parse`);
/// on success the document is carried over member for member, on failure the
/// error's `Display` text is returned.
#[verifier::external_body]
pub(crate) fn parse_json(text: &str) -> (r: Result<Json, String>)
    ensures
        match r {
            Ok(j) => serde_parse(text@) == Ok::<Json, Seq<char>>(j),
            Err(e) => serde_parse(text@) == Err::<Json, Seq<char>>(e@),
        },
{
    match serde_json::from_str::<serde_json::Value>(text) {
        Ok(v) => Ok(json_from_serde(v)),
        Err(e) => Err(e.to_string()),
    }
}

/// Carries a `serde_json::Value` over into a `Json`, variant for variant.
#[verifier::external_body]
fn json_from_serde(v: serde_json::Value) -> Json {
    match v {
        serde_json::Value::Null => Json::Null,
        serde_json::Value::Bool(b) => Json::Bool(b),
        serde_json::Value::Number(n) => Json::Number(number_from_serde(n)),
        serde_json::Value::String(s) => Json::Str(s),
        serde_json::Value::Array(a) => Json::Array(a.into_iter().map(json_from_serde).collect()),
        serde_json::Value::Object(m) => Json::Object(
            m.into_iter().map(|(k, v)| (k, json_from_serde(v))).collect(),
        ),
    }
}

/// Carries a `serde_json::Number` over into a `JsonNumber`, by the form in
/// which `serde_json` holds it.
#[verifier::external_body]
fn number_from_serde(n: serde_json::Number) -> JsonNumber {
    match (n.as_u64(), n.as_i64()) {
        (Some(u), _) => JsonNumber::PosInt(u),
        (None, Some(i)) => JsonNumber::NegInt(i),
        (None, None) => JsonNumber::Float(n.to_string()),
    }
}

} // verus!

verus! {

/// `i` is the position of the first member of `entries` named `key`.
pub open spec fn is_first_member(entries: Seq<(String, Json)>, key: Seq<char>, i: int) -> bool {
    &&& 0 <= i < entries.len()
    &&& entries[i].0@ == key
    &&& forall|j: int| 0 <= j < i ==> #[trigger] entries[j].0@ != key
}

/// No member of `entries` is named `key`.
pub open spec fn has_no_member(entries: Seq<(String, Json)>, key: Seq<char>) -> bool {
    forall|j: int| 0 <= j < entries.len() ==> #[trigger] entries[j].0@ != key
}

/// Every member of `entries` named `key` is `null`.
pub open spec fn members_named_are_null(entries: Seq<(String, Json)>, key: Seq<char>) -> bool {
    forall|j: int| 0 <= j < entries.len() && #[trigger] entries[j].0@ == key ==> entries[j].1 is Null
}

/// Looking up a name finds the value of the first member of that name.
pub proof fn lemma_lookup_first(entries: Seq<(String, Json)>, key: Seq<char>, i: int)
    requires
        is_first_member(entries, key, i),
    ensures
        lookup(entries, key) == Some(entries[i].1),
{
    lemma_lookup_skip(entries, key, i);
    assert(entries.skip(i)[0] == entries[i]);
}

/// Looking up a name that no member has finds nothing.
pub proof fn lemma_lookup_absent(entries: Seq<(String, Json)>, key: Seq<char>)
    requires
        has_no_member(entries, key),
    ensures
        lookup(entries, key) is None,
{
    lemma_lookup_skip(entries, key, entries.len() as int);
    assert(entries.skip(entries.len() as int).len() == 0);
}

/// What a lookup finds is the value of some member of that name.
pub proof fn lemma_lookup_found(entries: Seq<(String, Json)>, key: Seq<char>)
    requires
        lookup(entries, key) is Some,
    ensures
        exists|i: int| 0 <= i < entries.len() && #[trigger] entries[i].0@ == key
            && lookup(entries, key) == Some(entries[i].1),
    decreases entries.len(),
{
    if entries[0].0@ == key {
        assert(entries[0].0@ == key);
    } else {
        lemma_lookup_found(entries.drop_first(), key);
        let i = choose|i: int| 0 <= i < entries.drop_first().len()
            && #[trigger] entries.drop_first()[i].0@ == key
            && lookup(entries.drop_first(), key) == Some(entries.drop_first()[i].1);
        assert(entries[i + 1] == entries.drop_first()[i]);
    }
}

} // verus!
