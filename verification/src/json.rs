//! Reading single values out of JSON text.
use vstd::prelude::*;

use crate::text;
use crate::text::{join, join3, signed_decimal_text, str_equal};

verus! {

/// What stands at a place of JSON text.
#[derive(Clone, Debug)]
pub enum JsonAt {
    /// The text is not JSON.
    Invalid,
    /// There is no such place.
    Missing,
    Null,
    Bool(bool),
    /// A number, as an integer where it is one that fits.
    Number { unsigned: Option<u64>, signed: Option<i64> },
    Text(String),
    /// A list with so many items.
    List(usize),
    Object,
}

/// What stands at a place of JSON text.
pub enum JsonView {
    Invalid,
    Missing,
    Null,
    Bool(bool),
    Number { unsigned: Option<u64>, signed: Option<i64> },
    Text(Seq<char>),
    List(usize),
    Object,
}

impl View for JsonAt {
    type V = JsonView;

    open spec fn view(&self) -> JsonView {
        match *self {
            JsonAt::Invalid => JsonView::Invalid,
            JsonAt::Missing => JsonView::Missing,
            JsonAt::Null => JsonView::Null,
            JsonAt::Bool(value) => JsonView::Bool(value),
            JsonAt::Number { unsigned, signed } => JsonView::Number { unsigned, signed },
            JsonAt::Text(value) => JsonView::Text(value@),
            JsonAt::List(count) => JsonView::List(count),
            JsonAt::Object => JsonView::Object,
        }
    }
}

/// The text of an object with one member, which is a number.
pub open spec fn number_object(member: Seq<char>, value: int) -> Seq<char> {
    "{\""@ + member + "\":"@ + text::signed_decimal(value) + "}"@
}

/// What stands at the place that a JSON pointer names.
pub uninterp spec fn json_lookup(json: Seq<u8>, pointer: Seq<char>) -> JsonView;

/// Looks a value up in JSON text. Calls `serde_json::from_slice` for a
/// `serde_json::Value` and `serde_json::Value::pointer` on it; nothing is
/// claimed of the result but that it is determined by the text and the pointer.
#[verifier::external_body]
pub(crate) fn json_at(json: &[u8], pointer: &str) -> (r: JsonAt)
    ensures
        r@ == json_lookup(json@, pointer@),
{
    match serde_json::from_slice::<serde_json::Value>(json) {
        Err(_) => JsonAt::Invalid,
        Ok(value) => match value.pointer(pointer) {
            None => JsonAt::Missing,
            Some(serde_json::Value::Null) => JsonAt::Null,
            Some(serde_json::Value::Bool(value)) => JsonAt::Bool(*value),
            Some(serde_json::Value::Number(n)) => JsonAt::Number { unsigned: n.as_u64(), signed: n.as_i64() },
            Some(serde_json::Value::String(value)) => JsonAt::Text(value.clone()),
            Some(serde_json::Value::Array(items)) => JsonAt::List(items.len()),
            Some(serde_json::Value::Object(_)) => JsonAt::Object,
        },
    }
}

impl JsonView {
    /// The value as an unsigned number, if it is one.
    pub open spec fn unsigned(self) -> Option<u64> {
        match self {
            JsonView::Number { unsigned, .. } => unsigned,
            _ => None,
        }
    }

    /// The value as a signed number, if it is one.
    pub open spec fn signed(self) -> Option<i64> {
        match self {
            JsonView::Number { signed, .. } => signed,
            _ => None,
        }
    }

    /// The value as text, if it is text.
    pub open spec fn string(self) -> Option<Seq<char>> {
        match self {
            JsonView::Text(value) => Some(value),
            _ => None,
        }
    }
}

impl JsonAt {
    pub fn unsigned(&self) -> (r: Option<u64>)
        ensures
            r == self@.unsigned(),
    {
        match self {
            JsonAt::Number { unsigned, .. } => *unsigned,
            _ => None,
        }
    }

    pub fn signed(&self) -> (r: Option<i64>)
        ensures
            r == self@.signed(),
    {
        match self {
            JsonAt::Number { signed, .. } => *signed,
            _ => None,
        }
    }

    pub fn string(&self) -> (r: Option<&String>)
        ensures
            match r {
                Some(value) => self@.string() == Some(value@),
                None => self@.string() is None,
            },
    {
        match self {
            JsonAt::Text(value) => Some(value),
            _ => None,
        }
    }
}

/// Writes an object with one member, which is a number.
pub fn number_object_text(member: &str, value: i64) -> (r: String)
    ensures
        r@ == number_object(member@, value as int),
{
    let mut r = join3("{\"", member, "\":");
    r.append(signed_decimal_text(value).as_str());
    r.append("}");
    r
}

/// The text of the `error` member of a JSON reply. Nothing means that the reply
/// is not JSON.
pub open spec fn reply_error(found: JsonView) -> Option<Option<Seq<char>>> {
    if found is Invalid {
        None
    } else {
        Some(found.string())
    }
}

/// Reads what was found at the `error` member of a reply.
pub fn error_of(found: JsonAt) -> (r: Option<Option<String>>)
    ensures
        match r {
            None => reply_error(found@) is None,
            Some(None) => reply_error(found@) == Some(None::<Seq<char>>),
            Some(Some(error)) => reply_error(found@) == Some(Some(error@)),
        },
{
    match found {
        JsonAt::Invalid => None,
        JsonAt::Text(error) => Some(Some(error)),
        _ => Some(None),
    }
}

/// Reads the error of a reply.
pub fn read_error(line: &[u8]) -> (r: Option<Option<String>>)
    ensures
        ({
            let found = json_lookup(line@, "/error"@);
            match r {
                None => reply_error(found) is None,
                Some(None) => reply_error(found) == Some(None::<Seq<char>>),
                Some(Some(error)) => reply_error(found) == Some(Some(error@)),
            }
        }),
{
    error_of(json_at(line, "/error"))
}

/// The JSON pointer to an item of a list of capabilities.
pub open spec fn capability_pointer(index: nat) -> Seq<char> {
    "/session/capabilities/"@ + text::decimal(index)
}

/// Whether a reply names a capability among those of its session.
pub open spec fn names_capability(line: Seq<u8>, capability: Seq<char>) -> bool {
    match json_lookup(line, "/session/capabilities"@) {
        JsonView::List(count) => exists|index: int|
            0 <= index < count && json_lookup(line, #[trigger] capability_pointer(index as nat))
                == JsonView::Text(capability),
        _ => false,
    }
}

/// Whether one of the items is the capability.
pub fn capability_found(items: &[JsonAt], capability: &str) -> (r: bool)
    ensures
        r == exists|index: int|
            0 <= index < items@.len() && (#[trigger] items@[index])@ == JsonView::Text(capability@),
{
    let mut index: usize = 0;
    while index < items.len()
        invariant
            index <= items@.len(),
            forall|i: int|
                0 <= i < index ==> (#[trigger] items@[i])@ != JsonView::Text(capability@),
        decreases items@.len() - index,
    {
        if let JsonAt::Text(name) = &items[index] {
            if str_equal(name.as_str(), capability) {
                assert(items@[index as int]@ == JsonView::Text(capability@));
                return true;
            }
        }
        index += 1;
    }
    false
}

/// Whether a reply names a capability among those of its session.
pub fn has_capability(line: &[u8], capability: &str) -> (r: bool)
    ensures
        r == names_capability(line@, capability@),
{
    let count: usize = match json_at(line, "/session/capabilities") {
        JsonAt::List(count) => count,
        _ => {
            return false;
        },
    };
    let mut items: Vec<JsonAt> = Vec::new();
    while items.len() < count
        invariant
            items@.len() <= count,
            forall|i: int|
                0 <= i < items@.len() ==> (#[trigger] items@[i])@ == json_lookup(
                    line@,
                    capability_pointer(i as nat),
                ),
        decreases count - items@.len(),
    {
        let index: usize = items.len();
        let pointer = join(
            "/session/capabilities/",
            text::decimal_text(index as u64).as_str(),
        );
        assert(pointer@ == capability_pointer(index as nat));
        items.push(json_at(line, pointer.as_str()));
    }
    let named = capability_found(items.as_slice(), capability);
    proof {
        if named {
            let i = choose|i: int|
                0 <= i < items@.len() && (#[trigger] items@[i])@ == JsonView::Text(capability@);
            assert(json_lookup(line@, capability_pointer(i as nat)) == JsonView::Text(capability@));
        }
        if names_capability(line@, capability@) {
            let i = choose|i: int|
                0 <= i < count && json_lookup(line@, #[trigger] capability_pointer(i as nat))
                    == JsonView::Text(capability@);
            assert(items@[i]@ == JsonView::Text(capability@));
        }
    }
    named
}

/// A reply has an error exactly if it is JSON and a text stands at its `error`
/// member; the error is that text.
pub proof fn errors_are_texts(found: JsonAt, r: Option<Option<String>>)
    requires
        call_ensures(error_of, (found,), r),
    ensures
        r is None <==> found is Invalid,
        found matches JsonAt::Text(error) ==> (r matches Some(Some(told)) && told@ == error@),
        !(found is Invalid) && !(found is Text) ==> r == Some(None::<String>),
{
    assert(match r {
        None => reply_error(found@) is None,
        Some(None) => reply_error(found@) == Some(None::<Seq<char>>),
        Some(Some(error)) => reply_error(found@) == Some(Some(error@)),
    });
}

/// A value is a number or a text only if it stands there as one, and then as it
/// stands there.
pub proof fn values_are_taken_as_they_stand(
    found: JsonAt,
    unsigned: Option<u64>,
    signed: Option<i64>,
    string: Option<&String>,
)
    requires
        call_ensures(JsonAt::unsigned, (&found,), unsigned),
        call_ensures(JsonAt::signed, (&found,), signed),
        call_ensures(JsonAt::string, (&found,), string),
    ensures
        found matches JsonAt::Number { unsigned: u, signed: s } ==> unsigned == u && signed == s,
        !(found is Number) ==> unsigned is None && signed is None,
        found matches JsonAt::Text(text) ==> (string matches Some(told) && told@ == text@),
        !(found is Text) ==> string is None,
{
    assert(match string {
        Some(value) => found@.string() == Some(value@),
        None => found@.string() is None,
    });
}

/// A capability is named exactly if one of the items is its name; an item that is
/// no text never names one.
pub proof fn capabilities_are_named_by_items(items: &[JsonAt], capability: &str, r: bool)
    requires
        call_ensures(capability_found, (items, capability), r),
    ensures
        forall|i: int|
            0 <= i < items@.len() && (#[trigger] items@[i] matches JsonAt::Text(name) && name@
                == capability@) ==> r,
        (forall|i: int|
            0 <= i < items@.len() ==> !(#[trigger] items@[i] matches JsonAt::Text(name) && name@
                == capability@)) ==> !r,
        items@.len() == 0 ==> !r,
{
    if r {
        let i = choose|i: int|
            0 <= i < items@.len() && (#[trigger] items@[i])@ == JsonView::Text(capability@);
        assert(items@[i] matches JsonAt::Text(name) && name@ == capability@);
    }
    assert forall|i: int|
        0 <= i < items@.len() && (#[trigger] items@[i] matches JsonAt::Text(name) && name@
            == capability@) implies r by {
        assert(items@[i]@ == JsonView::Text(capability@));
    }
}

/// A capability is named exactly if a list of capabilities stands in the session of
/// a reply and one of its items is the name.
pub proof fn capabilities_stand_in_the_session(line: &[u8], capability: &str, r: bool)
    requires
        call_ensures(has_capability, (line, capability), r),
    ensures
        r <==> (json_lookup(line@, "/session/capabilities"@) matches JsonView::List(count)
            && exists|index: int|
            0 <= index < count && json_lookup(
                line@,
                "/session/capabilities/"@ + #[trigger] text::decimal(index as nat),
            ) == JsonView::Text(capability@)),
{
    if let JsonView::List(count) = json_lookup(line@, "/session/capabilities"@) {
        if r {
            let index = choose|index: int|
                0 <= index < count && json_lookup(
                    line@,
                    #[trigger] capability_pointer(index as nat),
                ) == JsonView::Text(capability@);
            assert(json_lookup(line@, "/session/capabilities/"@ + text::decimal(index as nat))
                == JsonView::Text(capability@));
        }
        if exists|index: int|
            0 <= index < count && json_lookup(
                line@,
                "/session/capabilities/"@ + #[trigger] text::decimal(index as nat),
            ) == JsonView::Text(capability@) {
            let index = choose|index: int|
                0 <= index < count && json_lookup(
                    line@,
                    "/session/capabilities/"@ + #[trigger] text::decimal(index as nat),
                ) == JsonView::Text(capability@);
            assert(capability_pointer(index as nat) == "/session/capabilities/"@ + text::decimal(
                index as nat,
            ));
        }
    }
}

/// The error of a reply is the text at its `error` member.
pub proof fn errors_stand_at_their_member(line: &[u8], r: Option<Option<String>>)
    requires
        call_ensures(read_error, (line,), r),
    ensures
        r is None <==> json_lookup(line@, "/error"@) is Invalid,
        json_lookup(line@, "/error"@) matches JsonView::Text(error) ==> (r matches Some(Some(told))
            && told@ == error),
        r matches Some(Some(told)) ==> json_lookup(line@, "/error"@) == JsonView::Text(told@),
{
}

/// An object with one number is written as JSON writes it.
pub proof fn number_objects_are_json(member: &str, value: i64, r: String)
    requires
        call_ensures(number_object_text, (member, value), r),
    ensures
        r@ == "{\""@ + member@ + "\":"@ + text::signed_decimal(value as int) + "}"@,
{
}

} // verus!
