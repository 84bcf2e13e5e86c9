//! The JSON text of the records: string literals and flat objects of
//! strings.

use vstd::prelude::*;
use vstd::string::*;

verus! {

/// The JSON string literal that stands for a text, quotes and escapes
/// included.
pub uninterp spec fn json_string_literal(text: Seq<char>) -> Seq<char>;

/// The text that a JSON document holds if it is a single string.
pub uninterp spec fn json_string_value(document: Seq<char>) -> Option<Seq<char>>;

/// The members of a JSON document that is an object whose values are all
/// strings, ordered by name, each name once.
pub uninterp spec fn json_string_members(document: Seq<char>) -> Option<
    Seq<(Seq<char>, Seq<char>)>,
>;

/// The members as pairs of texts.
pub open spec fn members_view(members: Seq<(String, String)>) -> Seq<(Seq<char>, Seq<char>)> {
    Seq::new(members.len(), |i: int| (members[i].0@, members[i].1@))
}

/// Calls `serde_json::to_string` on the text: its JSON string literal.
#[verifier::external_body]
pub(crate) fn quote(text: &str) -> (literal: String)
    ensures
        literal@ == json_string_literal(text@),
{
    serde_json::to_string(text).unwrap_or_default()
}

/// Calls `serde_json::from_str` for a `String`: the text of a document that
/// is a single JSON string, nothing for any other document.
#[verifier::external_body]
pub(crate) fn unquote(document: &str) -> (text: Option<String>)
    ensures
        text is Some <==> json_string_value(document@) is Some,
        text matches Some(t) ==> json_string_value(document@) == Some(t@),
{
    serde_json::from_str::<String>(document).ok()
}

/// Calls `serde_json::from_str` for a `BTreeMap<String, String>`: the members
/// of a document that is an object of strings, nothing for any other document.
#[verifier::external_body]
pub(crate) fn string_members(document: &str) -> (members: Option<Vec<(String, String)>>)
    ensures
        members is Some <==> json_string_members(document@) is Some,
        members matches Some(m) ==> json_string_members(document@) == Some(members_view(m@)),
{
    match serde_json::from_str::<std::collections::BTreeMap<String, String>>(document) {
        Ok(parsed) => Some(parsed.into_iter().collect()),
        Err(_) => None,
    }
}

/// The value of the first member with the given name.
pub open spec fn member(members: Seq<(Seq<char>, Seq<char>)>, name: Seq<char>) -> Option<
    Seq<char>,
>
    decreases members.len(),
{
    if members.len() == 0 {
        None
    } else if members[0].0 == name {
        Some(members[0].1)
    } else {
        member(members.drop_first(), name)
    }
}

/// The value of the first member with the given name.
pub fn find_member(members: &Vec<(String, String)>, name: &str) -> (value: Option<String>)
    ensures
        value is Some <==> member(members_view(members@), name@) is Some,
        value matches Some(v) ==> member(members_view(members@), name@) == Some(v@),
{
    let wanted = name.to_owned();
    let mut i: usize = 0;
    assert(members_view(members@).skip(0) =~= members_view(members@));
    while i < members.len()
        invariant
            i <= members@.len(),
            wanted@ == name@,
            member(members_view(members@), name@) == member(
                members_view(members@).skip(i as int),
                name@,
            ),
        decreases members@.len() - i,
    {
        let ghost rest = members_view(members@).skip(i as int);
        assert(rest[0] == members_view(members@)[i as int]);
        assert(rest.drop_first() =~= members_view(members@).skip(i + 1));
        if members[i].0 == wanted {
            return Some(members[i].1.clone());
        }
        i += 1;
    }
    None
}

/// Appends a label and the JSON string literal of a value.
pub fn push_member(out: &mut String, label: &str, value: &str)
    ensures
        final(out)@ == old(out)@ + label@ + json_string_literal(value@),
{
    out.append(label);
    let literal = quote(value);
    out.append(literal.as_str());
}

} // verus!
