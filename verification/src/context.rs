//! What ties a derived key to its secret: the label, the version and the operation, as JSON.
use crate::text::{decimal, decimal_is_digits, decimal_is_injective, is_name_char, split_at_mark};
use vstd::prelude::*;
use vstd::utf8::encode_utf8;

verus! {

/// Letters, digits, `_` and `-` only: text that JSON writes as it stands.
pub open spec fn is_plain(text: Seq<char>) -> bool {
    forall|i: int| 0 <= i < text.len() ==> is_name_char(#[trigger] text[i])
}

/// A JSON array of two plain texts, a number and a plain text.
pub open spec fn json_array(tag: Seq<char>, label: Seq<char>, version: nat, operation: Seq<char>) -> Seq<char> {
    "[\""@ + tag + "\",\""@ + label + "\","@ + decimal(version) + ",\""@ + operation + "\"]"@
}

/// `to_vec` of serde_json, on a tuple of two texts, a number and a text: a JSON array without spaces, in
/// UTF-8. Only plain texts are described, which need no escapes; writing them does not fail.
#[verifier::external_body]
fn json_tuple(tag: &str, label: &str, version: u64, operation: &str) -> (json: Option<Vec<u8>>)
    ensures
        is_plain(tag@) && is_plain(label@) && is_plain(operation@) ==> json is Some && json->0@ == encode_utf8(
            json_array(tag@, label@, version as nat, operation@),
        ),
{
    serde_json::to_vec(&(tag, label, version, operation)).ok()
}

/// The context of a key.
pub open spec fn key_context_bytes(label: Seq<char>, version: nat, operation: Seq<char>) -> Seq<u8> {
    encode_utf8(json_array("mcpbytes-vault-v1"@, label, version, operation))
}

/// The context of a key. There always is one for plain names.
pub(crate) fn key_context(label: &str, version: u64, operation: &str) -> (context: Option<Vec<u8>>)
    ensures
        is_plain(label@) && is_plain(operation@) ==> {
            &&& context matches Some(bytes)
            &&& bytes@ == key_context_bytes(label@, version as nat, operation@)
        },
{
    proof {
        reveal_strlit("mcpbytes-vault-v1");
    }
    json_tuple("mcpbytes-vault-v1", label, version, operation)
}

/// What stands in the JSON of a context before its label.
spec fn head() -> Seq<char> {
    "[\""@ + "mcpbytes-vault-v1"@ + "\",\""@
}

/// What stands in it behind the number's comma.
spec fn tail(operation: Seq<char>) -> Seq<char> {
    seq!['"'] + (operation + seq!['"'] + seq![']'])
}

/// What stands in it behind the label's closing quote.
spec fn middle(version: nat, operation: Seq<char>) -> Seq<char> {
    seq![','] + (decimal(version) + seq![','] + tail(operation))
}

/// The JSON of a context, part by part.
proof fn context_is_nested(label: Seq<char>, version: nat, operation: Seq<char>)
    ensures
        json_array("mcpbytes-vault-v1"@, label, version, operation) == head() + (label + seq!['"'] + middle(version, operation)),
{
    reveal_strlit("\",");
    reveal_strlit(",\"");
    reveal_strlit("\"]");
    assert("\","@ =~= seq!['"', ','] && ",\""@ =~= seq![',', '"'] && "\"]"@ =~= seq!['"', ']']);
    assert(json_array("mcpbytes-vault-v1"@, label, version, operation) =~= head() + (label + seq!['"'] + middle(version, operation)));
}

/// Texts that start alike are equal only where they go on alike.
proof fn same_start(start: Seq<char>, x: Seq<char>, y: Seq<char>)
    requires
        start + x == start + y,
    ensures
        x == y,
{
    assert((start + x).skip(start.len() as int) =~= x);
    assert((start + y).skip(start.len() as int) =~= y);
}

/// A decimal number holds no comma, and a plain text no quote.
proof fn marks_stand_apart(version: nat, text: Seq<char>)
    requires
        is_plain(text),
    ensures
        !decimal(version).contains(','),
        !text.contains('"'),
{
    decimal_is_digits(version);
}

/// The context of a key fixes the label, the version and the operation.
pub proof fn key_context_is_injective(label: Seq<char>, version: nat, operation: Seq<char>, other: Seq<char>, number: nat, id: Seq<char>)
    requires
        is_plain(label),
        is_plain(operation),
        is_plain(other),
        is_plain(id),
        key_context_bytes(label, version, operation) == key_context_bytes(other, number, id),
    ensures
        label == other,
        version == number,
        operation == id,
{
    let tag = "mcpbytes-vault-v1"@;
    vstd::utf8::encode_utf8_decode_utf8(json_array(tag, label, version, operation));
    vstd::utf8::encode_utf8_decode_utf8(json_array(tag, other, number, id));
    context_is_nested(label, version, operation);
    context_is_nested(other, number, id);
    marks_stand_apart(version, label);
    marks_stand_apart(number, other);
    same_start(head(), label + seq!['"'] + middle(version, operation), other + seq!['"'] + middle(number, id));
    split_at_mark(label, middle(version, operation), other, middle(number, id), '"');
    same_start(seq![','], decimal(version) + seq![','] + tail(operation), decimal(number) + seq![','] + tail(id));
    split_at_mark(decimal(version), tail(operation), decimal(number), tail(id), ',');
    decimal_is_injective(version, number);
    marks_stand_apart(version, operation);
    marks_stand_apart(number, id);
    same_start(seq!['"'], operation + seq!['"'] + seq![']'], id + seq!['"'] + seq![']']);
    split_at_mark(operation, seq![']'], id, seq![']'], '"');
}

/// The context of a key is a JSON array: the name of the scheme, the label, the version in decimal, and the
/// operation.
pub proof fn contexts_are_json(label: Seq<char>, version: nat, operation: Seq<char>)
    ensures
        key_context_bytes(label, version, operation) == encode_utf8(
            seq!['[', '"'] + "mcpbytes-vault-v1"@ + seq!['"', ',', '"'] + label + seq!['"', ','] + decimal(version) + seq![',', '"']
                + operation + seq!['"', ']'],
        ),
{
    reveal_strlit("[\"");
    reveal_strlit("\",\"");
    reveal_strlit("\",");
    reveal_strlit(",\"");
    reveal_strlit("\"]");
    assert("[\""@ =~= seq!['[', '"'] && "\",\""@ =~= seq!['"', ',', '"'] && "\","@ =~= seq!['"', ','] && ",\""@ =~= seq![',', '"']
        && "\"]"@ =~= seq!['"', ']']);
}

} // verus!
