//! From a raw request to the text that is stored: headers collapsed and
//! serialised as one JSON object, the body decoded to text.

use vstd::prelude::*;
use vstd::string::StringExecFns;
use vstd::utf8::{decode_utf8, valid_utf8};
use crate::models::text_of;

verus! {

/// A header as the model sees it: its name and its value.
pub type HeaderView = (Seq<char>, Seq<char>);

/// The JSON string literal that `serde_json::to_string` writes for a text:
/// the text in double quotes, with the characters that JSON reserves escaped,
/// or `None` where the serialiser reports an error.
pub uninterp spec fn json_string(text: Seq<char>) -> Option<Seq<char>>;

/// The text that `String::from_utf8_lossy` reads from bytes: the text they
/// encode, with every invalid sequence replaced by U+FFFD.
pub uninterp spec fn lossy_text(bytes: Seq<u8>) -> Seq<char>;

/// Calls `serde_json::to_string` on a string slice. Trusted: the result is
/// the serialiser's output, `None` standing for its error.
#[verifier::external_body]
fn to_json_string(text: &str) -> (r: Option<String>)
    ensures
        text_of(r) == json_string(text@),
{
    serde_json::to_string(text).ok()
}

/// Calls `String::from_utf8_lossy`. Trusted: the result is the lossy reading
/// of the bytes, which for well-formed UTF-8 is the text they encode.
#[verifier::external_body]
fn from_utf8_lossy(bytes: &[u8]) -> (r: String)
    ensures
        r@ == lossy_text(bytes@),
        valid_utf8(bytes@) ==> r@ == decode_utf8(bytes@),
{
    String::from_utf8_lossy(bytes).into_owned()
}

/// The names and values of a list of headers.
pub open spec fn header_views(headers: Seq<(String, String)>) -> Seq<HeaderView> {
    headers.map_values(|h: (String, String)| (h.0@, h.1@))
}

/// Whether one of `headers` is named `name`.
pub open spec fn names(headers: Seq<HeaderView>, name: Seq<char>) -> bool {
    exists|j: int| 0 <= j < headers.len() && (#[trigger] headers[j]).0 == name
}

/// Duplicate header names collapsed, the last write winning: a header stays
/// exactly when no later header has its name. The survivors keep their order.
pub open spec fn collapsed(headers: Seq<HeaderView>) -> Seq<HeaderView>
    decreases headers.len(),
{
    if headers.len() == 0 {
        Seq::empty()
    } else if names(headers.drop_first(), headers[0].0) {
        collapsed(headers.drop_first())
    } else {
        seq![headers[0]] + collapsed(headers.drop_first())
    }
}

/// The members of a JSON object, one per header and in the headers' order:
/// `"name":"value"`, separated by commas. `None` where a name or a value
/// cannot be serialised.
pub open spec fn json_members(headers: Seq<HeaderView>) -> Option<Seq<char>>
    decreases headers.len(),
{
    if headers.len() == 0 {
        Some(Seq::empty())
    } else {
        match (
            json_members(headers.drop_last()),
            json_string(headers.last().0),
            json_string(headers.last().1),
        ) {
            (Some(before), Some(name), Some(value)) => Some(
                before + (if headers.len() > 1 {
                    ","@
                } else {
                    Seq::empty()
                }) + name + ":"@ + value,
            ),
            _ => None,
        }
    }
}

/// The JSON object that holds the given headers; the empty object where they
/// cannot be serialised.
pub open spec fn json_object(headers: Seq<HeaderView>) -> Seq<char> {
    match json_members(headers) {
        Some(members) => "{"@ + members + "}"@,
        None => "{}"@,
    }
}

/// The stored form of a request's headers: duplicates collapsed, then
/// serialised as one JSON object.
pub open spec fn headers_json(headers: Seq<HeaderView>) -> Seq<char> {
    json_object(collapsed(headers))
}

/// Whether a header from position `from` on is named `name`.
fn named_later(headers: &Vec<(String, String)>, from: usize, name: &String) -> (r: bool)
    requires
        from <= headers.len(),
    ensures
        r == names(header_views(headers@).skip(from as int), name@),
{
    let ghost rest = header_views(headers@).skip(from as int);
    let mut j: usize = from;
    while j < headers.len()
        invariant
            from <= j <= headers.len(),
            rest == header_views(headers@).skip(from as int),
            forall|k: int| 0 <= k < j - from ==> (#[trigger] rest[k]).0 != name@,
        decreases headers.len() - j,
    {
        if headers[j].0 == *name {
            assert(rest[j - from].0 == name@);
            return true;
        }
        j += 1;
    }
    false
}

/// Collapses duplicate header names, the last write winning.
pub fn collapse_headers(headers: &Vec<(String, String)>) -> (r: Vec<(String, String)>)
    ensures
        header_views(r@) == collapsed(header_views(headers@)),
{
    let ghost all = header_views(headers@);
    let mut out: Vec<(String, String)> = Vec::new();
    let mut i: usize = 0;
    assert(all.skip(0) =~= all);
    assert(header_views(out@) =~= Seq::empty());
    while i < headers.len()
        invariant
            i <= headers.len(),
            all == header_views(headers@),
            collapsed(all) == header_views(out@) + collapsed(all.skip(i as int)),
        decreases headers.len() - i,
    {
        let ghost before = header_views(out@);
        proof {
            assert(all.skip(i as int).drop_first() =~= all.skip(i + 1));
            assert(all.skip(i as int)[0] == all[i as int]);
        }
        if !named_later(headers, i + 1, &headers[i].0) {
            out.push((headers[i].0.clone(), headers[i].1.clone()));
            proof {
                assert(header_views(out@) =~= before.push(all[i as int]));
                assert(before + (seq![all[i as int]] + collapsed(all.skip(i + 1)))
                    =~= before.push(all[i as int]) + collapsed(all.skip(i + 1)));
            }
        }
        i += 1;
    }
    assert(header_views(out@) + collapsed(all.skip(i as int)) =~= header_views(out@));
    out
}

/// Serialises headers as the members of a JSON object, in order.
fn encode_members(headers: &Vec<(String, String)>) -> (r: Option<String>)
    ensures
        text_of(r) == json_members(header_views(headers@)),
{
    let ghost all = header_views(headers@);
    let mut out = String::new();
    let mut i: usize = 0;
    assert(all.take(0) =~= Seq::empty());
    while i < headers.len()
        invariant
            i <= headers.len(),
            all == header_views(headers@),
            json_members(all.take(i as int)) == Some(out@),
        decreases headers.len() - i,
    {
        proof {
            assert(all.take(i + 1).drop_last() =~= all.take(i as int));
            assert(all.take(i + 1).last() == all[i as int]);
        }
        let name = to_json_string(headers[i].0.as_str());
        let value = to_json_string(headers[i].1.as_str());
        match (name, value) {
            (Some(name), Some(value)) => {
                if i > 0 {
                    out.append(",");
                }
                out.append(name.as_str());
                out.append(":");
                out.append(value.as_str());
            },
            _ => {
                proof {
                    lemma_members_fail(all, i as int);
                }
                return None;
            },
        }
        i += 1;
    }
    assert(all.take(i as int) =~= all);
    Some(out)
}

/// Once a prefix of the headers cannot be serialised, neither can the whole.
proof fn lemma_members_fail(headers: Seq<HeaderView>, i: int)
    requires
        0 <= i < headers.len(),
        json_members(headers.take(i + 1)) is None,
    ensures
        json_members(headers) is None,
    decreases headers.len() - i,
{
    if i + 1 < headers.len() {
        assert(headers.take(i + 2).drop_last() =~= headers.take(i + 1));
        lemma_members_fail(headers, i + 1);
    } else {
        assert(headers.take(i + 1) =~= headers);
    }
}

/// Serialises headers as one JSON object, in order; the empty object where a
/// name or value cannot be serialised.
pub fn encode_headers(headers: &Vec<(String, String)>) -> (r: String)
    ensures
        r@ == json_object(header_views(headers@)),
{
    match encode_members(headers) {
        Some(members) => {
            let mut out = String::new();
            out.append("{");
            out.append(members.as_str());
            out.append("}");
            assert(out@ =~= "{"@ + members@ + "}"@);
            out
        },
        None => "{}".to_owned(),
    }
}

/// The stored form of a request's headers.
pub fn serialize_headers(headers: &Vec<(String, String)>) -> (r: String)
    ensures
        r@ == headers_json(header_views(headers@)),
{
    let unique = collapse_headers(headers);
    encode_headers(&unique)
}

/// The stored form of a request's body: its bytes read as UTF-8, with invalid
/// sequences replaced rather than rejected.
pub fn decode_body(body: &[u8]) -> (r: String)
    ensures
        r@ == lossy_text(body@),
        valid_utf8(body@) ==> r@ == decode_utf8(body@),
{
    from_utf8_lossy(body)
}

} // verus!
