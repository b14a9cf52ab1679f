//! What the proxy asks of the HTTP message types of `hyper`: header fields and
//! URIs. Each item here states in its contract what the outside function does.

use hyper::header::{HeaderMap, HeaderName, HeaderValue, MaxSizeReached, ToStrError};
use vstd::prelude::*;
use vstd::string::*;

verus! {

/// The header multimap of `hyper`.
#[verifier::external_type_specification]
#[verifier::external_body]
#[verifier::reject_recursive_types(T)]
pub struct ExHeaderMap<T>(HeaderMap<T>);

/// The name of a header field: a lower-case string.
#[verifier::external_type_specification]
#[verifier::external_body]
pub struct ExHeaderName(HeaderName);

/// The value of a header field: a byte string.
#[verifier::external_type_specification]
#[verifier::external_body]
pub struct ExHeaderValue(HeaderValue);

/// The error of a header value that is no text.
#[verifier::external_type_specification]
#[verifier::external_body]
pub struct ExToStrError(ToStrError);

/// The error of a header map that cannot grow.
#[verifier::external_type_specification]
#[verifier::external_body]
pub struct ExMaxSizeReached(MaxSizeReached);

/// A request method.
#[verifier::external_type_specification]
#[verifier::external_body]
pub struct ExMethod(hyper::Method);

/// The characters that a header name holds.
pub uninterp spec fn name_text(name: HeaderName) -> Seq<char>;

/// The bytes that a header value holds.
pub uninterp spec fn value_bytes(value: HeaderValue) -> Seq<u8>;

/// The fields that a header map holds, name and value, in the order in which the
/// map hands them out.
pub uninterp spec fn header_fields(headers: HeaderMap) -> Seq<(Seq<char>, Seq<u8>)>;

/// The values of the fields of one name, in order.
pub open spec fn values_named(fields: Seq<(Seq<char>, Seq<u8>)>, name: Seq<char>) -> Seq<Seq<u8>>
    decreases fields.len(),
{
    if fields.len() == 0 {
        seq![]
    } else if fields.last().0 == name {
        values_named(fields.drop_last(), name).push(fields.last().1)
    } else {
        values_named(fields.drop_last(), name)
    }
}

/// The values that a header map holds under one name, in order.
pub open spec fn header_values(headers: HeaderMap, name: Seq<char>) -> Seq<Seq<u8>> {
    values_named(header_fields(headers), name)
}

/// The names under which fields stand, each once however many fields have it.
pub open spec fn names_in(fields: Seq<(Seq<char>, Seq<u8>)>) -> Set<Seq<char>> {
    fields.map_values(|field: (Seq<char>, Seq<u8>)| field.0).to_set()
}

/// Whether the fields of one name stand next to each other.
pub open spec fn grouped_by_name(fields: Seq<(Seq<char>, Seq<u8>)>) -> bool {
    forall|i: int, j: int, k: int|
        0 <= i < j < k < fields.len() && (#[trigger] fields[i]).0 == (#[trigger] fields[k]).0 ==> (
        #[trigger] fields[j]).0 == fields[i].0
}

/// Whether a name is one that a header map can be asked for by its text: a short
/// name in lower-case letters and hyphens.
pub open spec fn is_lookup_name(name: Seq<char>) -> bool {
    &&& 0 < name.len() <= 64
    &&& forall|i: int|
        0 <= i < name.len() ==> ('a' <= #[trigger] name[i] && name[i] <= 'z') || name[i] == '-'
}

/// `HeaderMap::new`: a map without fields.
pub assume_specification[ HeaderMap::new ]() -> (headers: HeaderMap)
    ensures
        header_fields(headers) == Seq::<(Seq<char>, Seq<u8>)>::empty(),
;

/// `HeaderMap::get`: the first of the values that stand under the name, or
/// nothing where none does.
#[verifier::external_body]
pub(crate) fn first_value<'a>(headers: &'a HeaderMap, name: &str) -> (value: Option<&'a HeaderValue>)
    requires
        is_lookup_name(name@),
    ensures
        value is Some <==> header_values(*headers, name@).len() > 0,
        value matches Some(v) ==> value_bytes(*v) == header_values(*headers, name@)[0],
{
    headers.get(name)
}

/// What name and value of each field hold.
pub open spec fn field_texts(fields: Seq<(&HeaderName, &HeaderValue)>) -> Seq<
    (Seq<char>, Seq<u8>),
> {
    fields.map_values(
        |field: (&HeaderName, &HeaderValue)| (name_text(*field.0), value_bytes(*field.1)),
    )
}

/// `HeaderMap::iter`: all the fields of the map, each once, with the fields of one
/// name next to each other.
#[verifier::external_body]
pub(crate) fn all_fields(headers: &HeaderMap) -> (fields: Vec<(&HeaderName, &HeaderValue)>)
    ensures
        field_texts(fields@) == header_fields(*headers),
        grouped_by_name(field_texts(fields@)),
{
    headers.iter().collect()
}

/// The number of names from which on a header map may refuse another field.
pub const ROOMY_NAMES: usize = 6554;

/// `HeaderMap::try_append`: the value becomes the last of those under the name,
/// and the values under other names stay as they are. Where the name is new to the
/// map, or its fields are the last ones, the new field is the last one of all. A
/// map that cannot grow stays as it is. It has a slot for each name, whatever the
/// number of values; it grows to 32768 slots, and a field is refused only when it
/// has so many and at least a fifth of them are taken, so that one with fewer names
/// always takes another field. With more names it depends on where the hashes of
/// the names have put them whether a field is refused, which is left unsaid.
#[verifier::external_body]
pub(crate) fn append_field(headers: &mut HeaderMap, name: &HeaderName, value: &HeaderValue) -> (added:
    Result<bool, MaxSizeReached>)
    ensures
        names_in(header_fields(*old(headers))).len() < ROOMY_NAMES ==> added is Ok,
        added is Err ==> header_fields(*final(headers)) == header_fields(*old(headers)),
        added is Ok && ((forall|i: int|
            0 <= i < header_fields(*old(headers)).len() ==> (#[trigger] header_fields(
                *old(headers),
            )[i]).0 != name_text(*name)) || header_fields(*old(headers)).last().0 == name_text(
            *name,
        )) ==> header_fields(*final(headers)) == header_fields(*old(headers)).push(
            (name_text(*name), value_bytes(*value)),
        ),
        added is Ok ==> forall|n: Seq<char>| #[trigger]
            header_values(*final(headers), n) == if n == name_text(*name) {
                header_values(*old(headers), n).push(value_bytes(*value))
            } else {
                header_values(*old(headers), n)
            },
{
    headers.try_append(name, value.clone())
}

/// `HeaderName::as_str`: the characters of the name.
pub assume_specification[ HeaderName::as_str ](name: &HeaderName) -> (text: &str)
    ensures
        text@ == name_text(*name),
;

/// Whether a byte can stand in a header value that is read as text: a visible
/// ASCII character, a blank or a tab.
pub open spec fn is_text_byte(byte: u8) -> bool {
    32 <= byte < 127 || byte == 9
}

/// The text that a header value is, where all of its bytes are text.
pub open spec fn text_of_bytes(bytes: Seq<u8>) -> Option<Seq<char>> {
    if forall|i: int| 0 <= i < bytes.len() ==> is_text_byte(#[trigger] bytes[i]) {
        Some(bytes.map_values(|b: u8| b as char))
    } else {
        None
    }
}

/// `HeaderValue::to_str`: a value of visible ASCII, blanks and tabs as text, and
/// an error for any other.
pub assume_specification[ HeaderValue::to_str ](value: &HeaderValue) -> (text: Result<
    &str,
    ToStrError,
>)
    ensures
        text is Ok <==> text_of_bytes(value_bytes(*value)) is Some,
        text matches Ok(t) ==> text_of_bytes(value_bytes(*value)) == Some(t@),
;

/// Whether a text is a URI.
pub uninterp spec fn uri_accepted(text: Seq<char>) -> bool;

/// The path and query of the URI that a text is: nothing where the text is no
/// URI, or one that has neither, as an authority alone.
pub uninterp spec fn uri_path_and_query(text: Seq<char>) -> Option<Seq<char>>;

/// `Uri::from_str`, of which only the verdict is kept.
#[verifier::external_body]
pub(crate) fn is_uri(text: &str) -> (accepted: bool)
    ensures
        accepted == uri_accepted(text@),
{
    text.parse::<hyper::Uri>().is_ok()
}

/// `Uri::path_and_query`, of the URI that a text is.
#[verifier::external_body]
pub(crate) fn path_and_query(text: &str) -> (path: Option<String>)
    ensures
        path is Some <==> uri_path_and_query(text@) is Some,
        path matches Some(p) ==> uri_path_and_query(text@) == Some(p@),
{
    let uri = text.parse::<hyper::Uri>().ok()?;
    uri.path_and_query().map(|path| path.as_str().to_owned())
}

/// A header field more adds its value at the end of the values under its name, and
/// nothing under any other name.
pub proof fn each_field_adds_to_its_name(
    fields: Seq<(Seq<char>, Seq<u8>)>,
    field: (Seq<char>, Seq<u8>),
    name: Seq<char>,
)
    ensures
        values_named(Seq::empty(), name) == Seq::<Seq<u8>>::empty(),
        values_named(fields.push(field), field.0) == values_named(fields, field.0).push(field.1),
        name != field.0 ==> values_named(fields.push(field), name) == values_named(fields, name),
{
    assert(fields.push(field).drop_last() =~= fields);
}

/// The first value under a name is that of the first field of that name.
pub proof fn the_first_field_of_a_name_comes_first(
    fields: Seq<(Seq<char>, Seq<u8>)>,
    name: Seq<char>,
    k: int,
)
    requires
        0 <= k < fields.len(),
        fields[k].0 == name,
        forall|j: int| 0 <= j < k ==> (#[trigger] fields[j]).0 != name,
    ensures
        values_named(fields, name).len() > 0,
        values_named(fields, name)[0] == fields[k].1,
    decreases fields.len(),
{
    let front = fields.drop_last();
    if k < front.len() {
        the_first_field_of_a_name_comes_first(front, name, k);
    } else {
        no_field_of_a_name_no_value(front, name);
    }
}

/// There is no value under a name that no field has.
pub proof fn no_field_of_a_name_no_value(fields: Seq<(Seq<char>, Seq<u8>)>, name: Seq<char>)
    requires
        forall|j: int| 0 <= j < fields.len() ==> (#[trigger] fields[j]).0 != name,
    ensures
        values_named(fields, name) == Seq::<Seq<u8>>::empty(),
    decreases fields.len(),
{
    if fields.len() > 0 {
        let front = fields.drop_last();
        assert forall|j: int| 0 <= j < front.len() implies (#[trigger] front[j]).0 != name by {
            assert(fields[j].0 != name);
        }
        assert(fields[fields.len() - 1].0 != name);
        no_field_of_a_name_no_value(front, name);
    }
}

/// A value of visible ASCII characters, blanks and tabs is the text of these
/// characters, each as it is; a value with any other byte is no text.
pub proof fn values_are_text_byte_by_byte(bytes: Seq<u8>)
    ensures
        (forall|i: int|
            0 <= i < bytes.len() ==> (32 <= #[trigger] bytes[i] <= 126 || bytes[i] == 9))
            ==> text_of_bytes(bytes) == Some(Seq::new(bytes.len(), |i: int| bytes[i] as char)),
        (exists|i: int|
            0 <= i < bytes.len() && !(32 <= #[trigger] bytes[i] <= 126 || bytes[i] == 9))
            ==> text_of_bytes(bytes) is None,
{
    if forall|i: int| 0 <= i < bytes.len() ==> (32 <= #[trigger] bytes[i] <= 126 || bytes[i] == 9) {
        assert forall|i: int| 0 <= i < bytes.len() implies is_text_byte(#[trigger] bytes[i]) by {
        }
        assert(bytes.map_values(|b: u8| b as char) =~= Seq::new(
            bytes.len(),
            |i: int| bytes[i] as char,
        ));
    } else {
        let i = choose|i: int|
            0 <= i < bytes.len() && !(32 <= #[trigger] bytes[i] <= 126 || bytes[i] == 9);
        assert(!is_text_byte(bytes[i]));
    }
}

/// The values under a name in a header map are those of its fields of that name.
pub proof fn a_map_has_the_values_of_its_fields(headers: HeaderMap, name: Seq<char>)
    ensures
        header_values(headers, name) == values_named(header_fields(headers), name),
{
}

/// The texts of header fields are those of their names and values, one for one.
pub proof fn field_texts_are_those_of_the_fields(fields: Seq<(&HeaderName, &HeaderValue)>)
    ensures
        field_texts(fields).len() == fields.len(),
        forall|i: int|
            0 <= i < fields.len() ==> (#[trigger] field_texts(fields)[i]).0 == name_text(
                *fields[i].0,
            ) && field_texts(fields)[i].1 == value_bytes(*fields[i].1),
{
}

/// Fields are grouped by name exactly where any field between two of one name has
/// that name too.
pub proof fn grouped_fields_have_no_other_between(fields: Seq<(Seq<char>, Seq<u8>)>)
    ensures
        grouped_by_name(fields) <==> (forall|i: int, j: int, k: int|
            0 <= i < j < k < fields.len() && #[trigger] fields[i].0 == #[trigger] fields[k].0
                ==> #[trigger] fields[j].0 == fields[i].0),
{
}

/// A name is among those of some fields exactly where one of the fields has it.
pub proof fn names_are_those_of_the_fields(fields: Seq<(Seq<char>, Seq<u8>)>, name: Seq<char>)
    ensures
        names_in(fields).finite(),
        names_in(fields).contains(name) <==> exists|i: int|
            0 <= i < fields.len() && (#[trigger] fields[i]).0 == name,
{
    let names = fields.map_values(|field: (Seq<char>, Seq<u8>)| field.0);
    vstd::seq_lib::seq_to_set_is_finite(names);
    if names.contains(name) {
        let i = choose|i: int| 0 <= i < names.len() && names[i] == name;
        assert(fields[i].0 == name);
    }
    if exists|i: int| 0 <= i < fields.len() && (#[trigger] fields[i]).0 == name {
        let i = choose|i: int| 0 <= i < fields.len() && (#[trigger] fields[i]).0 == name;
        assert(names[i] == name);
    }
}

} // verus!
