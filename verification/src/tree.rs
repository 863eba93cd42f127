//! The tag tree inside a record and the one field read from it. Decoding is
//! done by the `nbt` crate; this module models what it yields and looks the
//! field up.

use crate::frame::{document_limit, is_framed};
use crate::verdict::Failure;
use vstd::prelude::*;

verus! {

/// A decoded tag tree as `nbt` holds it, opaque here.
#[verifier::external_type_specification]
#[verifier::external_body]
pub struct ExBlob(nbt::Blob);

/// One value of a tag tree as `nbt` holds it, opaque here.
#[verifier::external_type_specification]
#[verifier::external_body]
pub struct ExValue(nbt::Value);

/// The error of `nbt`'s readers, carried through unread.
#[verifier::external_type_specification]
#[verifier::external_body]
pub struct ExTreeError(nbt::Error);

/// A value of a tag tree, as far as this library tells values apart: a
/// 64-bit integer, a compound of named values, or anything else.
pub enum Node {
    /// A 64-bit signed integer.
    Long(i64),
    /// Values under their names.
    Compound(Map<Seq<char>, Node>),
    /// A value of any other type.
    Other,
}

/// What `nbt::Blob::from_reader` makes of `data`: the root's named values,
/// or `None` where it reports an error.
pub uninterp spec fn tree_root(data: Seq<u8>) -> Option<Map<Seq<char>, Node>>;

/// The named values that a `nbt::Blob` holds.
pub uninterp spec fn blob_fields(blob: nbt::Blob) -> Map<Seq<char>, Node>;

/// What a `nbt::Value` is.
pub uninterp spec fn value_node(value: nbt::Value) -> Node;

/// Calls `nbt::Blob::from_reader` on `data`. Trusted: the outcome is the
/// one that `tree_root` names, an `Ok` holding exactly those named values and
/// an `Err` standing for `None`. The reader sizes its buffers by the counts
/// it meets before it looks for the items, and calls itself once for each
/// level of nesting, so it is only handed framed data, where every count is
/// non-negative and no larger than what follows it, and the nesting is
/// bounded.
#[verifier::external_body]
pub(crate) fn read_blob(data: &[u8]) -> (r: Result<nbt::Blob, nbt::Error>)
    requires
        is_framed(data@),
    ensures
        match r {
            Ok(blob) => tree_root(data@) == Some(blob_fields(blob)),
            Err(_) => tree_root(data@) is None,
        },
{
    let mut source = data;
    nbt::Blob::from_reader(&mut source)
}

/// Calls `nbt::Blob::get`. Trusted: it returns the value stored under
/// `name`, and `None` exactly where the blob holds none of that name.
#[verifier::external_body]
pub(crate) fn blob_field<'a>(blob: &'a nbt::Blob, name: &'static str) -> (r: Option<&'a nbt::Value>)
    ensures
        match r {
            Some(value) => blob_fields(*blob).contains_key(name@) && blob_fields(*blob)[name@]
                == value_node(*value),
            None => !blob_fields(*blob).contains_key(name@),
        },
{
    blob.get(name)
}

/// Looks `name` up in a `nbt::Value::Compound` with the `get` of its map.
/// Trusted: it returns the value stored under `name`, and `None` exactly
/// where `value` is no compound or holds none of that name.
#[verifier::external_body]
pub(crate) fn value_field<'a>(value: &'a nbt::Value, name: &str) -> (r: Option<&'a nbt::Value>)
    ensures
        match r {
            Some(child) => value_node(*value) matches Node::Compound(fields) && fields.contains_key(
                name@,
            ) && fields[name@] == value_node(*child),
            None => !(value_node(*value) matches Node::Compound(fields) && fields.contains_key(
                name@,
            )),
        },
{
    match value {
        nbt::Value::Compound(fields) => fields.get(name),
        _ => None,
    }
}

/// Takes the number out of a `nbt::Value::Long`. Trusted: it returns the
/// number, and `None` exactly where `value` is of another kind.
#[verifier::external_body]
pub(crate) fn value_long(value: &nbt::Value) -> (r: Option<i64>)
    ensures
        r == (match value_node(*value) {
            Node::Long(time) => Some(time),
            _ => None,
        }),
{
    match value {
        nbt::Value::Long(time) => Some(*time),
        _ => None,
    }
}

/// The name of the compound that holds a cell's own data.
pub open spec fn level_name() -> Seq<char> {
    "Level"@
}

/// The name of the field that counts how long a cell was inhabited.
pub open spec fn time_name() -> Seq<char> {
    "InhabitedTime"@
}

/// The inhabited time that a tree records: the 64-bit integer of that name
/// inside the root's compound `Level`. `None` where either is missing or
/// of another kind.
pub open spec fn level_time(root: Map<Seq<char>, Node>) -> Option<i64> {
    if root.contains_key(level_name()) {
        match root[level_name()] {
            Node::Compound(level) => if level.contains_key(time_name()) {
                match level[time_name()] {
                    Node::Long(time) => Some(time),
                    _ => None,
                }
            } else {
                None
            },
            _ => None,
        }
    } else {
        None
    }
}

/// What decoding `data` and reading the inhabited time comes to: an error
/// where `data` is not framed as a tag tree or the decoder rejects it, else
/// the time that the tree records, if any.
pub open spec fn decoded_time(data: Seq<u8>) -> Result<Option<i64>, Failure> {
    if !is_framed(data) {
        Err(Failure::Malformed)
    } else {
        match tree_root(data) {
            Some(root) => Ok(level_time(root)),
            None => Err(Failure::Malformed),
        }
    }
}

/// Reads the inhabited time out of a decoded tree.
pub fn blob_time(blob: &nbt::Blob) -> (r: Option<i64>)
    ensures
        r == level_time(blob_fields(*blob)),
{
    match blob_field(blob, "Level") {
        None => None,
        Some(level) => match value_field(level, "InhabitedTime") {
            None => None,
            Some(time) => value_long(time),
        },
    }
}

/// Decodes the tag tree in `data` and reads the inhabited time out of it.
/// A tree without the field is no error: it has no time to report.
pub fn inhabited_time(data: &[u8]) -> (r: Result<Option<i64>, Failure>)
    ensures
        r == decoded_time(data@),
{
    match document_limit(data) {
        None => Err(Failure::Malformed),
        Some(_) => match read_blob(data) {
            Ok(blob) => Ok(blob_time(&blob)),
            Err(_) => Err(Failure::Malformed),
        },
    }
}

} // verus!
