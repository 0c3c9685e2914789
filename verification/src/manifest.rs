//! Reading the entry-point field of a package manifest.
//!
//! A manifest is a file of structured bytes. The only question the resolver
//! ever asks of one is: does field `F` hold a string value? Parsing is the
//! business of an outside parser; everything here speaks of its result
//! through the name [`manifest_string_field`].

use vstd::prelude::*;
use vstd::string::*;

verus! {

/// The string held under `field` when `bytes` parse as an object whose value
/// at `field` is a string; `None` on a parse failure, a non-object document, a
/// missing field, or a value of another type.
pub uninterp spec fn manifest_string_field(bytes: Seq<u8>, field: Seq<char>) -> Option<Seq<char>>;

/// Relies on `serde_json::from_slice` and `serde_json::Value`: parses the
/// manifest bytes and looks the field up in the top-level object. The result
/// depends on the bytes and the field name alone.
#[verifier::external_body]
fn read_string_field(bytes: &Vec<u8>, field: &str) -> (r: Option<String>)
    ensures
        r is Some <==> manifest_string_field(bytes@, field@) is Some,
        r is Some ==> r->0@ == manifest_string_field(bytes@, field@)->0,
{
    match serde_json::from_slice::<serde_json::Value>(bytes.as_slice()) {
        Ok(serde_json::Value::Object(map)) => match map.get(field) {
            Some(serde_json::Value::String(s)) => Some(s.clone()),
            _ => None,
        },
        _ => None,
    }
}

/// The value of the first field, in configured order, that the manifest holds
/// as a string.
pub open spec fn first_main_field(bytes: Seq<u8>, fields: Seq<Seq<char>>) -> Option<Seq<char>>
    decreases fields.len(),
{
    if fields.len() == 0 {
        None
    } else {
        match manifest_string_field(bytes, fields[0]) {
            Some(s) => Some(s),
            None => first_main_field(bytes, fields.drop_first()),
        }
    }
}

/// Scan the configured field names in order and return the value of the first
/// one the manifest holds as a string.
pub fn select_main_field(bytes: &Vec<u8>, fields: &Vec<String>) -> (r: Option<String>)
    ensures
        r is Some <==> first_main_field(bytes@, fields.deep_view()) is Some,
        r is Some ==> r->0@ == first_main_field(bytes@, fields.deep_view())->0,
{
    let ghost fdv = fields.deep_view();
    let mut j: usize = 0;
    proof {
        assert(fdv.skip(0) =~= fdv);
    }
    while j < fields.len()
        invariant
            j <= fields@.len(),
            fdv == fields.deep_view(),
            fdv.len() == fields@.len(),
            first_main_field(bytes@, fdv.skip(j as int)) == first_main_field(bytes@, fdv),
        decreases fields@.len() - j,
    {
        proof {
            assert(fdv.skip(j as int)[0] == fdv[j as int]);
            assert(fdv[j as int] == fields@[j as int]@);
        }
        let found = read_string_field(bytes, fields[j].as_str());
        if let Some(s) = found {
            return Some(s);
        }
        proof {
            assert(fdv.skip(j as int).drop_first() =~= fdv.skip(j + 1));
        }
        j = j + 1;
    }
    proof {
        assert(fdv.skip(j as int) =~= Seq::<Seq<char>>::empty());
    }
    None
}

} // verus!
