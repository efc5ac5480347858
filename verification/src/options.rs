//! Assembly of flat key-value option lists into the remote client's
//! metadata, tag and property containers.
//!
//! The command line collects `KEY=VALUE` pairs; the remote calls take the
//! storage client's own container types. The containers are opaque here, so
//! each is declared together with a name for what it holds, and the small
//! set of container operations the assembly needs is trusted against the
//! client library's source. The assembly loops themselves are verified: the
//! built container holds exactly the pairs that were handed in.

use azure_core::request_options::Metadata;
use azure_storage_blobs::prelude::Tags;
use azure_storage_datalake::Properties;
use vstd::prelude::*;

verus! {

/// The key-value map described by a pair list when inserted left to right:
/// a later pair wins over an earlier one with the same key.
pub open spec fn kv_map(pairs: Seq<(String, String)>) -> Map<Seq<char>, Seq<char>>
    decreases pairs.len(),
{
    if pairs.len() == 0 {
        Map::empty()
    } else {
        kv_map(pairs.drop_last()).insert(pairs.last().0@, pairs.last().1@)
    }
}

/// The empty entry map.
pub open spec fn no_entries() -> Map<Seq<char>, Seq<char>> {
    Map::empty()
}

/// The views of a pair list, in order.
pub open spec fn pairs_view(pairs: Seq<(String, String)>) -> Seq<(Seq<char>, Seq<char>)> {
    pairs.map_values(|p: (String, String)| (p.0@, p.1@))
}

#[verifier::external_type_specification]
#[verifier::external_body]
pub struct ExTags(Tags);

#[verifier::external_type_specification]
#[verifier::external_body]
pub struct ExMetadata(Metadata);

#[verifier::external_type_specification]
#[verifier::external_body]
pub struct ExProperties(Properties);

/// The tag pairs a `Tags` container holds, in insertion order (the
/// container keeps a list, not a map, so duplicates stay).
pub uninterp spec fn tags_entries(t: Tags) -> Seq<(Seq<char>, Seq<char>)>;

/// The entries a `Metadata` container holds, keyed by name, for the values
/// that are UTF-8 text (the only kind this crate puts in).
pub uninterp spec fn metadata_entries(m: Metadata) -> Map<Seq<char>, Seq<char>>;

/// The entries a `Properties` container holds, keyed by name.
pub uninterp spec fn properties_entries(p: Properties) -> Map<Seq<char>, Seq<char>>;

/// Relies on azure_storage_blobs' `Tags::new`, which holds no tags.
#[verifier::external_body]
fn tags_new() -> (t: Tags)
    ensures
        tags_entries(t) == Seq::<(Seq<char>, Seq<char>)>::empty(),
{
    Tags::new()
}

/// Relies on azure_storage_blobs' `Tags::insert`, which appends the pair to
/// the container's tag list.
#[verifier::external_body]
fn tags_insert(t: &mut Tags, key: String, value: String)
    ensures
        tags_entries(*final(t)) == tags_entries(*old(t)).push((key@, value@)),
{
    t.insert(key, value);
}

/// Relies on `Tags`' `IntoIterator`, which yields each tag's key and value
/// in list order.
#[verifier::external_body]
fn tags_into_pairs(t: Tags) -> (r: Vec<(String, String)>)
    ensures
        pairs_view(r@) == tags_entries(t),
{
    t.into_iter().collect()
}

/// Relies on azure_core's `Metadata::new`, which holds no entries.
#[verifier::external_body]
fn metadata_new() -> (m: Metadata)
    ensures
        metadata_entries(m) == no_entries(),
{
    Metadata::new()
}

/// Relies on azure_core's `Metadata::insert`, a map insert of the UTF-8
/// bytes of `value` under `key`.
#[verifier::external_body]
fn metadata_insert(m: &mut Metadata, key: String, value: String)
    ensures
        metadata_entries(*final(m)) == metadata_entries(*old(m)).insert(key@, value@),
{
    m.insert(key, value);
}

/// Relies on azure_core's `Metadata::get`, a map lookup returning the
/// stored bytes; a value that is not UTF-8 text is treated as absent.
#[verifier::external_body]
fn metadata_get(m: &Metadata, key: &str) -> (r: Option<String>)
    ensures
        match r {
            Some(v) => metadata_entries(*m).contains_key(key@) && v@ == metadata_entries(
                *m,
            )[key@],
            None => !metadata_entries(*m).contains_key(key@),
        },
{
    match m.get(key) {
        Some(bytes) => match String::from_utf8(bytes.to_vec()) {
            Ok(v) => Some(v),
            Err(_) => None,
        },
        None => None,
    }
}

/// Relies on azure_storage_datalake's `Properties::new`, which holds no
/// entries.
#[verifier::external_body]
fn properties_new() -> (p: Properties)
    ensures
        properties_entries(p) == no_entries(),
{
    Properties::new()
}

/// Relies on azure_storage_datalake's `Properties::insert`, an ordered-map
/// insert of `value` under `key`.
#[verifier::external_body]
fn properties_insert(p: &mut Properties, key: String, value: String)
    ensures
        properties_entries(*final(p)) == properties_entries(*old(p)).insert(key@, value@),
{
    p.insert(key, value);
}

/// Relies on azure_storage_datalake's `Properties::get`, a map lookup.
#[verifier::external_body]
fn properties_get(p: &Properties, key: &str) -> (r: Option<String>)
    ensures
        match r {
            Some(v) => properties_entries(*p).contains_key(key@) && v@ == properties_entries(
                *p,
            )[key@],
            None => !properties_entries(*p).contains_key(key@),
        },
{
    p.get(key).map(|c| c.clone().into_owned())
}

/// Build the remote tag container from `KEY=VALUE` pairs: it holds exactly
/// those pairs, in order.
pub fn to_tags(value: Vec<(String, String)>) -> (t: Tags)
    ensures
        tags_entries(t) == pairs_view(value@),
{
    let mut tags = tags_new();
    let mut i: usize = 0;
    while i < value.len()
        invariant
            i <= value@.len(),
            tags_entries(tags) == pairs_view(value@.subrange(0, i as int)),
        decreases value@.len() - i,
    {
        let key = value[i].0.clone();
        let val = value[i].1.clone();
        tags_insert(&mut tags, key, val);
        i = i + 1;
        proof {
            assert(value@.subrange(0, i as int).drop_last() =~= value@.subrange(
                0,
                i as int - 1,
            ));
            assert(tags_entries(tags) =~= pairs_view(value@.subrange(0, i as int)));
        }
    }
    proof {
        assert(value@.subrange(0, value@.len() as int) =~= value@);
    }
    tags
}

/// The tag pairs held by a tag container, in order.
pub fn tag_pairs(t: Tags) -> (r: Vec<(String, String)>)
    ensures
        pairs_view(r@) == tags_entries(t),
{
    tags_into_pairs(t)
}

/// Build the remote metadata container from `KEY=VALUE` pairs: it maps
/// exactly the given keys, a later pair winning over an earlier one.
pub fn to_metadata(value: Vec<(String, String)>) -> (m: Metadata)
    ensures
        metadata_entries(m) == kv_map(value@),
{
    let mut metadata = metadata_new();
    let mut i: usize = 0;
    while i < value.len()
        invariant
            i <= value@.len(),
            metadata_entries(metadata) == kv_map(value@.subrange(0, i as int)),
        decreases value@.len() - i,
    {
        let key = value[i].0.clone();
        let val = value[i].1.clone();
        metadata_insert(&mut metadata, key, val);
        i = i + 1;
        proof {
            assert(value@.subrange(0, i as int).drop_last() =~= value@.subrange(
                0,
                i as int - 1,
            ));
            assert(metadata_entries(metadata) =~= kv_map(value@.subrange(0, i as int)));
        }
    }
    proof {
        assert(value@.subrange(0, value@.len() as int) =~= value@);
    }
    metadata
}

/// The metadata value stored under `key`, if any.
pub fn metadata_value(m: &Metadata, key: &str) -> (r: Option<String>)
    ensures
        match r {
            Some(v) => metadata_entries(*m).contains_key(key@) && v@ == metadata_entries(
                *m,
            )[key@],
            None => !metadata_entries(*m).contains_key(key@),
        },
{
    metadata_get(m, key)
}

/// Build the remote properties container from `KEY=VALUE` pairs: it maps
/// exactly the given keys, a later pair winning over an earlier one.
pub fn to_properties(value: Vec<(String, String)>) -> (p: Properties)
    ensures
        properties_entries(p) == kv_map(value@),
{
    let mut properties = properties_new();
    let mut i: usize = 0;
    while i < value.len()
        invariant
            i <= value@.len(),
            properties_entries(properties) == kv_map(value@.subrange(0, i as int)),
        decreases value@.len() - i,
    {
        let key = value[i].0.clone();
        let val = value[i].1.clone();
        properties_insert(&mut properties, key, val);
        i = i + 1;
        proof {
            assert(value@.subrange(0, i as int).drop_last() =~= value@.subrange(
                0,
                i as int - 1,
            ));
            assert(properties_entries(properties) =~= kv_map(value@.subrange(0, i as int)));
        }
    }
    proof {
        assert(value@.subrange(0, value@.len() as int) =~= value@);
    }
    properties
}

/// The property value stored under `key`, if any.
pub fn property_value(p: &Properties, key: &str) -> (r: Option<String>)
    ensures
        match r {
            Some(v) => properties_entries(*p).contains_key(key@) && v@ == properties_entries(
                *p,
            )[key@],
            None => !properties_entries(*p).contains_key(key@),
        },
{
    properties_get(p, key)
}

} // verus!
