use vstd::prelude::*;

use crate::hash::{fit_hash_size, hash_text_bytes, nix_base32_decode_panics, nix_base32_decode_would_panic};
use crate::install::{listed_view, opt_hash_view, ListedView, ManifestResource, PackageManifest};
use crate::json::{json_get, json_text, JsonValue};
use crate::storage::ResourceFormat;
use crate::text::str_eq;

verus! {

/// Resource format named by a manifest: `package`, `file` or `archive`.
pub open spec fn format_of_text(t: Seq<char>) -> Option<ResourceFormat> {
    if t == "package"@ {
        Some(ResourceFormat::Package)
    } else if t == "file"@ {
        Some(ResourceFormat::File)
    } else if t == "archive"@ {
        Some(ResourceFormat::Archive)
    } else {
        None
    }
}

/// The resource that a manifest entry describes: its `uri` string, and its
/// `format` and `hash` where they are strings. An unknown format name or an
/// undecodable hash text fails the entry, as a missing `uri` does.
pub open spec fn listed_resource(info: JsonValue) -> Option<(Seq<char>, Option<ResourceFormat>, Option<Seq<u8>>)> {
    let uri = json_text(json_get(info, "uri"@));
    let format = json_text(json_get(info, "format"@));
    let hash = json_text(json_get(info, "hash"@));
    if uri is None {
        None
    } else if format matches Some(t) && format_of_text(t) is None {
        None
    } else if hash matches Some(t) && hash_text_bytes(t) is None {
        None
    } else {
        Some(
            (
                uri->Some_0,
                match format {
                    Some(t) => format_of_text(t),
                    None => None,
                },
                match hash {
                    Some(t) => Some(fit_hash_size(hash_text_bytes(t)->Some_0)),
                    None => None,
                },
            ),
        )
    }
}

/// The resources of a manifest table: none where the table is absent,
/// its entries in order where it is an object whose entries all decode.
pub open spec fn listed_resources(v: Option<JsonValue>) -> Option<Seq<ListedView>> {
    match v {
        None => Some(Seq::empty()),
        Some(JsonValue::Object(f)) => if forall|i: int|
            0 <= i < f@.len() ==> #[trigger] listed_resource(f@[i].1) is Some {
            Some(f@.map_values(|p: (String, JsonValue)| (p.0@, listed_resource(p.1)->Some_0)))
        } else {
            None
        },
        Some(_) => None,
    }
}

/// The inputs and outputs of a manifest.
pub open spec fn manifest_of_json(v: JsonValue) -> Option<(Seq<ListedView>, Seq<ListedView>)> {
    let inputs = listed_resources(json_get(v, "inputs"@));
    let outputs = listed_resources(json_get(v, "outputs"@));
    if inputs is Some && outputs is Some {
        Some((inputs->Some_0, outputs->Some_0))
    } else {
        None
    }
}

/// Reading the entry `info` reaches its hash text, and decoding that text
/// as nix-base32 would index past the decoder's buffer.
pub open spec fn resource_panics(info: JsonValue) -> bool {
    &&& json_text(json_get(info, "uri"@)) is Some
    &&& (json_text(json_get(info, "format"@)) matches Some(t) ==> format_of_text(t) is Some)
    &&& json_text(json_get(info, "hash"@)) matches Some(t) && nix_base32_decode_panics(t)
}

/// Reading the entries in order reaches one whose hash text panics.
pub open spec fn entries_panic(f: Seq<(String, JsonValue)>) -> bool {
    exists|i: int|
        0 <= i < f.len() && (forall|j: int| 0 <= j < i ==> #[trigger] listed_resource(f[j].1) is Some)
            && #[trigger] resource_panics(f[i].1)
}

/// Reading a table reaches a hash text that panics.
pub open spec fn table_panics(v: Option<JsonValue>) -> bool {
    v matches Some(JsonValue::Object(f)) && entries_panic(f@)
}

/// Reading the manifest reaches a hash text that panics: in `inputs`, or
/// in `outputs` once `inputs` have been read.
pub open spec fn manifest_json_panics(v: JsonValue) -> bool {
    ||| table_panics(json_get(v, "inputs"@))
    ||| listed_resources(json_get(v, "inputs"@)) is Some && table_panics(json_get(v, "outputs"@))
}

/// The format a manifest names.
pub fn format_from_text(t: &str) -> (r: Option<ResourceFormat>)
    ensures
        r == format_of_text(t@),
{
    if str_eq(t, "package") {
        Some(ResourceFormat::Package)
    } else if str_eq(t, "file") {
        Some(ResourceFormat::File)
    } else if str_eq(t, "archive") {
        Some(ResourceFormat::Archive)
    } else {
        None
    }
}

/// The text of a string member.
fn member_str<'a>(info: &'a JsonValue, key: &str) -> (r: Option<&'a str>)
    ensures
        r is Some <==> json_text(json_get(*info, key@)) is Some,
        r matches Some(s) ==> json_text(json_get(*info, key@)) == Some(s@),
{
    match info.get(key) {
        Some(x) => x.as_str(),
        None => None,
    }
}

/// Whether reading the entry `info` reaches a hash text that panics.
pub fn resource_would_panic(info: &JsonValue) -> (r: bool)
    ensures
        r == resource_panics(*info),
{
    if member_str(info, "uri").is_none() {
        return false;
    }
    match member_str(info, "format") {
        Some(t) => {
            if format_from_text(t).is_none() {
                return false;
            }
        },
        None => {},
    }
    match member_str(info, "hash") {
        Some(t) => nix_base32_decode_would_panic(t),
        None => false,
    }
}

/// The resource a manifest entry describes.
pub fn resource_from_json(info: &JsonValue) -> (r: Option<ManifestResource>)
    requires
        !resource_panics(*info),
    ensures
        r is Some <==> listed_resource(*info) is Some,
        r matches Some(m) ==> listed_resource(*info) == Some((m.uri@, m.format, opt_hash_view(m.hash))),
{
    let uri = match member_str(info, "uri") {
        Some(s) => s.to_owned(),
        None => return None,
    };
    let format = match member_str(info, "format") {
        Some(t) => match format_from_text(t) {
            Some(f) => Some(f),
            None => return None,
        },
        None => None,
    };
    let hash = match member_str(info, "hash") {
        Some(t) => {
            if nix_base32_decode_would_panic(t) {
                return None;
            }
            match crate::hash::Hash::from_base32(t) {
                Some(h) => Some(h),
                None => return None,
            }
        },
        None => None,
    };
    Some(ManifestResource { uri, format, hash })
}

/// The resources of a manifest table that is present.
pub fn resources_from_table(table: &JsonValue) -> (r: Option<Vec<(String, ManifestResource)>>)
    requires
        !table_panics(Some(*table)),
    ensures
        r is Some <==> listed_resources(Some(*table)) is Some,
        r matches Some(v) ==> listed_resources(Some(*table)) == Some(listed_view(v@)),
{
    match table {
        JsonValue::Object(f) => {
            let mut out: Vec<(String, ManifestResource)> = Vec::new();
            let mut i: usize = 0;
            while i < f.len()
                invariant
                    *table == JsonValue::Object(*f),
                    !entries_panic(f@),
                    i <= f@.len(),
                    out@.len() == i,
                    forall|j: int| 0 <= j < i ==> #[trigger] listed_resource(f@[j].1) is Some,
                    forall|j: int|
                        0 <= j < i ==> #[trigger] listed_view(out@)[j] == (
                            f@[j].0@,
                            listed_resource(f@[j].1)->Some_0,
                        ),
                decreases f@.len() - i,
            {
                let entry = &f[i];
                proof {
                    if resource_panics(entry.1) {
                        assert(entries_panic(f@));
                    }
                }
                match resource_from_json(&entry.1) {
                    Some(m) => {
                        let ghost before = out@;
                        let name = entry.0.clone();
                        out.push((name, m));
                        assert(listed_view(out@) =~= listed_view(before).push(
                            (entry.0@, (m.uri@, m.format, opt_hash_view(m.hash))),
                        ));
                    },
                    None => {
                        assert(!(listed_resource(f@[i as int].1) is Some));
                        return None;
                    },
                }
                i = i + 1;
            }
            assert(listed_view(out@) =~= f@.map_values(
                |p: (String, JsonValue)| (p.0@, listed_resource(p.1)->Some_0),
            ));
            Some(out)
        },
        _ => None,
    }
}

/// Whether reading a table that is present reaches a hash text that panics.
pub fn table_would_panic(table: &JsonValue) -> (r: bool)
    ensures
        r == table_panics(Some(*table)),
{
    match table {
        JsonValue::Object(f) => {
            let mut i: usize = 0;
            while i < f.len()
                invariant
                    *table == JsonValue::Object(*f),
                    i <= f@.len(),
                    forall|j: int| 0 <= j < i ==> #[trigger] listed_resource(f@[j].1) is Some,
                    forall|j: int| 0 <= j < i ==> !(#[trigger] resource_panics(f@[j].1)),
                decreases f@.len() - i,
            {
                if resource_would_panic(&f[i].1) {
                    return true;
                }
                if resource_from_json(&f[i].1).is_none() {
                    assert forall|k: int|
                        0 <= k < f@.len() && (forall|j: int| 0 <= j < k ==> #[trigger] listed_resource(f@[j].1) is Some)
                        implies !(#[trigger] resource_panics(f@[k].1)) by {
                        if k > i {
                            assert(listed_resource(f@[i as int].1) is Some);
                        }
                    }
                    return false;
                }
                i = i + 1;
            }
            false
        },
        _ => false,
    }
}

/// Whether reading the manifest `v` reaches a hash text that panics.
pub fn manifest_json_would_panic(v: &JsonValue) -> (r: bool)
    ensures
        r == manifest_json_panics(*v),
{
    match v.get("inputs") {
        Some(t) => {
            if table_would_panic(t) {
                return true;
            }
            if resources_from_table(t).is_none() {
                return false;
            }
        },
        None => {},
    }
    match v.get("outputs") {
        Some(t) => table_would_panic(t),
        None => false,
    }
}

/// The manifest `v` describes: its `inputs` and `outputs` tables.
pub fn manifest_from_json(v: &JsonValue) -> (r: Option<PackageManifest>)
    requires
        !manifest_json_panics(*v),
    ensures
        r is Some <==> manifest_of_json(*v) is Some,
        r matches Some(m) ==> manifest_of_json(*v) == Some((listed_view(m.inputs@), listed_view(m.outputs@))),
{
    let inputs = match v.get("inputs") {
        Some(t) => match resources_from_table(t) {
            Some(x) => x,
            None => return None,
        },
        None => Vec::new(),
    };
    let outputs = match v.get("outputs") {
        Some(t) => match resources_from_table(t) {
            Some(x) => x,
            None => return None,
        },
        None => Vec::new(),
    };
    proof {
        assert(listed_view(Seq::<(String, ManifestResource)>::empty()) =~= Seq::<ListedView>::empty());
    }
    Some(PackageManifest { inputs, outputs })
}

} // verus!
