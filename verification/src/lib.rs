use vstd::prelude::*;

pub mod text;
pub mod archive_format;
pub mod archive;
pub mod buffer;
pub mod codecs;
pub mod compression;
pub mod compressor;
pub mod decompressor;
pub mod digest;
pub mod hash_fns;
pub mod hash_digest;
pub mod hash;
pub mod hash_algorithm;
pub mod scope;
pub mod allow_list;
pub mod sandbox;
pub mod urls;
pub mod storage;
pub mod encodings;
pub mod bytes;
pub mod download;
pub mod game_tag;
pub mod assoc;
pub mod install;
pub mod json;
pub mod game_info;
pub mod manifest;
pub mod path_order;
pub mod path_digest;
pub mod game_entries;

verus! {

} // verus!
