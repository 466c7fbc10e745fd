use vstd::prelude::*;

use crate::text::{chars_of, ends_with, seq_ends_with, str_eq};

verus! {

/// Archive formats known to the library.
#[derive(Debug, Clone, Copy, PartialEq, Eq, Hash, Structural)]
pub enum ArchiveFormat {
    Tar,
    Zip,
    Sevenz,
}

/// File name extensions by which each format is recognized, in the order
/// they are tried.
pub open spec fn format_extensions(format: ArchiveFormat) -> Seq<Seq<char>> {
    match format {
        ArchiveFormat::Tar => seq![
            ".tar"@, ".tar.xz"@, ".tar.gz"@, ".tar.bz2"@, ".tar.zst"@, ".tar.zstd"@,
            ".txz"@, ".tgz"@, ".tbz2"@, ".tzst"@, ".tzstd"@,
        ],
        ArchiveFormat::Zip => seq![".zip"@],
        ArchiveFormat::Sevenz => seq![".7z"@, ".7z.001"@, ".zip.001"@],
    }
}

/// `name` ends with one of the extensions of `format`.
pub open spec fn has_extension_of(name: Seq<char>, format: ArchiveFormat) -> bool {
    exists|i: int|
        0 <= i < format_extensions(format).len() && #[trigger] seq_ends_with(
            name,
            format_extensions(format)[i],
        )
}

/// Format predicted from a file name: formats are tried in the order tar,
/// zip, 7z; the first one with a matching extension wins.
pub open spec fn format_of_filename(name: Seq<char>) -> Option<ArchiveFormat> {
    if has_extension_of(name, ArchiveFormat::Tar) {
        Some(ArchiveFormat::Tar)
    } else if has_extension_of(name, ArchiveFormat::Zip) {
        Some(ArchiveFormat::Zip)
    } else if has_extension_of(name, ArchiveFormat::Sevenz) {
        Some(ArchiveFormat::Sevenz)
    } else {
        None
    }
}

/// Name of a format.
pub open spec fn format_name(format: ArchiveFormat) -> Seq<char> {
    match format {
        ArchiveFormat::Tar => "tar"@,
        ArchiveFormat::Zip => "zip"@,
        ArchiveFormat::Sevenz => "7z"@,
    }
}

/// Format named by a string, if any.
pub open spec fn format_of_name(s: Seq<char>) -> Option<ArchiveFormat> {
    if s == "tar"@ {
        Some(ArchiveFormat::Tar)
    } else if s == "zip"@ {
        Some(ArchiveFormat::Zip)
    } else if s == "7z"@ || s == "sevenz"@ {
        Some(ArchiveFormat::Sevenz)
    } else {
        None
    }
}

fn extensions(format: ArchiveFormat) -> (r: Vec<&'static str>)
    ensures
        r@.len() == format_extensions(format).len(),
        forall|i: int| 0 <= i < r@.len() ==> #[trigger] r@[i]@ == format_extensions(format)[i],
{
    match format {
        ArchiveFormat::Tar => vec![
            ".tar", ".tar.xz", ".tar.gz", ".tar.bz2", ".tar.zst", ".tar.zstd", ".txz", ".tgz",
            ".tbz2", ".tzst", ".tzstd",
        ],
        ArchiveFormat::Zip => vec![".zip"],
        ArchiveFormat::Sevenz => vec![".7z", ".7z.001", ".zip.001"],
    }
}

fn matches_format(name: &[char], format: ArchiveFormat) -> (r: bool)
    ensures
        r == has_extension_of(name@, format),
{
    let exts = extensions(format);
    let mut i: usize = 0;
    while i < exts.len()
        invariant
            exts@.len() == format_extensions(format).len(),
            forall|k: int| 0 <= k < exts@.len() ==> #[trigger] exts@[k]@ == format_extensions(format)[k],
            i <= exts@.len(),
            forall|k: int| 0 <= k < i ==> !#[trigger] seq_ends_with(name@, format_extensions(format)[k]),
        decreases exts@.len() - i,
    {
        if ends_with(name, exts[i]) {
            assert(seq_ends_with(name@, format_extensions(format)[i as int]));
            return true;
        }
        i = i + 1;
    }
    false
}

impl ArchiveFormat {
    /// Predict archive format from its filename.
    pub fn from_filename(name: &str) -> (r: Option<ArchiveFormat>)
        ensures
            r == format_of_filename(name@),
    {
        let cs = chars_of(name);
        if matches_format(cs.as_slice(), ArchiveFormat::Tar) {
            Some(ArchiveFormat::Tar)
        } else if matches_format(cs.as_slice(), ArchiveFormat::Zip) {
            Some(ArchiveFormat::Zip)
        } else if matches_format(cs.as_slice(), ArchiveFormat::Sevenz) {
            Some(ArchiveFormat::Sevenz)
        } else {
            None
        }
    }

    /// Name of the format.
    pub fn name(&self) -> (r: &'static str)
        ensures
            r@ == format_name(*self),
    {
        match self {
            ArchiveFormat::Tar => "tar",
            ArchiveFormat::Zip => "zip",
            ArchiveFormat::Sevenz => "7z",
        }
    }

    /// Parse a format from its name; `"sevenz"` is accepted for 7z too.
    /// The error message quotes the input as given.
    pub fn from_str(s: &str) -> (r: Result<ArchiveFormat, String>)
        ensures
            format_of_name(s@) matches Some(f) ==> r == Ok::<ArchiveFormat, String>(f),
            format_of_name(s@) is None ==> (r matches Err(msg) && msg@ == "unsupported format: "@
                + s@),
    {
        if str_eq(s, "tar") {
            Ok(ArchiveFormat::Tar)
        } else if str_eq(s, "zip") {
            Ok(ArchiveFormat::Zip)
        } else if str_eq(s, "7z") || str_eq(s, "sevenz") {
            Ok(ArchiveFormat::Sevenz)
        } else {
            let mut msg = String::from_str("unsupported format: ");
            msg.append(s);
            Err(msg)
        }
    }
}

/// Parsing the name of a format gives the format back.
pub proof fn lemma_format_name_roundtrip(format: ArchiveFormat)
    ensures
        format_of_name(format_name(format)) == Some(format),
{
    reveal_strlit("tar");
    reveal_strlit("zip");
    reveal_strlit("7z");
    reveal_strlit("sevenz");
    assert("zip"@[0] != "tar"@[0]);
    assert("7z"@.len() != "tar"@.len() && "7z"@.len() != "zip"@.len());
}


/// The last three characters of a text of at least three.
pub open spec fn tail3(x: Seq<char>) -> (char, char, char) {
    (x[x.len() - 3], x[x.len() - 2], x[x.len() - 1])
}

/// A suffix of `s + e` of three or more characters, with `e` of three or
/// more, ends as `e` does.
proof fn lemma_suffix_tail3(s: Seq<char>, e: Seq<char>, x: Seq<char>)
    requires
        e.len() >= 3,
        x.len() >= 3,
        seq_ends_with(s + e, x),
    ensures
        tail3(x) == tail3(e),
{
    let a = s + e;
    assert(a[a.len() - 3] == x[x.len() - 3]);
    assert(a[a.len() - 2] == x[x.len() - 2]);
    assert(a[a.len() - 1] == x[x.len() - 1]);
}

/// Every extension has at least three characters; the formats' extensions
/// end differently across formats.
proof fn lemma_extension_tails(f: ArchiveFormat, i: int, g: ArchiveFormat, k: int)
    requires
        0 <= i < format_extensions(f).len(),
        0 <= k < format_extensions(g).len(),
    ensures
        format_extensions(f)[i].len() >= 3,
        format_extensions(g)[k].len() >= 3,
        f != g ==> tail3(format_extensions(f)[i]) != tail3(format_extensions(g)[k]),
{
    reveal_strlit(".tar");
    reveal_strlit(".tar.xz");
    reveal_strlit(".tar.gz");
    reveal_strlit(".tar.bz2");
    reveal_strlit(".tar.zst");
    reveal_strlit(".tar.zstd");
    reveal_strlit(".txz");
    reveal_strlit(".tgz");
    reveal_strlit(".tbz2");
    reveal_strlit(".tzst");
    reveal_strlit(".tzstd");
    reveal_strlit(".zip");
    reveal_strlit(".7z");
    reveal_strlit(".7z.001");
    reveal_strlit(".zip.001");
}

/// A name made of any prefix and a listed extension of a format is
/// predicted to be of that format.
pub proof fn lemma_extension_selects_format(s: Seq<char>, f: ArchiveFormat, i: int)
    requires
        0 <= i < format_extensions(f).len(),
    ensures
        format_of_filename(s + format_extensions(f)[i]) == Some(f),
{
    let e = format_extensions(f)[i];
    let name = s + e;
    lemma_extension_tails(f, i, f, i);
    assert(name.subrange(name.len() - e.len(), name.len() as int) =~= e);
    assert(seq_ends_with(name, e));
    assert(has_extension_of(name, f));
    assert forall|g: ArchiveFormat, k: int|
        g != f && 0 <= k < format_extensions(g).len() implies !#[trigger] seq_ends_with(
        name,
        format_extensions(g)[k],
    ) by {
        lemma_extension_tails(f, i, g, k);
        if seq_ends_with(name, format_extensions(g)[k]) {
            lemma_suffix_tail3(s, e, format_extensions(g)[k]);
        }
    }
    if f != ArchiveFormat::Tar {
        assert(!has_extension_of(name, ArchiveFormat::Tar));
    }
    if f == ArchiveFormat::Sevenz {
        assert(!has_extension_of(name, ArchiveFormat::Zip));
    }
}

} // verus!
