use vstd::prelude::*;

use crate::archive_format::{ArchiveFormat, format_of_filename};
use crate::text::{
    chars_eq, chars_of, find_chars_from, lemma_find_from_bounds, find_from, join, join_chars, parse_u64, parse_u64_chars, seq_starts_with,
    split_chars, split_str, starts_with, string_from_chars, sub_chars, trim, trim_chars, words, words_of,
};

verus! {

/// Errors of archive handling.
#[derive(Debug, Clone, PartialEq, Eq)]
pub enum ArchiveError {
    /// An input/output error, by its message.
    Io(String),
    /// No 7z program is installed.
    SevenzNotAvailable,
    /// The archive format is not supported.
    UnsupportedFormat(String),
    /// Extraction failed.
    ExtractionError(String),
}

/// One entry of an archive.
#[derive(Debug, Clone, PartialEq, Eq, Hash)]
pub struct ArchiveEntry {
    /// Relative path of the archive entry.
    pub path: String,
    /// Size of the archive entry.
    ///
    /// Depending on implementation this could either mean compressed or
    /// uncompressed size.
    pub size: u64,
}

impl View for ArchiveEntry {
    type V = (Seq<char>, u64);

    open spec fn view(&self) -> (Seq<char>, u64) {
        (self.path@, self.size)
    }
}

/// An archive file of a known format.
#[derive(Debug, Clone, PartialEq, Eq, Hash)]
pub enum Archive {
    Tar(String),
    Zip(String),
    Sevenz(String),
}

impl Archive {
    /// Path and format of the archive.
    pub open spec fn spec_parts(&self) -> (Seq<char>, ArchiveFormat) {
        match self {
            Archive::Tar(p) => (p@, ArchiveFormat::Tar),
            Archive::Zip(p) => (p@, ArchiveFormat::Zip),
            Archive::Sevenz(p) => (p@, ArchiveFormat::Sevenz),
        }
    }

    /// Open archive from the given file, predicting its format from the
    /// file name. `None` if the format is not supported.
    pub fn open(path: String) -> (r: Option<Archive>)
        ensures
            format_of_filename(path@) is None ==> r is None,
            format_of_filename(path@) matches Some(f) ==> (r matches Some(a) && a.spec_parts() == (
                path@,
                f,
            )),
    {
        match ArchiveFormat::from_filename(path.as_str()) {
            Some(format) => Archive::open_with_format(path, format),
            None => None,
        }
    }

    /// Open archive from the given file with already known format.
    pub fn open_with_format(path: String, format: ArchiveFormat) -> (r: Option<Archive>)
        ensures
            r matches Some(a) && a.spec_parts() == (path@, format),
    {
        match format {
            ArchiveFormat::Tar => Some(Archive::Tar(path)),
            ArchiveFormat::Zip => Some(Archive::Zip(path)),
            ArchiveFormat::Sevenz => Some(Archive::Sevenz(path)),
        }
    }

    /// Path of the archive.
    pub fn path(&self) -> (r: &String)
        ensures
            r@ == self.spec_parts().0,
    {
        match self {
            Archive::Tar(p) => p,
            Archive::Zip(p) => p,
            Archive::Sevenz(p) => p,
        }
    }

    /// Format of the archive.
    pub fn format(&self) -> (r: ArchiveFormat)
        ensures
            r == self.spec_parts().1,
    {
        match self {
            Archive::Tar(_) => ArchiveFormat::Tar,
            Archive::Zip(_) => ArchiveFormat::Zip,
            Archive::Sevenz(_) => ArchiveFormat::Sevenz,
        }
    }

    /// Entries of the archive from what its listing program printed
    /// (`tar -tvf` for tar archives, `7z l` for the others).
    pub fn get_entries(&self, listing: &str) -> (r: Result<Vec<ArchiveEntry>, ArchiveError>)
        requires
            self.spec_parts().1 != ArchiveFormat::Tar ==> split_str(listing@, sevenz_separator()).len()
                >= 2,
        ensures
            self.spec_parts().1 == ArchiveFormat::Tar ==> (r matches Ok(v) && v@.map_values(
                |e: ArchiveEntry| e@,
            ) == tar_listing_entries(listing@)),
            self.spec_parts().1 != ArchiveFormat::Tar ==> (r matches Ok(v) && v@.map_values(
                |e: ArchiveEntry| e@,
            ) == sevenz_listing_entries(listing@)),
    {
        match self {
            Archive::Tar(_) => Ok(parse_tar_listing(listing)),
            _ => Ok(parse_sevenz_listing(listing)),
        }
    }
}

/// Entry described by one line of `tar -tvf` output: the words of the line
/// (separated by spaces) are flags, owner, size, ..., path. Symbolic links
/// (flags starting with `l`) and lines that do not have this shape give
/// nothing.
pub open spec fn tar_line_entry(line: Seq<char>) -> Option<(Seq<char>, u64)> {
    let w = words(line, " "@);
    if w.len() >= 4 && parse_u64(w[2]) is Some && !seq_starts_with(w[0], "l"@) {
        Some((w.last(), parse_u64(w[2]).unwrap()))
    } else {
        None
    }
}

/// A `tar -tvf` line of at least four space-separated words (flags, owner,
/// size, ..., path) whose third word is a decimal size lists its last word
/// as a path of that size, unless its flags mark a symbolic link, which
/// lists nothing; shorter lines list nothing.
pub proof fn lemma_tar_line_lists_path(line: Seq<char>, n: u64)
    ensures
        words(line, " "@).len() >= 4 && parse_u64(words(line, " "@)[2]) == Some(n)
            && !seq_starts_with(words(line, " "@)[0], "l"@) ==> tar_line_entry(line) == Some(
            (words(line, " "@).last(), n),
        ),
        words(line, " "@).len() >= 1 && seq_starts_with(words(line, " "@)[0], "l"@)
            ==> tar_line_entry(line) is None,
        words(line, " "@).len() < 4 ==> tar_line_entry(line) is None,
{
}

/// Entries of the listing lines, up to the first line starting with nine
/// dashes.
pub open spec fn tar_entries(lines: Seq<Seq<char>>) -> Seq<(Seq<char>, u64)>
    decreases lines.len(),
{
    if lines.len() == 0 {
        seq![]
    } else if seq_starts_with(lines[0], "---------"@) {
        seq![]
    } else {
        match tar_line_entry(lines[0]) {
            Some(e) => seq![e] + tar_entries(lines.drop_first()),
            None => tar_entries(lines.drop_first()),
        }
    }
}

/// Entries listed by `tar -tvf`: its trimmed output, split into lines.
pub open spec fn tar_listing_entries(out: Seq<char>) -> Seq<(Seq<char>, u64)> {
    tar_entries(split_str(trim(out), "\n"@))
}

fn line_entry_tar(line: &[char]) -> (r: Option<ArchiveEntry>)
    ensures
        r matches Some(e) ==> tar_line_entry(line@) == Some(e@),
        r is None ==> tar_line_entry(line@) is None,
{
    let sp = chars_of(" ");
    proof {
        reveal_strlit(" ");
    }
    let w = words_of(line, sp.as_slice());
    if w.len() < 4 {
        return None;
    }
    let size = parse_u64_chars(w[2].as_slice());
    match size {
        None => None,
        Some(size) => {
            if starts_with(w[0].as_slice(), "l") {
                None
            } else {
                let path = w[w.len() - 1].clone();
                Some(ArchiveEntry { path: string_from_chars(path), size })
            }
        },
    }
}

/// Entries listed by `tar -tvf`, from what it printed.
pub fn parse_tar_listing(out: &str) -> (r: Vec<ArchiveEntry>)
    ensures
        r@.map_values(|e: ArchiveEntry| e@) == tar_listing_entries(out@),
{
    let cs = chars_of(out);
    let t = trim_chars(cs.as_slice());
    let nl = chars_of("\n");
    proof {
        reveal_strlit("\n");
    }
    let lines = split_chars(t.as_slice(), nl.as_slice());
    let ghost ls = split_str(trim(out@), "\n"@);
    assert(ls.skip(0) =~= ls);
    let mut res: Vec<ArchiveEntry> = Vec::new();
    let mut i: usize = 0;
    while i < lines.len()
        invariant
            lines@.len() == ls.len(),
            forall|k: int| 0 <= k < lines@.len() ==> #[trigger] lines@[k]@ == ls[k],
            i <= lines@.len(),
            tar_entries(ls) == res@.map_values(|e: ArchiveEntry| e@) + tar_entries(ls.skip(i as int)),
        ensures
            tar_entries(ls) == res@.map_values(|e: ArchiveEntry| e@),
        decreases lines@.len() - i,
    {
        proof {
            assert(ls.skip(i as int).drop_first() =~= ls.skip(i + 1));
            assert(ls.skip(i as int)[0] == ls[i as int]);
        }
        if starts_with(lines[i].as_slice(), "---------") {
            assert(tar_entries(ls.skip(i as int)) == Seq::<(Seq<char>, u64)>::empty());
            assert(res@.map_values(|e: ArchiveEntry| e@) =~= res@.map_values(|e: ArchiveEntry| e@)
                + Seq::<(Seq<char>, u64)>::empty());
            break;
        }
        match line_entry_tar(lines[i].as_slice()) {
            Some(e) => {
                proof {
                    assert(res@.push(e).map_values(|x: ArchiveEntry| x@) =~= res@.map_values(
                        |x: ArchiveEntry| x@,
                    ).push(e@));
                }
                res.push(e);
            },
            None => {},
        }
        i = i + 1;
        proof {
            if i == lines@.len() {
                assert(ls.skip(i as int).len() == 0);
                assert(res@.map_values(|e: ArchiveEntry| e@) =~= res@.map_values(|e: ArchiveEntry| e@)
                    + Seq::<(Seq<char>, u64)>::empty());
            }
        }
    }
    res
}

/// The separator of the sections of `7z l` output.
pub open spec fn sevenz_separator() -> Seq<char> {
    "-------------------"@
}

/// The part of `7z l` output between its first and its last separator
/// (the output split at separators, without its first and last pieces,
/// joined back together), cut before a second summary separator line.
pub open spec fn sevenz_files_text(out: Seq<char>) -> Seq<char> {
    let parts = split_str(out, sevenz_separator());
    let body = join(parts.subrange(1, parts.len() - 1), sevenz_separator());
    let k = find_from(body, "\n-------------------"@, 0);
    if k >= 0 {
        body.take(k)
    } else {
        body
    }
}

/// Entry described by one line of the files list of `7z l`: its words are
/// separated by two spaces and are date, size, ..., path. Lines starting
/// with `-` or ` -`, and lines of another shape, give nothing.
pub open spec fn sevenz_line_entry(line: Seq<char>) -> Option<(Seq<char>, u64)> {
    if seq_starts_with(line, "-"@) || seq_starts_with(line, " -"@) {
        None
    } else {
        let w = words(line, "  "@);
        if w.len() >= 3 && parse_u64(w[1]) is Some {
            Some((w.last(), parse_u64(w[1]).unwrap()))
        } else {
            None
        }
    }
}

/// Entries of all the given lines.
pub open spec fn sevenz_entries(lines: Seq<Seq<char>>) -> Seq<(Seq<char>, u64)>
    decreases lines.len(),
{
    if lines.len() == 0 {
        seq![]
    } else {
        match sevenz_line_entry(lines[0]) {
            Some(e) => seq![e] + sevenz_entries(lines.drop_first()),
            None => sevenz_entries(lines.drop_first()),
        }
    }
}

/// Entries listed by `7z l`.
pub open spec fn sevenz_listing_entries(out: Seq<char>) -> Seq<(Seq<char>, u64)> {
    sevenz_entries(split_str(sevenz_files_text(out), "\n"@))
}

/// A files-list line of `7z l` that does not start with `-` or ` -` and
/// splits at double spaces into at least three words, the second a decimal
/// size, lists its last word as a path of that size, whatever stands between
/// (a solid archive leaves the compressed-size column empty for all but the
/// first file of a block).
pub proof fn lemma_sevenz_line_lists_path(line: Seq<char>, n: u64)
    requires
        !seq_starts_with(line, "-"@),
        !seq_starts_with(line, " -"@),
        words(line, "  "@).len() >= 3,
        parse_u64(words(line, "  "@)[1]) == Some(n),
    ensures
        sevenz_line_entry(line) == Some((words(line, "  "@).last(), n)),
{
}

/// Lines of the files list that start with `-` or ` -` (separators and
/// summary rules) list nothing, and neither do lines of fewer than three
/// words or whose second word is not a decimal size.
pub proof fn lemma_sevenz_line_lists_nothing(line: Seq<char>)
    ensures
        seq_starts_with(line, "-"@) || seq_starts_with(line, " -"@) ==> sevenz_line_entry(line) is None,
        words(line, "  "@).len() < 3 ==> sevenz_line_entry(line) is None,
        words(line, "  "@).len() >= 2 && parse_u64(words(line, "  "@)[1]) is None ==> sevenz_line_entry(line) is None,
{
}

/// Every entry that a line of the files list gives is in the listing, in
/// the order of the lines.
pub proof fn lemma_sevenz_entries_contain(lines: Seq<Seq<char>>, k: int)
    requires
        0 <= k < lines.len(),
        sevenz_line_entry(lines[k]) is Some,
    ensures
        sevenz_entries(lines).contains(sevenz_line_entry(lines[k])->Some_0),
    decreases k,
{
    let e = sevenz_line_entry(lines[k])->Some_0;
    if k == 0 {
        assert(sevenz_entries(lines)[0] == e);
    } else {
        assert(lines.drop_first()[k - 1] == lines[k]);
        lemma_sevenz_entries_contain(lines.drop_first(), k - 1);
        let rest = sevenz_entries(lines.drop_first());
        let j = choose|j: int| 0 <= j < rest.len() && rest[j] == e;
        match sevenz_line_entry(lines[0]) {
            Some(x) => {
                assert(sevenz_entries(lines)[j + 1] == e);
            },
            None => {
                assert(sevenz_entries(lines)[j] == e);
            },
        }
    }
}

fn line_entry_sevenz(line: &[char]) -> (r: Option<ArchiveEntry>)
    ensures
        r matches Some(e) ==> sevenz_line_entry(line@) == Some(e@),
        r is None ==> sevenz_line_entry(line@) is None,
{
    if starts_with(line, "-") || starts_with(line, " -") {
        return None;
    }
    let sp = chars_of("  ");
    proof {
        reveal_strlit("  ");
    }
    let w = words_of(line, sp.as_slice());
    if w.len() < 3 {
        return None;
    }
    match parse_u64_chars(w[1].as_slice()) {
        None => None,
        Some(size) => {
            let path = w[w.len() - 1].clone();
            Some(ArchiveEntry { path: string_from_chars(path), size })
        },
    }
}

/// Whether `7z l` output holds the separator that its parsing needs.
pub fn sevenz_listing_is_complete(out: &str) -> (r: bool)
    ensures
        r == (split_str(out@, sevenz_separator()).len() >= 2),
{
    let cs = chars_of(out);
    let sep = chars_of("-------------------");
    proof {
        reveal_strlit("-------------------");
    }
    let parts = split_chars(cs.as_slice(), sep.as_slice());
    parts.len() >= 2
}

/// Entries listed by `7z l`, from what it printed.
pub fn parse_sevenz_listing(out: &str) -> (r: Vec<ArchiveEntry>)
    requires
        split_str(out@, sevenz_separator()).len() >= 2,
    ensures
        r@.map_values(|e: ArchiveEntry| e@) == sevenz_listing_entries(out@),
{
    let cs = chars_of(out);
    let sep = chars_of("-------------------");
    proof {
        reveal_strlit("-------------------");
        reveal_strlit("\n-------------------");
    }
    let parts = split_chars(cs.as_slice(), sep.as_slice());
    let body = join_chars(&parts, 1, parts.len() - 1, sep.as_slice());
    proof {
        let sp = split_str(out@, sevenz_separator());
        assert(parts@.subrange(1, parts@.len() - 1).map_values(|v: Vec<char>| v@) =~= sp.subrange(
            1,
            sp.len() - 1,
        ));
    }
    let nlsep = chars_of("\n-------------------");
    let text = match find_chars_from(body.as_slice(), nlsep.as_slice(), 0) {
        Some(k) => {
            proof {
                lemma_find_from_bounds(body@, nlsep@, 0);
            }
            sub_chars(body.as_slice(), 0, k)
        },
        None => body,
    };
    assert(text@ == sevenz_files_text(out@));
    let nl = chars_of("\n");
    proof {
        reveal_strlit("\n");
    }
    let lines = split_chars(text.as_slice(), nl.as_slice());
    let ghost ls = split_str(sevenz_files_text(out@), "\n"@);
    assert(ls.skip(0) =~= ls);
    let mut res: Vec<ArchiveEntry> = Vec::new();
    let mut i: usize = 0;
    while i < lines.len()
        invariant
            lines@.len() == ls.len(),
            forall|k: int| 0 <= k < lines@.len() ==> #[trigger] lines@[k]@ == ls[k],
            i <= lines@.len(),
            sevenz_entries(ls) == res@.map_values(|e: ArchiveEntry| e@) + sevenz_entries(
                ls.skip(i as int),
            ),
        decreases lines@.len() - i,
    {
        proof {
            assert(ls.skip(i as int).drop_first() =~= ls.skip(i + 1));
            assert(ls.skip(i as int)[0] == ls[i as int]);
        }
        match line_entry_sevenz(lines[i].as_slice()) {
            Some(e) => {
                proof {
                    assert(res@.push(e).map_values(|x: ArchiveEntry| x@) =~= res@.map_values(
                        |x: ArchiveEntry| x@,
                    ).push(e@));
                }
                res.push(e);
            },
            None => {},
        }
        i = i + 1;
    }
    assert(ls.skip(i as int).len() == 0);
    assert(res@.map_values(|e: ArchiveEntry| e@) =~= res@.map_values(|e: ArchiveEntry| e@) + seq![]);
    res
}

} // verus!

verus! {

/// Sum of the sizes of a list of `(path, size)` pairs.
pub open spec fn sizes_sum(files: Seq<(Seq<char>, u64)>) -> int
    decreases files.len(),
{
    if files.len() == 0 {
        0
    } else {
        sizes_sum(files.drop_last()) + files.last().1
    }
}

/// No path occurs twice.
pub open spec fn distinct_paths(fs: Seq<(Seq<char>, u64)>) -> bool {
    forall|i: int, j: int| 0 <= i < j < fs.len() ==> fs[i].0 != fs[j].0
}

/// `fs` with the pair of `e`'s path replaced by `e`, or with `e` appended.
pub open spec fn replace_or_push(fs: Seq<(Seq<char>, u64)>, e: (Seq<char>, u64)) -> Seq<
    (Seq<char>, u64),
> {
    if exists|i: int| 0 <= i < fs.len() && fs[i].0 == e.0 {
        fs.update(choose|i: int| 0 <= i < fs.len() && fs[i].0 == e.0, e)
    } else {
        fs.push(e)
    }
}

/// The listed files with each path once, holding the size of its last
/// occurrence, in the order of first occurrence (what collecting the
/// entries into a map keeps).
pub open spec fn dedup_last(entries: Seq<(Seq<char>, u64)>) -> Seq<(Seq<char>, u64)>
    decreases entries.len(),
{
    if entries.len() == 0 {
        seq![]
    } else {
        replace_or_push(dedup_last(entries.drop_last()), entries.last())
    }
}

/// Size of the file with this path in a list with each path once.
pub open spec fn size_in(fs: Seq<(Seq<char>, u64)>, path: Seq<char>) -> Option<u64> {
    if exists|i: int| 0 <= i < fs.len() && fs[i].0 == path {
        Some(fs[choose|i: int| 0 <= i < fs.len() && fs[i].0 == path].1)
    } else {
        None
    }
}

proof fn lemma_sizes_sum_prefix(fs: Seq<(Seq<char>, u64)>, k: int)
    requires
        0 <= k <= fs.len(),
    ensures
        0 <= sizes_sum(fs.take(k)) <= sizes_sum(fs),
    decreases fs.len() - k,
{
    if k < fs.len() {
        assert(fs.take(k + 1).drop_last() =~= fs.take(k));
        lemma_sizes_sum_prefix(fs, k + 1);
        lemma_sizes_sum_nonneg(fs.take(k));
    } else {
        assert(fs.take(k) =~= fs);
        lemma_sizes_sum_nonneg(fs);
    }
}

proof fn lemma_sizes_sum_nonneg(fs: Seq<(Seq<char>, u64)>)
    ensures
        sizes_sum(fs) >= 0,
    decreases fs.len(),
{
    if fs.len() > 0 {
        lemma_sizes_sum_nonneg(fs.drop_last());
    }
}

/// Bytes that reporting the paths `done` counts: the size of each listed
/// one (unlisted paths count nothing).
pub open spec fn reported_sum(fs: Seq<(Seq<char>, u64)>, done: Seq<Seq<char>>) -> int
    decreases done.len(),
{
    if done.len() == 0 {
        0
    } else {
        reported_sum(fs, done.drop_last()) + match size_in(fs, done.last()) {
            Some(z) => z as int,
            None => 0,
        }
    }
}

proof fn lemma_sizes_sum_remove(fs: Seq<(Seq<char>, u64)>, j: int)
    requires
        0 <= j < fs.len(),
    ensures
        sizes_sum(fs) == sizes_sum(fs.remove(j)) + fs[j].1,
    decreases fs.len(),
{
    if j < fs.len() - 1 {
        lemma_sizes_sum_remove(fs.drop_last(), j);
        assert(fs.remove(j).drop_last() =~= fs.drop_last().remove(j));
        assert(fs.remove(j).last() == fs.last());
    } else {
        assert(fs.remove(j) =~= fs.drop_last());
    }
}

proof fn lemma_size_in_remove(fs: Seq<(Seq<char>, u64)>, j: int, p: Seq<char>)
    requires
        0 <= j < fs.len(),
        distinct_paths(fs),
        p != fs[j].0,
    ensures
        size_in(fs, p) == size_in(fs.remove(j), p),
{
    let fs2 = fs.remove(j);
    if exists|i: int| 0 <= i < fs.len() && fs[i].0 == p {
        let i = choose|i: int| 0 <= i < fs.len() && fs[i].0 == p;
        let i2 = if i < j { i } else { i - 1 };
        assert(fs2[i2] == fs[i]);
        let c = choose|c: int| 0 <= c < fs2.len() && fs2[c].0 == p;
        let c1 = if c < j { c } else { c + 1 };
        assert(fs2[c] == fs[c1]);
        if c1 != i {
            if c1 < i {
                assert(fs[c1].0 != fs[i].0);
            } else {
                assert(fs[i].0 != fs[c1].0);
            }
        }
    } else {
        assert forall|c: int| 0 <= c < fs2.len() implies fs2[c].0 != p by {
            let c1 = if c < j { c } else { c + 1 };
            assert(fs2[c] == fs[c1]);
        }
    }
}

proof fn lemma_reported_sum_same(fs: Seq<(Seq<char>, u64)>, fs2: Seq<(Seq<char>, u64)>, done: Seq<Seq<char>>)
    requires
        forall|k: int| 0 <= k < done.len() ==> size_in(fs, #[trigger] done[k]) == size_in(fs2, done[k]),
    ensures
        reported_sum(fs, done) == reported_sum(fs2, done),
    decreases done.len(),
{
    if done.len() > 0 {
        let d = done.drop_last();
        assert forall|k: int| 0 <= k < d.len() implies size_in(fs, #[trigger] d[k]) == size_in(fs2, d[k]) by {
            assert(d[k] == done[k]);
        }
        lemma_reported_sum_same(fs, fs2, d);
        assert(size_in(fs, done[done.len() - 1]) == size_in(fs2, done[done.len() - 1]));
    }
}

/// Reporting each listed path at most once counts no more than the total of
/// the listed sizes: the extraction progress stays within its total as long
/// as the extracting program names no file twice.
pub proof fn lemma_reported_within_total(fs: Seq<(Seq<char>, u64)>, done: Seq<Seq<char>>)
    requires
        distinct_paths(fs),
        forall|a: int, b: int| 0 <= a < b < done.len() ==> done[a] != done[b],
    ensures
        0 <= reported_sum(fs, done) <= sizes_sum(fs),
    decreases done.len(),
{
    lemma_sizes_sum_nonneg(fs);
    if done.len() > 0 {
        let d = done.drop_last();
        let p = done.last();
        assert forall|a: int, b: int| 0 <= a < b < d.len() implies d[a] != d[b] by {
            assert(d[a] == done[a] && d[b] == done[b]);
        }
        if exists|i: int| 0 <= i < fs.len() && fs[i].0 == p {
            let j = choose|i: int| 0 <= i < fs.len() && fs[i].0 == p;
            let fs2 = fs.remove(j);
            assert forall|k: int| 0 <= k < d.len() implies size_in(fs, #[trigger] d[k]) == size_in(fs2, d[k]) by {
                assert(d[k] == done[k]);
                assert(done[k] != done[done.len() - 1]);
                lemma_size_in_remove(fs, j, d[k]);
            }
            lemma_size_in_remove_distinct(fs, j);
            lemma_reported_sum_same(fs, fs2, d);
            lemma_reported_within_total(fs2, d);
            lemma_sizes_sum_remove(fs, j);
        } else {
            lemma_reported_within_total(fs, d);
        }
    }
}

proof fn lemma_size_in_remove_distinct(fs: Seq<(Seq<char>, u64)>, j: int)
    requires
        0 <= j < fs.len(),
        distinct_paths(fs),
    ensures
        distinct_paths(fs.remove(j)),
{
    let fs2 = fs.remove(j);
    assert forall|a: int, b: int| 0 <= a < b < fs2.len() implies fs2[a].0 != fs2[b].0 by {
        let a1 = if a < j { a } else { a + 1 };
        let b1 = if b < j { b } else { b + 1 };
        assert(fs2[a] == fs[a1] && fs2[b] == fs[b1]);
    }
}

/// Progress of an archive extraction: how many bytes of the listed files
/// the extracting program reported done, out of all of them.
#[derive(Debug)]
pub struct ExtractProgress {
    files: Vec<(String, u64)>,
    current: u64,
    total: u64,
}

impl ExtractProgress {
    /// The listed files, each path once.
    pub closed spec fn spec_files(&self) -> Seq<(Seq<char>, u64)> {
        self.files@.map_values(|f: (String, u64)| (f.0@, f.1))
    }

    /// Well-formedness: each path once, and the total is the sum of sizes.
    pub closed spec fn wf(&self) -> bool {
        &&& distinct_paths(self.spec_files())
        &&& self.total == sizes_sum(self.spec_files())
    }

    /// Bytes reported done so far.
    pub closed spec fn spec_current(&self) -> u64 {
        self.current
    }

    /// Bytes of all listed files.
    pub closed spec fn spec_total(&self) -> u64 {
        self.total
    }

    /// Start the progress of extracting an archive with these entries.
    /// The sum of the sizes must fit in 64 bits.
    pub fn new(entries: &Vec<ArchiveEntry>) -> (r: ExtractProgress)
        requires
            sizes_sum(dedup_last(entries@.map_values(|e: ArchiveEntry| e@))) <= u64::MAX,
        ensures
            r.wf(),
            r.spec_current() == 0,
            r.spec_files() == dedup_last(entries@.map_values(|e: ArchiveEntry| e@)),
            r.spec_total() == sizes_sum(dedup_last(entries@.map_values(|e: ArchiveEntry| e@))),
    {
        let ghost es = entries@.map_values(|e: ArchiveEntry| e@);
        let mut files: Vec<(String, u64)> = Vec::new();
        let mut i: usize = 0;
        while i < entries.len()
            invariant
                i <= entries@.len(),
                es == entries@.map_values(|e: ArchiveEntry| e@),
                distinct_paths(files@.map_values(|f: (String, u64)| (f.0@, f.1))),
                files@.map_values(|f: (String, u64)| (f.0@, f.1)) == dedup_last(es.take(i as int)),
            decreases entries@.len() - i,
        {
            let p = entries[i].path.clone();
            assert(p@ == entries@[i as int].path@);
            insert_file(&mut files, p, entries[i].size);
            assert(es.take(i + 1).drop_last() =~= es.take(i as int));
            assert(es.take(i + 1).last() == entries@[i as int]@);
            i = i + 1;
        }
        assert(es.take(es.len() as int) =~= es);
        let mut total: u64 = 0;
        let mut j: usize = 0;
        let ghost fs = files@.map_values(|f: (String, u64)| (f.0@, f.1));
        while j < files.len()
            invariant
                j <= files@.len(),
                fs == files@.map_values(|f: (String, u64)| (f.0@, f.1)),
                sizes_sum(fs) <= u64::MAX,
                total == sizes_sum(fs.take(j as int)),
            decreases files@.len() - j,
        {
            proof {
                assert(fs.take(j + 1).drop_last() =~= fs.take(j as int));
                lemma_sizes_sum_prefix(fs, j + 1);
            }
            total = total + files[j].1;
            j = j + 1;
        }
        assert(fs.take(fs.len() as int) =~= fs);
        ExtractProgress { files, current: 0, total }
    }

    /// Bytes reported done so far.
    pub fn current(&self) -> (r: u64)
        ensures
            r == self.spec_current(),
    {
        self.current
    }

    /// Bytes of all listed files.
    pub fn total(&self) -> (r: u64)
        ensures
            r == self.spec_total(),
    {
        self.total
    }

    /// Size of the listed file with this path.
    pub fn size_of(&self, path: &[char]) -> (r: Option<u64>)
        requires
            self.wf(),
        ensures
            r == size_in(self.spec_files(), path@),
    {
        let ghost fs = self.spec_files();
        let mut i: usize = 0;
        while i < self.files.len()
            invariant
                i <= self.files@.len(),
                self.wf(),
                fs == self.spec_files(),
                forall|k: int| 0 <= k < i ==> fs[k].0 != path@,
            decreases self.files@.len() - i,
        {
            let s = chars_of(self.files[i].0.as_str());
            if chars_eq(s.as_slice(), path) {
                proof {
                    assert(fs[i as int].0 == path@);
                    let c = choose|k: int| 0 <= k < fs.len() && fs[k].0 == path@;
                    if c != i {
                        assert(fs[c].0 != fs[i as int].0);
                    }
                }
                return Some(self.files[i].1);
            }
            i = i + 1;
        }
        None
    }

    /// A line that the extracting program printed. When it names a listed
    /// file, that file's size is counted done and `(current, total, diff)`
    /// is returned for the progress callback, `diff` being that size.
    pub fn on_line(&mut self, line: &[char]) -> (r: Option<(u64, u64, u64)>)
        requires
            old(self).wf(),
            size_in(old(self).spec_files(), line@) matches Some(sz) ==> old(self).spec_current() + sz
                <= u64::MAX,
        ensures
            final(self).wf(),
            final(self).spec_files() == old(self).spec_files(),
            final(self).spec_total() == old(self).spec_total(),
            size_in(old(self).spec_files(), line@) is None ==> (r is None && final(self).spec_current()
                == old(self).spec_current()),
            size_in(old(self).spec_files(), line@) matches Some(sz) ==> (r == Some(
                (
                    (old(self).spec_current() + sz) as u64,
                    old(self).spec_total(),
                    sz,
                ),
            ) && final(self).spec_current() == old(self).spec_current() + sz),
    {
        match self.size_of(line) {
            None => None,
            Some(size) => {
                let prev = self.current;
                self.current = prev + size;
                Some((prev + size, self.total, size))
            },
        }
    }

    /// A line that `7z x -bb1` printed: `- path` for each extracted file.
    pub fn on_sevenz_line(&mut self, line: &[char]) -> (r: Option<(u64, u64, u64)>)
        requires
            old(self).wf(),
            seq_starts_with(line@, "- "@) ==> (size_in(old(self).spec_files(), line@.skip(2)) matches Some(
                sz,
            ) ==> old(self).spec_current() + sz <= u64::MAX),
        ensures
            final(self).wf(),
            final(self).spec_files() == old(self).spec_files(),
            final(self).spec_total() == old(self).spec_total(),
            !seq_starts_with(line@, "- "@) ==> (r is None && final(self).spec_current() == old(
                self,
            ).spec_current()),
            seq_starts_with(line@, "- "@) ==> (size_in(old(self).spec_files(), line@.skip(2)) is None
                ==> (r is None && final(self).spec_current() == old(self).spec_current())),
            seq_starts_with(line@, "- "@) ==> (size_in(old(self).spec_files(), line@.skip(2)) matches Some(
                sz,
            ) ==> (r == Some(
                (
                    (old(self).spec_current() + sz) as u64,
                    old(self).spec_total(),
                    sz,
                ),
            ) && final(self).spec_current() == old(self).spec_current() + sz)),
    {
        proof {
            reveal_strlit("- ");
        }
        if starts_with(line, "- ") {
            let rest = sub_chars(line, 2, line.len());
            assert(rest@ == line@.skip(2));
            self.on_line(rest.as_slice())
        } else {
            None
        }
    }
}

fn insert_file(files: &mut Vec<(String, u64)>, path: String, size: u64)
    requires
        distinct_paths(old(files)@.map_values(|f: (String, u64)| (f.0@, f.1))),
    ensures
        distinct_paths(final(files)@.map_values(|f: (String, u64)| (f.0@, f.1))),
        final(files)@.map_values(|f: (String, u64)| (f.0@, f.1)) == replace_or_push(
            old(files)@.map_values(|f: (String, u64)| (f.0@, f.1)),
            (path@, size),
        ),
{
    let ghost fs = old(files)@.map_values(|f: (String, u64)| (f.0@, f.1));
    let pc = chars_of(path.as_str());
    let mut i: usize = 0;
    while i < files.len()
        invariant
            i <= files@.len(),
            files@ == old(files)@,
            fs == old(files)@.map_values(|f: (String, u64)| (f.0@, f.1)),
            distinct_paths(fs),
            pc@ == path@,
            forall|k: int| 0 <= k < i ==> fs[k].0 != path@,
        decreases files@.len() - i,
    {
        let s = chars_of(files[i].0.as_str());
        if chars_eq(s.as_slice(), pc.as_slice()) {
            files.set(i, (path, size));
            proof {
                let nfs = files@.map_values(|f: (String, u64)| (f.0@, f.1));
                assert(fs[i as int].0 == path@);
                let c = choose|k: int| 0 <= k < fs.len() && fs[k].0 == path@;
                if c != i {
                    assert(fs[c].0 != fs[i as int].0);
                }
                assert(nfs =~= fs.update(i as int, (path@, size)));
                assert forall|a: int, b: int| 0 <= a < b < nfs.len() implies nfs[a].0 != nfs[b].0 by {
                    if a != i && b != i {
                        assert(nfs[a] == fs[a] && nfs[b] == fs[b]);
                    } else if a == i {
                        assert(nfs[b] == fs[b]);
                    } else {
                        assert(nfs[a] == fs[a]);
                    }
                }
            }
            return;
        }
        i = i + 1;
    }
    files.push((path, size));
    proof {
        let nfs = files@.map_values(|f: (String, u64)| (f.0@, f.1));
        assert(nfs =~= fs.push((path@, size)));
        assert(!(exists|k: int| 0 <= k < fs.len() && fs[k].0 == path@));
        assert forall|a: int, b: int| 0 <= a < b < nfs.len() implies nfs[a].0 != nfs[b].0 by {
            if b < fs.len() {
                assert(nfs[a] == fs[a] && nfs[b] == fs[b]);
            } else {
                assert(nfs[a] == fs[a]);
            }
        }
    }
}

} // verus!
