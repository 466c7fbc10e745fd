use vstd::prelude::*;

use crate::text::{
    find_from, lemma_find_from_bounds, match_at,
    append_chars, chars_of, nat_decimal, parse_u64, parse_u64_chars, push_decimal, seq_starts_with,
    split_once, split_once_chars, starts_with, string_from_chars, sub_chars,
};

verus! {

/// Value of the `range` header that asks for everything after the first
/// `downloaded` bytes.
pub open spec fn range_header_text(downloaded: u64) -> Seq<char> {
    "bytes="@ + nat_decimal(downloaded as nat) + "-"@
}

/// Value of the `range` header asking for the bytes after `downloaded`.
pub fn range_header(downloaded: u64) -> (r: String)
    ensures
        r@ == range_header_text(downloaded),
{
    let mut out = chars_of("bytes=");
    push_decimal(downloaded, &mut out);
    let dash = chars_of("-");
    append_chars(&mut out, dash.as_slice());
    string_from_chars(out)
}

/// What the downloader does after the server's first answer.
#[derive(Debug, Clone, Copy, PartialEq, Eq, Structural)]
pub enum DownloadPlan {
    /// Nothing is left to download; the file has this many bytes.
    Finished(u64),
    /// Read the body; this many bytes are expected in all.
    Stream(u64),
}

/// Expected total after the `Content-Length` header: the bytes already
/// downloaded plus the remaining content, when the header is a number
/// (added modulo 2^64).
pub open spec fn total_after_length(downloaded: u64, content_length: Option<Seq<char>>) -> u64 {
    match content_length {
        Some(t) => match parse_u64(t) {
            Some(n) => ((downloaded + n) % 0x1_0000_0000_0000_0000) as u64,
            None => 0,
        },
        None => 0,
    }
}

/// Range and size parts of a `Content-Range` header of unit `bytes`.
pub open spec fn content_range_parts(range: Option<Seq<char>>) -> Option<(Seq<char>, Seq<char>)> {
    match range {
        Some(t) => if seq_starts_with(t, "bytes "@) {
            split_once(t.skip(6), '/')
        } else {
            None
        },
        None => None,
    }
}

/// The plan after an answer with `status`, `Content-Length` and
/// `Content-Range` headers, when `downloaded` bytes are on disk: status 416
/// or a range of `*` means the file is complete; otherwise the body is read,
/// expecting the size the range gives, else the downloaded bytes plus the
/// content length, else 0.
pub open spec fn download_plan(
    downloaded: u64,
    status: u16,
    content_length: Option<Seq<char>>,
    content_range: Option<Seq<char>>,
) -> DownloadPlan {
    if status == 416 {
        DownloadPlan::Finished(downloaded)
    } else {
        let total = total_after_length(downloaded, content_length);
        match content_range_parts(content_range) {
            Some((range, size)) => if range == seq!['*'] {
                DownloadPlan::Finished(downloaded)
            } else {
                match parse_u64(size) {
                    Some(n) => DownloadPlan::Stream(n),
                    None => DownloadPlan::Stream(total),
                }
            },
            None => DownloadPlan::Stream(total),
        }
    }
}

/// The text of an optional header.
pub open spec fn header_view(h: Option<&str>) -> Option<Seq<char>> {
    match h {
        Some(t) => Some(t@),
        None => None,
    }
}

/// Decide what to do after the server's first answer.
pub fn plan_download(
    downloaded: u64,
    status: u16,
    content_length: Option<&str>,
    content_range: Option<&str>,
) -> (r: DownloadPlan)
    ensures
        r == download_plan(downloaded, status, header_view(content_length), header_view(
            content_range,
        )),
{
    if status == 416 {
        return DownloadPlan::Finished(downloaded);
    }
    let mut total: u64 = 0;
    match content_length {
        Some(t) => {
            let cs = chars_of(t);
            match parse_u64_chars(cs.as_slice()) {
                Some(n) => {
                    total = downloaded.wrapping_add(n);
                },
                None => {},
            }
        },
        None => {},
    }
    match content_range {
        Some(t) => {
            let cs = chars_of(t);
            if starts_with(cs.as_slice(), "bytes ") {
                proof {
                    reveal_strlit("bytes ");
                }
                let n = cs.len();
                let rest = sub_chars(cs.as_slice(), 6, n);
                assert(rest@ =~= t@.skip(6));
                match split_once_chars(rest.as_slice(), '/') {
                    Some((range, size)) => {
                        if range.len() == 1 && range[0] == '*' {
                            assert(range@ =~= seq!['*']);
                            return DownloadPlan::Finished(downloaded);
                        }
                        assert(range@ != seq!['*']);
                        match parse_u64_chars(size.as_slice()) {
                            Some(s) => DownloadPlan::Stream(s),
                            None => DownloadPlan::Stream(total),
                        }
                    },
                    None => DownloadPlan::Stream(total),
                }
            } else {
                DownloadPlan::Stream(total)
            }
        },
        None => DownloadPlan::Stream(total),
    }
}

/// Bytes downloaded and expected.
#[derive(Debug, Clone, Copy, PartialEq, Eq, Structural)]
pub struct DownloadProgress {
    pub current: u64,
    pub total: u64,
}

impl DownloadProgress {
    /// Progress with `downloaded` bytes already on disk and nothing known of
    /// the total yet.
    pub fn new(downloaded: u64) -> (r: DownloadProgress)
        ensures
            r.current == downloaded,
            r.total == 0,
    {
        DownloadProgress { current: downloaded, total: 0 }
    }

    /// Count a chunk of `len` bytes written (modulo 2^64, as the atomic
    /// counter does); returns the update `(current, total, len)` reported to
    /// listeners.
    pub fn on_chunk(&mut self, len: u64) -> (r: (u64, u64, u64))
        ensures
            final(self).current == ((old(self).current + len) % 0x1_0000_0000_0000_0000) as u64,
            final(self).total == old(self).total,
            r == (final(self).current, old(self).total, len),
    {
        self.current = self.current.wrapping_add(len);
        (self.current, self.total, len)
    }
}


/// A `Content-Range` whose size part is not a number does not change the
/// expected total: the plan is the one made without that header (the
/// downloaded bytes plus the content length).
pub proof fn lemma_unsized_range_keeps_length_total(
    downloaded: u64,
    status: u16,
    content_length: Option<Seq<char>>,
    range: Seq<char>,
    size: Seq<char>,
)
    requires
        status != 416,
        range != seq!['*'],
        !range.contains('/'),
        parse_u64(size) is None,
    ensures
        download_plan(downloaded, status, content_length, Some("bytes "@ + range + seq!['/'] + size))
            == download_plan(downloaded, status, content_length, None),
{
    reveal_strlit("bytes ");
    let t = "bytes "@ + range + seq!['/'] + size;
    assert(t.subrange(0, 6) =~= "bytes "@);
    assert(t.skip(6) =~= range + seq!['/'] + size);
    lemma_split_once_at(range, size);
}

/// A text split at its first `/` when the part before has none.
proof fn lemma_split_once_at(range: Seq<char>, size: Seq<char>)
    requires
        !range.contains('/'),
    ensures
        split_once(range + seq!['/'] + size, '/') == Some((range, size)),
{
    let s = range + seq!['/'] + size;
    let p = seq!['/'];
    lemma_find_from_bounds(s, p, 0);
    let f = find_from(s, p, 0);
    assert(s.subrange(range.len() as int, (range.len() + 1) as int) =~= p);
    assert(match_at(s, p, range.len() as int));
    if f >= 0 && f < range.len() {
        assert(s.subrange(f, f + 1)[0] == s[f]);
        assert(s[f] == range[f]);
        assert(range.contains(range[f]));
    }
    assert(f == range.len());
    assert(s.subrange(0, f) =~= range);
    assert(s.subrange(f + 1, s.len() as int) =~= size);
}

/// Without a `Content-Range`, a successful answer whose `Content-Length` is
/// the number `n` is read expecting `downloaded + n` bytes in all (modulo
/// 2^64).
pub proof fn lemma_length_total(downloaded: u64, status: u16, length: Seq<char>, n: u64)
    requires
        status != 416,
        parse_u64(length) == Some(n),
    ensures
        download_plan(downloaded, status, Some(length), None) == DownloadPlan::Stream(
            ((downloaded + n) % 0x1_0000_0000_0000_0000) as u64,
        ),
{
}


/// What a `Content-Range` of unit `bytes` decides, for a range part with no
/// `/`: `*` means the file is complete, at the bytes on disk; a numeric size
/// is the expected total, whatever the content length says.
pub proof fn lemma_range_decides(
    downloaded: u64,
    status: u16,
    content_length: Option<Seq<char>>,
    range: Seq<char>,
    size: Seq<char>,
)
    requires
        status != 416,
        !range.contains('/'),
    ensures
        range == seq!['*'] ==> download_plan(downloaded, status, content_length, Some("bytes "@ + range + seq!['/'] + size))
            == DownloadPlan::Finished(downloaded),
        range != seq!['*'] && parse_u64(size) is Some ==> download_plan(downloaded, status, content_length, Some(
            "bytes "@ + range + seq!['/'] + size,
        )) == DownloadPlan::Stream(parse_u64(size)->Some_0),
{
    reveal_strlit("bytes ");
    let t = "bytes "@ + range + seq!['/'] + size;
    assert(t.subrange(0, 6) =~= "bytes "@);
    assert(t.skip(6) =~= range + seq!['/'] + size);
    lemma_split_once_at(range, size);
}

/// A 416 answer (the requested range is past the end) means the file on
/// disk is complete, whatever the headers say.
pub proof fn lemma_range_not_satisfiable(
    downloaded: u64,
    content_length: Option<Seq<char>>,
    content_range: Option<Seq<char>>,
)
    ensures
        download_plan(downloaded, 416, content_length, content_range) == DownloadPlan::Finished(downloaded),
{
}

} // verus!
