//! The rules of unpacking the material of an import: which entry names are
//! accepted, how much may be unpacked, how deep nested archives are opened,
//! and how the normalized archive names its entries.

use vstd::prelude::*;

use crate::imports::names::{
    forward_slashes, safe_upload_name, spec_is_zip_path, spec_safe_upload_name, is_zip_path,
};
use crate::paths::{
    file_stem, normal_relative, is_normal_relative_path, path_file_stem, path_pieces, meaningful,
};
use crate::text::{chars_of, decimal, push_decimal, push_str, string_of};

verus! {

/// The most entries that the material of a job may have.
pub const MAX_ARCHIVE_ENTRIES: usize = 5000;

/// The largest file that may be unpacked: 128 MiB.
pub const MAX_SINGLE_FILE_BYTES: u64 = 134217728;

/// How deep nested archives are opened.
pub const MAX_NESTED_ARCHIVE_DEPTH: usize = 3;

/// Why unpacking stops.
#[derive(Clone, Copy, Debug, PartialEq, Eq, Structural)]
pub enum ArchiveError {
    UnsupportedEncoding,
    UnsafePath,
    SymbolicLink,
    SizeLimit,
    OversizedFile,
    TooManyEntries,
    DuplicatePath,
    NothingIndexed,
    InvalidZip,
}

impl ArchiveError {
    /// The message of the error; the words in it decide what a member is told.
    pub open spec fn spec_message(&self) -> &'static str {
        match self {
            ArchiveError::UnsupportedEncoding => "archive contains a filename with an unsupported encoding",
            ArchiveError::UnsafePath => "archive contains an unsafe path",
            ArchiveError::SymbolicLink => "archive contains a symbolic link",
            ArchiveError::SizeLimit => "archive exceeds the unpacked size limit",
            ArchiveError::OversizedFile => "archive contains an oversized file",
            ArchiveError::TooManyEntries => "archive contains too many entries",
            ArchiveError::DuplicatePath => "archive contains duplicate file paths",
            ArchiveError::NothingIndexed => "archive does not contain files that can be indexed",
            ArchiveError::InvalidZip => "uploaded file is not a valid ZIP",
        }
    }

    /// The message of the error; the words in it decide what a member is told.
    pub fn message(&self) -> (r: &'static str)
        ensures
            r == self.spec_message(),
    {
        match self {
            ArchiveError::UnsupportedEncoding => "archive contains a filename with an unsupported encoding",
            ArchiveError::UnsafePath => "archive contains an unsafe path",
            ArchiveError::SymbolicLink => "archive contains a symbolic link",
            ArchiveError::SizeLimit => "archive exceeds the unpacked size limit",
            ArchiveError::OversizedFile => "archive contains an oversized file",
            ArchiveError::TooManyEntries => "archive contains too many entries",
            ArchiveError::DuplicatePath => "archive contains duplicate file paths",
            ArchiveError::NothingIndexed => "archive does not contain files that can be indexed",
            ArchiveError::InvalidZip => "uploaded file is not a valid ZIP",
        }
    }
}

// ----------------------------------------------------------------------------
// Entry names
// ----------------------------------------------------------------------------

/// What `std::str::from_utf8` makes of bytes: the text they encode where
/// they are valid UTF-8, nothing otherwise.
pub open spec fn utf8_decoded(bytes: Seq<u8>) -> Option<Seq<char>> {
    if vstd::utf8::valid_utf8(bytes) {
        Some(vstd::utf8::decode_utf8(bytes))
    } else {
        None
    }
}

/// What `encoding_rs::GBK.decode` makes of bytes: the text, and whether
/// malformed sequences were replaced.
pub uninterp spec fn gbk_decoded(bytes: Seq<u8>) -> (Seq<char>, bool);

/// Calls `std::str::from_utf8`, which succeeds exactly on valid UTF-8 and
/// then gives the text the bytes encode.
#[verifier::external_body]
fn decode_utf8(bytes: &[u8]) -> (r: Option<String>)
    ensures
        crate::projects::opt_view(r) == utf8_decoded(bytes@),
{
    match std::str::from_utf8(bytes) {
        Ok(text) => Some(text.to_owned()),
        Err(_) => None,
    }
}

/// Calls `encoding_rs::GBK.decode`; keeps the text and the error flag, drops
/// the encoding it reports. Only named.
#[verifier::external_body]
fn decode_gbk(bytes: &[u8]) -> (r: (String, bool))
    ensures
        (r.0@, r.1) == gbk_decoded(bytes@),
{
    let (text, _, had_errors) = encoding_rs::GBK.decode(bytes);
    (text.into_owned(), had_errors)
}

/// The path of an archive entry: its name as UTF-8, else as GBK (older
/// Chinese archives), with `\` read as `/`; it must be plain names only.
pub open spec fn spec_entry_path(raw: Seq<u8>) -> Result<Seq<char>, ArchiveError> {
    let decoded = match utf8_decoded(raw) {
        Some(t) => Ok(t),
        None => if gbk_decoded(raw).1 {
            Err(ArchiveError::UnsupportedEncoding)
        } else {
            Ok(gbk_decoded(raw).0)
        },
    };
    match decoded {
        Err(e) => Err(e),
        Ok(t) => if normal_relative(forward_slashes(t)) {
            Ok(forward_slashes(t))
        } else {
            Err(ArchiveError::UnsafePath)
        },
    }
}

pub fn decoded_zip_entry_path(raw_name: &[u8]) -> (r: Result<String, ArchiveError>)
    ensures
        match spec_entry_path(raw_name@) {
            Ok(p) => r matches Ok(x) && x@ == p,
            Err(e) => r == Err::<String, ArchiveError>(e),
        },
{
    let decoded = match decode_utf8(raw_name) {
        Some(t) => t,
        None => {
            let (t, had_errors) = decode_gbk(raw_name);
            if had_errors {
                return Err(ArchiveError::UnsupportedEncoding);
            }
            t
        },
    };
    let d = chars_of(decoded.as_str());
    let mut p: Vec<char> = Vec::new();
    let mut i: usize = 0;
    while i < d.len()
        invariant
            0 <= i <= d@.len(),
            p@ == forward_slashes(d@.subrange(0, i as int)),
        decreases d.len() - i,
    {
        p.push(if d[i] == '\\' { '/' } else { d[i] });
        proof {
            assert(forward_slashes(d@.subrange(0, i + 1)) =~= forward_slashes(
                d@.subrange(0, i as int),
            ).push(if d@[i as int] == '\\' { '/' } else { d@[i as int] }));
        }
        i += 1;
    }
    proof {
        assert(d@.subrange(0, d@.len() as int) =~= d@);
    }
    let path = string_of(p.as_slice());
    if !is_normal_relative_path(path.as_str()) {
        return Err(ArchiveError::UnsafePath);
    }
    Ok(path)
}

/// A Unix mode that marks a symbolic link.
pub fn is_symlink_mode(mode: u32) -> (r: bool)
    ensures
        r == (mode & 0o170000 == 0o120000),
{
    mode & 0o170000 == 0o120000
}

/// The first component of an entry path, where it has one: it names a
/// top-level entry of the archive.
pub fn top_level_component(path: &str) -> (r: Option<String>)
    ensures
        crate::projects::opt_view(r) == (if meaningful(path_pieces(path@)).len() > 0 {
            Some(meaningful(path_pieces(path@))[0])
        } else {
            None
        }),
{
    let p = chars_of(path);
    let names = crate::paths::meaningful_pieces(p.as_slice());
    if names.len() > 0 {
        Some(string_of(names[0].as_slice()))
    } else {
        None
    }
}

// ----------------------------------------------------------------------------
// Sizes and counts
// ----------------------------------------------------------------------------

/// How much the next file may take: what is left of the unpacked limit, at
/// most 128 MiB; nothing left stops the unpacking.
pub fn copy_allowance(total_written: u64, max_unpacked_bytes: u64) -> (r: Result<u64, ArchiveError>)
    ensures
        ({
            let left: int = if max_unpacked_bytes >= total_written {
                max_unpacked_bytes - total_written
            } else {
                0
            };
            let allowed: int = if left < MAX_SINGLE_FILE_BYTES {
                left
            } else {
                MAX_SINGLE_FILE_BYTES as int
            };
            if allowed == 0 {
                r == Err::<u64, ArchiveError>(ArchiveError::SizeLimit)
            } else {
                r == Ok::<u64, ArchiveError>(allowed as u64)
            }
        }),
{
    let left: u64 = if max_unpacked_bytes >= total_written {
        max_unpacked_bytes - total_written
    } else {
        0
    };
    let allowed = if left < MAX_SINGLE_FILE_BYTES {
        left
    } else {
        MAX_SINGLE_FILE_BYTES
    };
    if allowed == 0 {
        Err(ArchiveError::SizeLimit)
    } else {
        Ok(allowed)
    }
}

/// Accounts for a copied file: one that went past what it was allowed is
/// oversized; otherwise its bytes join the total, which may not pass the
/// unpacked limit.
pub fn record_copy(copied: u64, allowed: u64, total_written: &mut u64, max_unpacked_bytes: u64) -> (r:
    Result<(), ArchiveError>)
    requires
        allowed <= MAX_SINGLE_FILE_BYTES,
        *old(total_written) + allowed <= u64::MAX,
    ensures
        copied > allowed ==> r == Err::<(), ArchiveError>(ArchiveError::OversizedFile)
            && *final(total_written) == *old(total_written),
        copied <= allowed ==> *final(total_written) == *old(total_written) + copied && (r is Ok
            <==> *final(total_written) <= max_unpacked_bytes) && (r is Err ==> r == Err::<
            (),
            ArchiveError,
        >(ArchiveError::SizeLimit)),
{
    if copied > allowed || copied > MAX_SINGLE_FILE_BYTES {
        return Err(ArchiveError::OversizedFile);
    }
    *total_written = *total_written + copied;
    if *total_written > max_unpacked_bytes {
        return Err(ArchiveError::SizeLimit);
    }
    Ok(())
}

/// Everything unpacked stays within the limit: starting within it, a copy
/// that is allowed and accepted leaves the total within it, and never more
/// than 128 MiB is added.
pub proof fn law_unpacking_stays_within_limit(total: u64, max: u64, allowed: u64, copied: u64)
    requires
        total <= max,
        allowed == (if max - total < MAX_SINGLE_FILE_BYTES {
            max - total
        } else {
            MAX_SINGLE_FILE_BYTES as int
        }),
        copied <= allowed,
    ensures
        total + copied <= max,
        copied <= MAX_SINGLE_FILE_BYTES,
{
}

/// More entries may be added while the count stays within the limit.
pub fn check_entry_count(count: usize, added: usize) -> (r: Result<(), ArchiveError>)
    ensures
        r is Ok <==> count + added <= MAX_ARCHIVE_ENTRIES,
        r is Err ==> r == Err::<(), ArchiveError>(ArchiveError::TooManyEntries),
{
    if count > MAX_ARCHIVE_ENTRIES || added > MAX_ARCHIVE_ENTRIES - count {
        Err(ArchiveError::TooManyEntries)
    } else {
        Ok(())
    }
}

/// A nested archive found at `depth` is opened in turn while the depth
/// allows.
pub fn opens_nested(depth: usize, path: &str) -> (r: bool)
    ensures
        r == (depth < MAX_NESTED_ARCHIVE_DEPTH && spec_is_zip_path(path@)),
{
    depth < MAX_NESTED_ARCHIVE_DEPTH && is_zip_path(path)
}

// ----------------------------------------------------------------------------
// Names in the normalized archive
// ----------------------------------------------------------------------------

/// `format!("{:02}", n)`.
pub open spec fn padded2(n: nat) -> Seq<char> {
    if n < 10 {
        seq!['0'] + decimal(n)
    } else {
        decimal(n)
    }
}

fn push_padded2(out: &mut Vec<char>, n: u64)
    ensures
        final(out)@ == old(out)@ + padded2(n as nat),
{
    if n < 10 {
        out.push('0');
    }
    let ghost before = out@;
    push_decimal(out, n);
    proof {
        if n < 10 {
            assert(out@ =~= old(out)@ + (seq!['0'] + decimal(n as nat)));
        }
    }
}

/// The name of an uploaded file in the normalized archive: its position
/// (from 1, two digits at least), a hyphen and its name.
pub fn numbered_entry_name(index: usize, name: &str) -> (r: String)
    requires
        index < usize::MAX,
    ensures
        r@ == padded2((index + 1) as nat) + "-"@ + name@,
{
    let mut out: Vec<char> = Vec::new();
    push_padded2(&mut out, (index + 1) as u64);
    push_str(&mut out, "-");
    push_str(&mut out, name);
    proof {
        assert(Seq::<char>::empty() + padded2((index + 1) as nat) =~= padded2((index + 1) as nat));
    }
    string_of(out.as_slice())
}

/// The folder of an uploaded archive's entries in the normalized archive: its
/// position and its stem (as an upload name), or `archive-<position>` where
/// it has no stem.
pub fn archive_prefix(index: usize, display_name: &str) -> (r: String)
    requires
        index < usize::MAX,
    ensures
        r@ == padded2((index + 1) as nat) + "-"@ + (match file_stem(display_name@) {
            Some(s) => spec_safe_upload_name(s),
            None => "archive-"@ + decimal((index + 1) as nat),
        }),
{
    let d = chars_of(display_name);
    let stem = match path_file_stem(d.as_slice()) {
        Some(s) => {
            let st = string_of(s.as_slice());
            safe_upload_name(st.as_str())
        },
        None => {
            let mut a = crate::text::lit("archive-");
            push_decimal(&mut a, (index + 1) as u64);
            string_of(a.as_slice())
        },
    };
    numbered_entry_name(index, stem.as_str())
}

/// Where a nested archive's entries are unpacked: beside it, in
/// `<stem>.__contents`, the stem as an upload name (`nested-archive` where
/// it has none).
pub fn nested_archive_dir_name(archive_path: &str) -> (r: String)
    ensures
        r@ == (match file_stem(archive_path@) {
            Some(s) => spec_safe_upload_name(s),
            None => "nested-archive"@,
        }) + ".__contents"@,
{
    let a = chars_of(archive_path);
    let stem = match path_file_stem(a.as_slice()) {
        Some(s) => {
            let st = string_of(s.as_slice());
            safe_upload_name(st.as_str())
        },
        None => String::from_str("nested-archive"),
    };
    let mut out = chars_of(stem.as_str());
    push_str(&mut out, ".__contents");
    string_of(out.as_slice())
}

} // verus!
