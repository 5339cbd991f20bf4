//! The format classifier: maps an input path's extension to a format
//! tag. Only the columnar format carries real schema and batches; the
//! three row/record formats are recognized but contribute nothing to a
//! merge. A missing or unrecognized extension is a fatal error.

use vstd::prelude::*;
use vstd::string::StrSliceExecFns;
use vstd::string::StringExecFns;

use crate::errors::Error;

verus! {

/// The format tag of an input file, decided by the path's extension.
#[derive(Clone, Copy, Debug, PartialEq, Eq, Structural)]
pub enum FileType {
    Parquet,
    Csv,
    Json,
    Orc,
}

/// The index of the dot that starts an extension, scanning `s` backward
/// from position `j`; the scan stops at a path separator or at the
/// start of the string.
pub open spec fn rfind_dot(s: Seq<char>, j: int) -> Option<int>
    decreases j,
{
    if j <= 0 {
        None
    } else if s[j - 1] == '/' {
        None
    } else if s[j - 1] == '.' {
        Some(j - 1)
    } else {
        rfind_dot(s, j - 1)
    }
}

/// The extension of a path: what follows the last dot of the last
/// component; none when that component has no dot, or only a leading
/// one (a hidden file).
pub open spec fn extension_of(s: Seq<char>) -> Option<Seq<char>> {
    match rfind_dot(s, s.len() as int) {
        None => None,
        Some(i) => if i == 0 || s[i - 1] == '/' {
            None
        } else {
            Some(s.subrange(i + 1, s.len() as int))
        },
    }
}

/// The format tag an extension names, none when it names no format.
pub open spec fn classify_extension(e: Seq<char>) -> Option<FileType> {
    if e == "parquet"@ {
        Some(FileType::Parquet)
    } else if e == "csv"@ {
        Some(FileType::Csv)
    } else if e == "json"@ {
        Some(FileType::Json)
    } else if e == "orc"@ {
        Some(FileType::Orc)
    } else {
        None
    }
}

/// The format tag a whole path is mapped to.
pub open spec fn file_type_of(s: Seq<char>) -> Option<FileType> {
    match extension_of(s) {
        None => None,
        Some(e) => classify_extension(e),
    }
}

/// Whether the characters of `path` from `start` on equal `lit`.
fn tail_equals(path: &str, start: usize, lit: &str) -> (r: bool)
    requires
        start <= path@.len(),
    ensures
        r == (path@.subrange(start as int, path@.len() as int) == lit@),
{
    let n = path.unicode_len();
    let m = lit.unicode_len();
    if n - start != m {
        assert(path@.subrange(start as int, path@.len() as int).len() != lit@.len());
        return false;
    }
    let mut k: usize = 0;
    while k < m
        invariant
            k <= m,
            start + m == n,
            n == path@.len(),
            m == lit@.len(),
            forall|t: int| 0 <= t < k ==> path@[start + t] == lit@[t],
        decreases m - k,
    {
        if path.get_char(start + k) != lit.get_char(k) {
            assert(path@.subrange(start as int, path@.len() as int)[k as int] != lit@[k as int]);
            return false;
        }
        k += 1;
    }
    assert(path@.subrange(start as int, path@.len() as int) =~= lit@);
    true
}

/// Maps a path to its format tag; an extension that is missing or names
/// no known format is refused with `Error::UnsupportedFileType`.
pub fn get_file_type(path: &str) -> (r: Result<FileType, Error>)
    ensures
        match r {
            Ok(ft) => file_type_of(path@) == Some(ft),
            Err(e) => {
                &&& file_type_of(path@) is None
                &&& match e {
                    Error::UnsupportedFileType(p) => p@ == path@,
                    _ => false,
                }
            },
        },
{
    let n = path.unicode_len();
    let mut j: usize = n;
    loop
        invariant
            j <= n,
            n == path@.len(),
            rfind_dot(path@, n as int) == rfind_dot(path@, j as int),
        decreases j,
    {
        if j == 0 {
            assert(rfind_dot(path@, n as int) is None);
            return Err(Error::UnsupportedFileType(String::from_str(path)));
        }
        let c = path.get_char(j - 1);
        if c == '.' {
            let dot = j - 1;
            assert(rfind_dot(path@, n as int) == Some(dot as int));
            if dot == 0 || path.get_char(dot - 1) == '/' {
                assert(extension_of(path@) is None);
                return Err(Error::UnsupportedFileType(String::from_str(path)));
            }
            let start = dot + 1;
            let ghost ext = path@.subrange(start as int, path@.len() as int);
            assert(extension_of(path@) == Some(ext));
            if tail_equals(path, start, "parquet") {
                return Ok(FileType::Parquet);
            }
            if tail_equals(path, start, "csv") {
                return Ok(FileType::Csv);
            }
            if tail_equals(path, start, "json") {
                return Ok(FileType::Json);
            }
            if tail_equals(path, start, "orc") {
                return Ok(FileType::Orc);
            }
            return Err(Error::UnsupportedFileType(String::from_str(path)));
        }
        if c == '/' {
            assert(rfind_dot(path@, n as int) is None);
            return Err(Error::UnsupportedFileType(String::from_str(path)));
        }
        j = j - 1;
    }
}

} // verus!
