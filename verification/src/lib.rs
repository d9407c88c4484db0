//! Decodes V8-style heap-snapshot documents — a meta schema, flat
//! numeric arrays and a string table — into normalized relational
//! entities: objects, references between objects, and source locations.

pub mod decode;
pub mod json;
pub mod schema;
pub mod tables;
pub mod text;

use vstd::prelude::*;
use vstd::string::StrSliceExecFns;
use vstd::string::StringExecFns;

verus! {

/// Decides whether a fresh ingestion pass is needed: the associated
/// database is created and filled only when it does not exist yet.
pub fn setup_db_if_needed(db_exists: bool) -> (needed: bool)
    ensures
        needed == !db_exists,
{
    !db_exists
}

/// `s` without its trailing path separators: a path that ends in `/`
/// names the same file as the path without it.
pub open spec fn trim_trailing_slashes(s: Seq<char>) -> Seq<char>
    decreases s.len(),
{
    if s.len() > 0 && s[s.len() - 1] == '/' {
        trim_trailing_slashes(s.drop_last())
    } else {
        s
    }
}

/// Index just past the last path separator of `s`; 0 when `s` has none.
pub open spec fn file_name_start(s: Seq<char>) -> int
    decreases s.len(),
{
    if s.len() == 0 {
        0
    } else if s[s.len() - 1] == '/' {
        s.len() as int
    } else {
        file_name_start(s.drop_last())
    }
}

/// Index of the last '.' of `s` that lies strictly after position
/// `start`, scanning positions below `i`; the length of `s` when there
/// is none, so that a file name without an extension, or one whose only
/// dot is its leading character, keeps its full name as the stem.
pub open spec fn stem_end_from(s: Seq<char>, start: int, i: int) -> int
    decreases i - start,
{
    if i - start <= 1 {
        s.len() as int
    } else if s[i - 1] == '.' {
        i - 1
    } else {
        stem_end_from(s, start, i - 1)
    }
}

/// The name of the database associated with a heap file: the file name
/// without its directory, trailing separators and extension, with
/// `.db3` appended.
pub open spec fn db_name_of(s: Seq<char>) -> Seq<char> {
    let t = trim_trailing_slashes(s);
    let start = file_name_start(t);
    let end = stem_end_from(t, start, t.len() as int);
    t.subrange(start, end) + ".db3"@
}

/// Derives the associated database name from a heap file path.
pub fn assoc_db_name(heap_file: &str) -> (r: String)
    ensures
        r@ == db_name_of(heap_file@),
{
    let ghost s = heap_file@;
    let len: usize = heap_file.unicode_len();
    proof {
        assert(s.take(len as int) =~= s);
    }
    let mut tlen: usize = len;
    let mut trimming: bool = true;
    while trimming && tlen > 0
        invariant
            s == heap_file@,
            len as nat == s.len(),
            tlen <= len,
            trimming ==> trim_trailing_slashes(s) == trim_trailing_slashes(s.take(tlen as int)),
            !trimming ==> 1 <= tlen <= len && trim_trailing_slashes(s) == s.take(tlen as int),
        decreases tlen, (if trimming { 1int } else { 0int }),
    {
        if heap_file.get_char(tlen - 1) == '/' {
            proof {
                assert(s.take(tlen as int).drop_last() =~= s.take(tlen as int - 1));
            }
            tlen -= 1;
        } else {
            trimming = false;
            proof {
                assert(s.take(tlen as int)[tlen as int - 1] == s[tlen as int - 1]);
            }
        }
    }
    let ghost t = trim_trailing_slashes(s);
    proof {
        if trimming {
            assert(s.take(0) =~= Seq::<char>::empty());
        }
        assert(t == s.take(tlen as int));
        assert(t.len() == tlen);
    }
    let mut i: usize = tlen;
    let mut scanning: bool = true;
    proof {
        assert(t.take(tlen as int) =~= t);
    }
    while scanning && i > 0
        invariant
            s == heap_file@,
            len as nat == s.len(),
            tlen <= len,
            t == trim_trailing_slashes(s),
            t == s.take(tlen as int),
            t.len() == tlen,
            i <= tlen,
            scanning ==> file_name_start(t) == file_name_start(t.take(i as int)),
            !scanning ==> 1 <= i <= tlen && file_name_start(t) == i as int,
        decreases i, (if scanning { 1int } else { 0int }),
    {
        if heap_file.get_char(i - 1) == '/' {
            scanning = false;
            proof {
                assert(t[i as int - 1] == s[i as int - 1]);
                assert(t.take(i as int)[i as int - 1] == t[i as int - 1]);
            }
        } else {
            proof {
                assert(t[i as int - 1] == s[i as int - 1]);
                assert(t.take(i as int).drop_last() =~= t.take(i as int - 1));
            }
            i -= 1;
        }
    }
    let start: usize = if scanning {
        0
    } else {
        i
    };
    let mut e: usize = tlen;
    let mut scan_dot: bool = true;
    while scan_dot && e - start > 1
        invariant
            s == heap_file@,
            len as nat == s.len(),
            tlen <= len,
            t == trim_trailing_slashes(s),
            t == s.take(tlen as int),
            t.len() == tlen,
            start <= e <= tlen,
            scan_dot ==> stem_end_from(t, start as int, tlen as int) == stem_end_from(
                t,
                start as int,
                e as int,
            ),
            !scan_dot ==> stem_end_from(t, start as int, tlen as int) == e as int,
        decreases e, (if scan_dot { 1int } else { 0int }),
    {
        proof {
            assert(t[e as int - 1] == s[e as int - 1]);
        }
        if heap_file.get_char(e - 1) == '.' {
            e -= 1;
            scan_dot = false;
        } else {
            e -= 1;
        }
    }
    let end: usize = if scan_dot {
        tlen
    } else {
        e
    };
    let stem: &str = heap_file.substring_char(start, end);
    let mut r: String = stem.to_owned();
    r.append(".db3");
    proof {
        assert(stem@ =~= t.subrange(start as int, end as int));
        assert(r@ =~= db_name_of(s));
    }
    r
}

} // verus!
