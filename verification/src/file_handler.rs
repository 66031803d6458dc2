//! The storage adapter: byte-level stat, list, read, write and delete
//! against already-resolved absolute paths. Raw system calls go through the
//! trusted bindings of `sys`; everything computed around them — range
//! clamping, content splicing, name extraction, listing order — is verified
//! against the content model below.

use vstd::prelude::*;
use crate::error::FileServerError;
use crate::messages::{FileEntry, FileMetadata};
use crate::sys::{
    sys_close, sys_fsync, sys_mkdir, sys_open, sys_read, sys_read_dir, sys_rmdir, sys_stat,
    sys_unlink, sys_write,
};
use crate::text::{lex_le, lemma_lex_le_total, lemma_lex_le_trans, str_eq, str_lex_le};

verus! {

/// Mask of the file-type bits of a stat mode.
pub const MODE_TYPE_MASK: u32 = 0o170000;

/// File-type bits of a directory.
pub const MODE_DIRECTORY: u32 = 0o040000;

/// File-type bits of a regular file.
pub const MODE_REGULAR: u32 = 0o100000;

/// The bytes a ranged read of `content` returns: reading starts at
/// `offset` (default zero) and takes `length` bytes (default the rest),
/// the end clamped to the content's size; an offset at or past the end
/// yields no bytes rather than an error.
pub open spec fn read_range_spec(content: Seq<u8>, offset: Option<u64>, length: Option<u64>) -> Seq<
    u8,
> {
    let start = (match offset {
        Some(o) => o as int,
        None => 0int,
    });
    let end = (match length {
        Some(l) => start + l,
        None => content.len() as int,
    });
    let clamped = if end > content.len() {
        content.len() as int
    } else {
        end
    };
    if start >= content.len() {
        Seq::<u8>::empty()
    } else {
        content.subrange(start, clamped)
    }
}

/// The file content after a write: with no offset (or onto a file that did
/// not exist) the data replaces the content; with an offset onto an
/// existing file the data is written at that position, the file padded
/// with zero bytes if the position lies past its end.
pub open spec fn write_content_spec(
    old_content: Seq<u8>,
    data: Seq<u8>,
    offset: Option<u64>,
    existed: bool,
) -> Seq<u8> {
    match offset {
        Some(o) => {
            if existed {
                splice_spec(old_content, data, o as nat)
            } else {
                data
            }
        },
        None => data,
    }
}

/// `old` with `data` overwriting the bytes from position `off` on, zero
/// padding filling any gap between the old end and `off`.
pub open spec fn splice_spec(old_content: Seq<u8>, data: Seq<u8>, off: nat) -> Seq<u8> {
    let padded = if off <= old_content.len() {
        old_content
    } else {
        old_content + Seq::new((off - old_content.len()) as nat, |i: int| 0u8)
    };
    if off + data.len() >= padded.len() {
        padded.subrange(0, off as int) + data
    } else {
        padded.subrange(0, off as int) + data + padded.subrange(
            (off + data.len()) as int,
            padded.len() as int,
        )
    }
}

/// Law: a full read of what a plain write produced returns exactly the
/// written bytes, and the produced content has exactly their size — for any
/// bytes, whatever the file held before and whether or not it existed.
pub proof fn lemma_write_read_round_trip(
    old_content: Seq<u8>,
    data: Seq<u8>,
    existed: bool,
)
    ensures
        read_range_spec(write_content_spec(old_content, data, None, existed), None, None) =~= data,
        write_content_spec(old_content, data, None, existed).len() == data.len(),
{
}

/// The text after the last `/` of `p`; all of `p` when it has none.
pub open spec fn last_segment(p: Seq<char>) -> Seq<char>
    decreases p.len(),
{
    if p.len() == 0 {
        p
    } else if p.last() == '/' {
        Seq::<char>::empty()
    } else {
        last_segment(p.drop_last()).push(p.last())
    }
}

/// When `p` holds no separator, its last segment is all of it.
proof fn lemma_last_segment_whole(p: Seq<char>)
    requires
        forall|j: int| 0 <= j < p.len() ==> p[j] != '/',
    ensures
        last_segment(p) =~= p,
    decreases p.len(),
{
    if p.len() > 0 {
        lemma_last_segment_whole(p.drop_last());
    }
}

/// When the last separator of `p` stands at `i`, the last segment is what
/// follows it.
proof fn lemma_last_segment_after(p: Seq<char>, i: int)
    requires
        0 <= i < p.len(),
        p[i] == '/',
        forall|j: int| i < j < p.len() ==> p[j] != '/',
    ensures
        last_segment(p) =~= p.skip(i + 1),
    decreases p.len(),
{
    if i == p.len() - 1 {
    } else {
        lemma_last_segment_after(p.drop_last(), i);
    }
}

/// `p` with every trailing separator removed.
pub open spec fn trim_separators(p: Seq<char>) -> Seq<char>
    decreases p.len(),
{
    if p.len() > 0 && p.last() == '/' {
        trim_separators(p.drop_last())
    } else {
        p
    }
}

/// Extracts the last path segment, ignoring trailing separators.
pub fn last_segment_of(p: &str) -> (r: String)
    ensures
        r@ == last_segment(trim_separators(p@)),
{
    let len = p.unicode_len();
    proof {
        assert(p@.take(len as int) =~= p@);
    }
    let mut end: usize = len;
    while end > 0 && p.get_char(end - 1) == '/'
        invariant
            len == p@.len(),
            0 <= end <= len,
            trim_separators(p@) == trim_separators(p@.take(end as int)),
        decreases end,
    {
        proof {
            assert(p@.take(end as int).last() == p@[end - 1]);
            assert(p@.take(end as int).drop_last() =~= p@.take(end - 1));
        }
        end = end - 1;
    }
    let ghost trimmed = p@.take(end as int);
    proof {
        if end > 0 {
            assert(trimmed.last() == p@[end - 1]);
        }
        assert(trim_separators(trimmed) =~= trimmed);
    }
    let mut i: usize = 0;
    let mut found: bool = false;
    let mut at: usize = 0;
    while i < end
        invariant
            len == p@.len(),
            end <= len,
            0 <= i <= end,
            found ==> (at < i && p@[at as int] == '/' && forall|j: int|
                at < j < i ==> p@[j] != '/'),
            !found ==> forall|j: int| 0 <= j < i ==> p@[j] != '/',
        decreases end - i,
    {
        if p.get_char(i) == '/' {
            found = true;
            at = i;
        }
        i = i + 1;
    }
    if found {
        proof {
            assert(trimmed[at as int] == p@[at as int]);
            assert(forall|j: int| at < j < end ==> trimmed[j] == #[trigger] p@[j]);
            lemma_last_segment_after(trimmed, at as int);
            assert(trimmed.skip(at + 1) =~= p@.subrange(at + 1, end as int));
        }
        let seg = p.substring_char(at + 1, end);
        String::from_str(seg)
    } else {
        proof {
            assert(forall|j: int| 0 <= j < end ==> trimmed[j] == #[trigger] p@[j]);
            lemma_last_segment_whole(trimmed);
        }
        let seg = p.substring_char(0, end);
        String::from_str(seg)
    }
}

} // verus!

verus! {

/// Takes the ranged slice of in-memory content, exactly as a ranged read
/// of a file with that content returns it.
pub fn read_slice(content: &Vec<u8>, offset: Option<u64>, length: Option<u64>) -> (r: Vec<u8>)
    ensures
        r@ == read_range_spec(content@, offset, length),
{
    let clen = content.len();
    let start_u64: u64 = match offset {
        Some(o) => o,
        None => 0,
    };
    if start_u64 >= clen as u64 {
        proof {
            assert(read_range_spec(content@, offset, length) =~= Seq::<u8>::empty());
        }
        return Vec::new();
    }
    let start: usize = start_u64 as usize;
    let remaining: usize = clen - start;
    let take: usize = match length {
        Some(l) => {
            if l >= remaining as u64 {
                remaining
            } else {
                l as usize
            }
        },
        None => remaining,
    };
    let mut out: Vec<u8> = Vec::new();
    let mut k: usize = 0;
    while k < take
        invariant
            clen == content@.len(),
            start < clen,
            start + take <= clen,
            0 <= k <= take,
            out@ =~= content@.subrange(start as int, start + k),
        decreases take - k,
    {
        out.push(content[start + k]);
        proof {
            assert(out@ =~= content@.subrange(start as int, start + k + 1));
        }
        k = k + 1;
    }
    proof {
        assert(out@ =~= read_range_spec(content@, offset, length));
    }
    out
}

/// Computes the file content a write produces, splicing the data into the
/// old content at the requested position. It fails exactly when the spliced
/// content would not fit in memory.
pub fn apply_write(old_content: &Vec<u8>, data: &Vec<u8>, offset: Option<u64>, existed: bool) -> (r:
    Result<Vec<u8>, FileServerError>)
    ensures
        match r {
            Ok(c) => c@ == write_content_spec(old_content@, data@, offset, existed),
            Err(e) => e is IoError,
        },
        r is Err <==> (match offset {
            Some(o) => existed && o + data@.len() > usize::MAX,
            None => false,
        }),
{
    let off_u64: u64 = match offset {
        Some(o) => {
            if existed {
                o
            } else {
                return Ok(data.clone());
            }
        },
        None => {
            return Ok(data.clone());
        },
    };
    if off_u64 > usize::MAX as u64 || off_u64 as usize > usize::MAX - data.len() {
        return Err(FileServerError::IoError(String::from_str("write position too large")));
    }
    let off: usize = off_u64 as usize;
    let mut out: Vec<u8> = Vec::new();
    let ghost padded = if off as nat <= old_content@.len() {
        old_content@
    } else {
        old_content@ + Seq::new((off as nat - old_content@.len()) as nat, |i: int| 0u8)
    };
    let head: usize = if off <= old_content.len() {
        off
    } else {
        old_content.len()
    };
    let mut k: usize = 0;
    while k < head
        invariant
            head <= old_content@.len(),
            0 <= k <= head,
            out@ =~= old_content@.subrange(0, k as int),
        decreases head - k,
    {
        out.push(old_content[k]);
        proof {
            assert(out@ =~= old_content@.subrange(0, k + 1));
        }
        k = k + 1;
    }
    let mut z: usize = head;
    while z < off
        invariant
            head <= off,
            head <= old_content@.len(),
            head < off ==> head == old_content@.len(),
            head <= z <= off,
            out@ =~= old_content@.subrange(0, head as int) + Seq::new(
                (z - head) as nat,
                |i: int| 0u8,
            ),
        decreases off - z,
    {
        out.push(0u8);
        proof {
            assert(out@ =~= old_content@.subrange(0, head as int) + Seq::new(
                (z + 1 - head) as nat,
                |i: int| 0u8,
            ));
        }
        z = z + 1;
    }
    proof {
        assert(out@ =~= padded.subrange(0, off as int));
    }
    let mut d: usize = 0;
    let dlen = data.len();
    while d < dlen
        invariant
            dlen == data@.len(),
            0 <= d <= dlen,
            out@ =~= padded.subrange(0, off as int) + data@.subrange(0, d as int),
        decreases dlen - d,
    {
        out.push(data[d]);
        proof {
            assert(out@ =~= padded.subrange(0, off as int) + data@.subrange(0, d + 1));
        }
        d = d + 1;
    }
    proof {
        assert(data@.subrange(0, dlen as int) =~= data@);
    }
    let tail_from: usize = off + dlen;
    let mut t: usize = tail_from;
    let old_len = old_content.len();
    while t < old_len
        invariant
            dlen == data@.len(),
            tail_from == off + dlen,
            tail_from <= t,
            old_len == old_content@.len(),
            t <= old_len || t == tail_from,
            off as nat <= padded.len(),
            padded.len() >= old_content@.len(),
            off <= old_content@.len() ==> padded =~= old_content@,
            out@ =~= padded.subrange(0, off as int) + data@ + (if t > tail_from {
                old_content@.subrange(tail_from as int, t as int)
            } else {
                Seq::<u8>::empty()
            }),
        decreases old_len - t,
    {
        proof {
            assert(off <= old_content@.len());
            assert(padded =~= old_content@);
        }
        out.push(old_content[t]);
        proof {
            assert(out@ =~= padded.subrange(0, off as int) + data@ + old_content@.subrange(
                tail_from as int,
                t + 1,
            ));
        }
        t = t + 1;
    }
    proof {
        if tail_from >= old_len {
            assert(off + data@.len() >= padded.len());
            assert(out@ =~= padded.subrange(0, off as int) + data@);
        } else {
            assert(padded =~= old_content@);
            assert(out@ =~= padded.subrange(0, off as int) + data@ + padded.subrange(
                tail_from as int,
                padded.len() as int,
            ));
        }
        assert(out@ =~= splice_spec(old_content@, data@, off as nat));
    }
    Ok(out)
}

} // verus!

verus! {

/// An entry's permission label names its kind.
pub open spec fn entry_labelled(e: FileEntry) -> bool {
    &&& (e.is_directory ==> e.permissions@ == "dir"@)
    &&& (!e.is_directory ==> e.permissions@ == "file"@)
}

/// Listing order: directory entries sort before file entries, and entries
/// of the same kind sort by name.
pub open spec fn entry_le(a: FileEntry, b: FileEntry) -> bool {
    if a.is_directory && !b.is_directory {
        true
    } else if !a.is_directory && b.is_directory {
        false
    } else {
        lex_le(a.name@, b.name@)
    }
}

/// A listing is sorted under `entry_le`.
pub open spec fn entries_sorted(es: Seq<FileEntry>) -> bool {
    forall|i: int, j: int| 0 <= i < j < es.len() ==> entry_le(#[trigger] es[i], #[trigger] es[j])
}

/// Any two entries are comparable.
pub proof fn lemma_entry_le_total(a: FileEntry, b: FileEntry)
    ensures
        entry_le(a, b) || entry_le(b, a),
{
    lemma_lex_le_total(a.name@, b.name@);
}

/// The listing order is transitive.
pub proof fn lemma_entry_le_trans(a: FileEntry, b: FileEntry, c: FileEntry)
    requires
        entry_le(a, b),
        entry_le(b, c),
    ensures
        entry_le(a, c),
{
    if a.is_directory == b.is_directory && b.is_directory == c.is_directory {
        lemma_lex_le_trans(a.name@, b.name@, c.name@);
    }
}

/// Compares two entries in listing order.
fn entry_le_exec(a: &FileEntry, b: &FileEntry) -> (r: bool)
    ensures
        r == entry_le(*a, *b),
{
    if a.is_directory && !b.is_directory {
        true
    } else if !a.is_directory && b.is_directory {
        false
    } else {
        str_lex_le(a.name.as_str(), b.name.as_str())
    }
}

/// Sorts a listing: directories before files, each group by name. The
/// result holds exactly the given entries.
pub fn sort_entries(input: Vec<FileEntry>) -> (r: Vec<FileEntry>)
    ensures
        r@.to_multiset() == input@.to_multiset(),
        entries_sorted(r@),
        forall|i: int| 0 <= i < r@.len() ==> input@.contains(#[trigger] r@[i]),
{
    broadcast use vstd::seq_lib::group_to_multiset_ensures;
    broadcast use vstd::multiset::group_multiset_axioms;

    let mut rest = input;
    let mut out: Vec<FileEntry> = Vec::new();
    proof {
        assert forall|j: int| 0 <= j < rest@.len() implies input@.contains(#[trigger] rest@[j]) by {
            assert(input@[j] == rest@[j]);
        }
    }
    while rest.len() > 0
        invariant
            out@.to_multiset().add(rest@.to_multiset()) =~= input@.to_multiset(),
            entries_sorted(out@),
            forall|i: int| 0 <= i < out@.len() ==> input@.contains(#[trigger] out@[i]),
            forall|j: int| 0 <= j < rest@.len() ==> input@.contains(#[trigger] rest@[j]),
            forall|i: int, j: int|
                0 <= i < out@.len() && 0 <= j < rest@.len() ==> entry_le(
                    #[trigger] out@[i],
                    #[trigger] rest@[j],
                ),
        decreases rest@.len(),
    {
        let n = rest.len();
        let mut m: usize = 0;
        let mut k: usize = 1;
        proof {
            lemma_entry_le_total(rest@[0], rest@[0]);
        }
        while k < n
            invariant
                n == rest@.len(),
                0 <= m < n,
                m < k <= n || (m == 0 && k <= n),
                forall|j: int| 0 <= j < k ==> entry_le(rest@[m as int], #[trigger] rest@[j]),
            decreases n - k,
        {
            if !entry_le_exec(&rest[m], &rest[k]) {
                proof {
                    lemma_entry_le_total(rest@[m as int], rest@[k as int]);
                    assert forall|j: int| 0 <= j < k + 1 implies entry_le(
                        rest@[k as int],
                        #[trigger] rest@[j],
                    ) by {
                        if j < k {
                            lemma_entry_le_trans(rest@[k as int], rest@[m as int], rest@[j]);
                        } else {
                            lemma_entry_le_total(rest@[k as int], rest@[k as int]);
                        }
                    }
                }
                m = k;
            }
            k = k + 1;
        }
        let ghost old_rest = rest@;
        let ghost old_out = out@;
        let chosen = rest.remove(m);
        out.push(chosen);
        proof {
            broadcast use vstd::seq_lib::group_to_multiset_ensures;
            broadcast use vstd::multiset::group_multiset_axioms;

            assert(old_rest.remove(m as int).to_multiset() =~= old_rest.to_multiset().remove(
                old_rest[m as int],
            ));
            assert(old_out.push(chosen).to_multiset() =~= old_out.to_multiset().insert(chosen));
            assert(old_rest.to_multiset().count(chosen) > 0);
            assert(out@.to_multiset().add(rest@.to_multiset()) =~= input@.to_multiset());
            assert forall|j: int| 0 <= j < rest@.len() implies input@.contains(
                #[trigger] rest@[j],
            ) by {
                let orig_j = if j < m { j } else { j + 1 };
                assert(rest@[j] == old_rest[orig_j]);
            }
            assert forall|i: int, j: int|
                0 <= i < out@.len() && 0 <= j < rest@.len() implies entry_le(
                #[trigger] out@[i],
                #[trigger] rest@[j],
            ) by {
                let orig_j = if j < m { j } else { j + 1 };
                assert(rest@[j] == old_rest[orig_j]);
                if i < old_out.len() {
                    assert(out@[i] == old_out[i]);
                } else {
                    assert(out@[i] == chosen);
                }
            }
            assert forall|i: int, j: int|
                0 <= i < j < out@.len() implies entry_le(#[trigger] out@[i], #[trigger] out@[j]) by {
                if j < old_out.len() {
                } else {
                    assert(out@[j] == chosen);
                    assert(old_rest.to_multiset().count(chosen) > 0);
                }
            }
        }
    }
    proof {
        broadcast use vstd::seq_lib::group_to_multiset_ensures;
        broadcast use vstd::multiset::group_multiset_axioms;

        assert(rest@.to_multiset().len() == 0);
        assert(out@.to_multiset().add(rest@.to_multiset()) =~= out@.to_multiset());
    }
    out
}

} // verus!

verus! {

/// Reads everything a descriptor has left.
fn read_fd_to_end(fd: i32) -> (r: Result<Vec<u8>, String>) {
    let mut out: Vec<u8> = Vec::new();
    let mut buf: Vec<u8> = Vec::new();
    let mut i: usize = 0;
    while i < 4096
        invariant
            buf@.len() == i,
            0 <= i <= 4096,
        decreases 4096 - i,
    {
        buf.push(0u8);
        i = i + 1;
    }
    loop
        invariant
            buf@.len() == 4096,
        decreases usize::MAX - out@.len(),
    {
        match sys_read(fd, &mut buf) {
            Ok(n) => {
                if n == 0 {
                    return Ok(out);
                }
                if out.len() > usize::MAX - n {
                    return Err(String::from_str("file too large"));
                }
                let ghost out_len_before = out@.len();
                let mut k: usize = 0;
                while k < n
                    invariant
                        n <= buf@.len(),
                        0 <= k <= n,
                        out@.len() == out_len_before + k,
                        out_len_before + n <= usize::MAX,
                    decreases n - k,
                {
                    out.push(buf[k]);
                    k = k + 1;
                }
            },
            Err(e) => {
                return Err(e);
            },
        }
    }
}

/// Writes the whole buffer through a descriptor.
fn write_fd_all(fd: i32, data: &Vec<u8>) -> (r: Result<(), String>) {
    let mut written: usize = 0;
    let len = data.len();
    while written < len
        invariant
            len == data@.len(),
            written <= len,
        decreases len - written,
    {
        match sys_write(fd, data, written) {
            Ok(n) => {
                if n == 0 {
                    return Err(String::from_str("write made no progress"));
                }
                written = written + n;
            },
            Err(e) => {
                return Err(e);
            },
        }
    }
    Ok(())
}

/// Reads a whole file.
fn read_full(path: &str) -> (r: Result<Vec<u8>, String>) {
    let fd = match sys_open(path, false) {
        Ok(fd) => fd,
        Err(e) => {
            return Err(e);
        },
    };
    let res = read_fd_to_end(fd);
    sys_close(fd);
    res
}

/// Replaces a file's content, flushing it to stable storage before
/// reporting success.
fn write_full(path: &str, data: &Vec<u8>) -> (r: Result<(), String>) {
    let fd = match sys_open(path, true) {
        Ok(fd) => fd,
        Err(e) => {
            return Err(e);
        },
    };
    match write_fd_all(fd, data) {
        Ok(_) => {},
        Err(e) => {
            sys_close(fd);
            return Err(e);
        },
    }
    match sys_fsync(fd) {
        Ok(_) => {},
        Err(e) => {
            sys_close(fd);
            return Err(e);
        },
    }
    sys_close(fd);
    Ok(())
}

/// Creates every missing ancestor directory of `path` (the text before
/// each separator). Failures are left for the subsequent open to report.
fn create_parent_dirs(path: &str) {
    let len = path.unicode_len();
    let mut i: usize = 1;
    while i < len
        invariant
            len == path@.len(),
            1 <= i,
        decreases len - i,
    {
        if path.get_char(i) == '/' {
            let prefix = path.substring_char(0, i);
            let _ = sys_mkdir(prefix);
        }
        i = i + 1;
    }
}

/// The storage adapter. It operates only on already-resolved absolute
/// paths and never re-derives authorization.
pub struct FileHandler {}

impl FileHandler {
    /// Makes a storage adapter.
    pub fn new() -> (r: Self)
        ensures
            r == (FileHandler {  }),
    {
        FileHandler {  }
    }

    /// Stats one path: the entry's name is the path's last segment
    /// (trailing separators ignored), the permission label names its kind,
    /// and the creation time defaults to the epoch, which this platform
    /// binding cannot improve on.
    pub fn stat(&self, full_path: &str) -> (r: Result<FileMetadata, FileServerError>)
        ensures
            match r {
                Ok(m) => {
                    &&& m.name@ == last_segment(trim_separators(full_path@))
                    &&& (m.is_directory ==> m.permissions@ == "dir"@)
                    &&& (!m.is_directory ==> m.permissions@ == "file"@)
                    &&& m.created_time == 0
                },
                Err(e) => e is IoError,
            },
    {
        let st = match sys_stat(full_path) {
            Ok(st) => st,
            Err(e) => {
                return Err(FileServerError::IoError(e));
            },
        };
        let name = last_segment_of(full_path);
        let is_directory = st.mode & MODE_TYPE_MASK == MODE_DIRECTORY;
        let size: u64 = if st.size >= 0 {
            st.size as u64
        } else {
            0
        };
        Ok(
            FileMetadata {
                name,
                size,
                is_directory,
                permissions: if is_directory {
                    String::from_str("dir")
                } else {
                    String::from_str("file")
                },
                modified_time: st.modified,
                created_time: 0,
            },
        )
    }

    /// Lists one directory: one entry per child, directories first, each
    /// group sorted by name.
    pub fn list_directory(&self, full_path: &str) -> (r: Result<Vec<FileEntry>, FileServerError>)
        ensures
            match r {
                Ok(es) => entries_sorted(es@) && forall|i: int|
                    0 <= i < es@.len() ==> entry_labelled(#[trigger] es@[i]),
                Err(e) => e is InvalidPath || e is IoError,
            },
    {
        let is_dir = match sys_stat(full_path) {
            Ok(st) => st.mode & MODE_TYPE_MASK == MODE_DIRECTORY,
            Err(_) => false,
        };
        if !is_dir {
            return Err(
                FileServerError::InvalidPath(String::from_str("Path is not a directory")),
            );
        }
        let names = match sys_read_dir(full_path) {
            Some(names) => names,
            None => {
                return Err(FileServerError::IoError(String::from_str("cannot read directory")));
            },
        };
        let mut entries: Vec<FileEntry> = Vec::new();
        let n = names.len();
        let mut i: usize = 0;
        while i < n
            invariant
                n == names@.len(),
                0 <= i <= n,
                forall|k: int| 0 <= k < entries@.len() ==> entry_labelled(#[trigger] entries@[k]),
            decreases n - i,
        {
            let name = &names[i];
            if str_eq(name.as_str(), ".") || str_eq(name.as_str(), "..") {
                i = i + 1;
                continue ;
            }
            let mut child = String::from_str(full_path);
            child.append("/");
            child.append(name.as_str());
            let st = match sys_stat(child.as_str()) {
                Ok(st) => st,
                Err(e) => {
                    return Err(FileServerError::IoError(e));
                },
            };
            let is_directory = st.mode & MODE_TYPE_MASK == MODE_DIRECTORY;
            let size: u64 = if st.size >= 0 {
                st.size as u64
            } else {
                0
            };
            entries.push(
                FileEntry {
                    name: name.clone(),
                    is_directory,
                    size,
                    modified_time: st.modified,
                    permissions: if is_directory {
                        String::from_str("dir")
                    } else {
                        String::from_str("file")
                    },
                },
            );
            i = i + 1;
        }
        let sorted = sort_entries(entries);
        proof {
            assert forall|k: int| 0 <= k < sorted@.len() implies entry_labelled(
                #[trigger] sorted@[k],
            ) by {
                let w = choose|j: int| 0 <= j < entries@.len() && entries@[j] == sorted@[k];
                assert(entry_labelled(entries@[w]));
            }
        }
        Ok(sorted)
    }

    /// Reads a byte range of one file: the ranged slice of its content,
    /// computed by the exactly specified `read_slice`, so the end is
    /// clamped to the file's size and an offset past the end yields empty
    /// bytes. The content itself is the disk's answer; what a contract can
    /// bind here is the length clamp.
    pub fn read_file(&self, full_path: &str, offset: Option<u64>, length: Option<u64>) -> (r:
        Result<Vec<u8>, FileServerError>)
        ensures
            match r {
                Ok(bytes) => match length {
                    Some(l) => bytes@.len() <= l,
                    None => true,
                },
                Err(e) => e is InvalidPath || e is IoError,
            },
    {
        let is_file = match sys_stat(full_path) {
            Ok(st) => st.mode & MODE_TYPE_MASK == MODE_REGULAR,
            Err(_) => false,
        };
        if !is_file {
            return Err(FileServerError::InvalidPath(String::from_str("Path is not a file")));
        }
        let content = match read_full(full_path) {
            Ok(c) => c,
            Err(e) => {
                return Err(FileServerError::IoError(e));
            },
        };
        Ok(read_slice(&content, offset, length))
    }

    /// Writes bytes to one file, creating missing parent directories. With
    /// no offset the file is created or truncated; with an offset onto an
    /// existing file the bytes are spliced in at that position. The data is
    /// flushed to stable storage before success is reported, and the count
    /// of bytes written is handed back.
    pub fn write_file(&self, full_path: &str, data: &Vec<u8>, offset: Option<u64>) -> (r: Result<
        u64,
        FileServerError,
    >)
        ensures
            match r {
                Ok(n) => n as nat == data@.len(),
                Err(e) => e is IoError,
            },
    {
        create_parent_dirs(full_path);
        let existed = match sys_stat(full_path) {
            Ok(_) => true,
            Err(_) => false,
        };
        let content: Vec<u8> = if offset.is_some() && existed {
            let old_content = match read_full(full_path) {
                Ok(c) => c,
                Err(e) => {
                    return Err(FileServerError::IoError(e));
                },
            };
            match apply_write(&old_content, data, offset, true) {
                Ok(c) => c,
                Err(e) => {
                    return Err(e);
                },
            }
        } else {
            data.clone()
        };
        match write_full(full_path, &content) {
            Ok(_) => Ok(data.len() as u64),
            Err(e) => Err(FileServerError::IoError(e)),
        }
    }

    /// Deletes one path: a file is unlinked, a directory is removed with
    /// everything under it, a missing path is reported as not found.
    pub fn delete_file(&self, full_path: &str) -> (r: Result<(), FileServerError>)
        ensures
            r is Err ==> (r->Err_0 is FileNotFound || r->Err_0 is InvalidPath
                || r->Err_0 is IoError),
            r is Err && r->Err_0 is FileNotFound ==> r->Err_0.detail_spec() == full_path@,
    {
        let st = match sys_stat(full_path) {
            Ok(st) => st,
            Err(_) => {
                return Err(FileServerError::FileNotFound(String::from_str(full_path)));
            },
        };
        if st.mode & MODE_TYPE_MASK == MODE_REGULAR {
            match sys_unlink(full_path) {
                Ok(_) => Ok(()),
                Err(e) => Err(FileServerError::IoError(e)),
            }
        } else if st.mode & MODE_TYPE_MASK == MODE_DIRECTORY {
            remove_tree(full_path)
        } else {
            Err(
                FileServerError::InvalidPath(
                    String::from_str("Path is neither a file nor a directory"),
                ),
            )
        }
    }
}

/// Removes a directory and everything under it, walking the tree with an
/// explicit worklist.
fn remove_tree(root: &str) -> (r: Result<(), FileServerError>)
    ensures
        r is Err ==> r->Err_0 is IoError,
{
    let mut stack: Vec<String> = Vec::new();
    stack.push(String::from_str(root));
    let mut fuel: u64 = 10000000;
    while stack.len() > 0
        invariant
            fuel <= 10000000,
        decreases fuel,
    {
        if fuel == 0 {
            return Err(FileServerError::IoError(String::from_str("directory tree too large")));
        }
        fuel = fuel - 1;
        let top = stack[stack.len() - 1].clone();
        let st = match sys_stat(top.as_str()) {
            Ok(st) => st,
            Err(e) => {
                return Err(FileServerError::IoError(e));
            },
        };
        if st.mode & MODE_TYPE_MASK == MODE_DIRECTORY {
            let names = match sys_read_dir(top.as_str()) {
                Some(names) => names,
                None => {
                    return Err(
                        FileServerError::IoError(String::from_str("cannot read directory")),
                    );
                },
            };
            let mut pushed = false;
            let n = names.len();
            let mut i: usize = 0;
            while i < n
                invariant
                    n == names@.len(),
                    0 <= i <= n,
                decreases n - i,
            {
                let name = &names[i];
                if !(str_eq(name.as_str(), ".") || str_eq(name.as_str(), "..")) {
                    let mut child = top.clone();
                    child.append("/");
                    child.append(name.as_str());
                    stack.push(child);
                    pushed = true;
                }
                i = i + 1;
            }
            if !pushed {
                match sys_rmdir(top.as_str()) {
                    Ok(_) => {},
                    Err(e) => {
                        return Err(FileServerError::IoError(e));
                    },
                }
                let _ = stack.pop();
            }
        } else {
            match sys_unlink(top.as_str()) {
                Ok(_) => {},
                Err(e) => {
                    return Err(FileServerError::IoError(e));
                },
            }
            let _ = stack.pop();
        }
    }
    Ok(())
}

} // verus!
