//! Resource and archive naming.
//!
//! A served path is identified by one resource name: the final
//! slash-separated segment of its filesystem path, with whitespace
//! replaced by underscores.  A directory is packaged first, and its
//! archive sits beside it under the directory's name with the extension
//! replaced by the fixed two-part archive suffix.  Paths are handled as
//! byte strings.

use vstd::prelude::*;

verus! {

/// The path separator, `/`.
pub open spec fn is_separator(b: u8) -> bool {
    b == 47u8
}

/// The length of the UTF-8 encoding of a Unicode White_Space character
/// opening `s`, and zero when none does.  The set is the one
/// `char::is_whitespace` recognizes: U+0009..U+000D and U+0020
/// (one byte); U+0085 and U+00A0 (two bytes); U+1680, U+2000..U+200A,
/// U+2028, U+2029, U+202F, U+205F and U+3000 (three bytes).
pub open spec fn whitespace_prefix_len(s: Seq<u8>) -> int {
    if s.len() >= 1 && (9u8 <= s[0] <= 13u8 || s[0] == 32u8) {
        1
    } else if s.len() >= 2 && s[0] == 0xc2u8 && (s[1] == 0x85u8 || s[1] == 0xa0u8) {
        2
    } else if s.len() >= 3 && s[0] == 0xe1u8 && s[1] == 0x9au8 && s[2] == 0x80u8 {
        3
    } else if s.len() >= 3 && s[0] == 0xe2u8 && s[1] == 0x80u8 && (0x80u8 <= s[2] <= 0x8au8
        || s[2] == 0xa8u8 || s[2] == 0xa9u8 || s[2] == 0xafu8) {
        3
    } else if s.len() >= 3 && s[0] == 0xe2u8 && s[1] == 0x81u8 && s[2] == 0x9fu8 {
        3
    } else if s.len() >= 3 && s[0] == 0xe3u8 && s[1] == 0x80u8 && s[2] == 0x80u8 {
        3
    } else {
        0
    }
}

/// The whitespace-sanitized form of a byte string: each whitespace
/// character's UTF-8 encoding becomes one underscore, every other byte
/// stays.  On well-formed UTF-8 this is exactly the character-level
/// replacement, since no whitespace encoding can open inside another
/// character's encoding.
pub open spec fn sanitized(s: Seq<u8>) -> Seq<u8>
    decreases s.len(),
{
    if s.len() == 0 {
        s
    } else {
        let ws = whitespace_prefix_len(s);
        if ws > 0 {
            seq![95u8] + sanitized(s.skip(ws))
        } else {
            seq![s[0]] + sanitized(s.skip(1))
        }
    }
}

/// The suffix of `s` after its last separator: the file-name part of a
/// path, empty when the path ends in a separator.
pub open spec fn last_segment(s: Seq<u8>) -> Seq<u8>
    decreases s.len(),
{
    if s.len() == 0 {
        s
    } else if is_separator(s[s.len() - 1]) {
        Seq::<u8>::empty()
    } else {
        last_segment(s.subrange(0, s.len() - 1)).push(s[s.len() - 1])
    }
}

/// The file name without its extension: everything before the last dot,
/// except that a dot opening the name does not begin an extension (a
/// name that is nothing but `.something` has none).
pub open spec fn stem(name: Seq<u8>) -> Seq<u8>
    decreases name.len(),
{
    if name.len() <= 1 {
        name
    } else if name[name.len() - 1] == 46u8 {
        name.subrange(0, name.len() - 1)
    } else {
        let shorter = stem(name.subrange(0, name.len() - 1));
        if shorter.len() == name.len() - 1 {
            name
        } else {
            shorter
        }
    }
}

/// The archive suffix, `.tar.gz`.
pub open spec fn archive_suffix() -> Seq<u8> {
    seq![46u8, 116u8, 97u8, 114u8, 46u8, 103u8, 122u8]
}

/// A path fit to be named: non-empty, not ending in a separator — so it
/// carries a non-empty final segment — and that segment is a real file
/// name, not the `.` or `..` of path navigation.  Paths are plain byte
/// strings throughout; a final segment that is not well-formed UTF-8 is
/// deliberately in the domain and sanitized byte for byte.
pub open spec fn names_a_file(s: Seq<u8>) -> bool {
    &&& s.len() > 0
    &&& !is_separator(s[s.len() - 1])
    &&& last_segment(s) != seq![46u8]
    &&& last_segment(s) != seq![46u8, 46u8]
}

/// The archive path derived from a directory path: the same directory
/// prefix, the name's stem, and the archive suffix in place of any
/// extension.
pub open spec fn archive_path_spec(s: Seq<u8>) -> Seq<u8> {
    s.subrange(0, s.len() - last_segment(s).len()) + stem(last_segment(s)) + archive_suffix()
}

/// The resource name of a served path: its final segment, sanitized.
pub open spec fn resource_name_spec(s: Seq<u8>) -> Seq<u8> {
    sanitized(last_segment(s))
}

/// The final segment is never longer than the whole path.
pub proof fn lemma_last_segment_len(s: Seq<u8>)
    ensures
        last_segment(s).len() <= s.len(),
    decreases s.len(),
{
    if s.len() > 0 && !is_separator(s[s.len() - 1]) {
        lemma_last_segment_len(s.subrange(0, s.len() - 1));
    }
}

/// When every byte from `start` on is a non-separator and `start` opens
/// the path or follows a separator, the final segment is exactly the
/// suffix from `start`.
pub proof fn lemma_last_segment_suffix(s: Seq<u8>, start: int)
    requires
        0 <= start <= s.len(),
        forall|j: int| start <= j < s.len() ==> !is_separator(s[j]),
        start == 0 || is_separator(s[start - 1]),
    ensures
        last_segment(s) == s.subrange(start, s.len() as int),
    decreases s.len() - start, s.len(),
{
    if s.len() == start {
        if s.len() == 0 {
            assert(last_segment(s) =~= s.subrange(start, s.len() as int));
        } else {
            assert(is_separator(s[s.len() - 1]));
            assert(last_segment(s) =~= s.subrange(start, s.len() as int));
        }
    } else {
        let shorter = s.subrange(0, s.len() - 1);
        assert(!is_separator(s[s.len() - 1]));
        lemma_last_segment_suffix(shorter, start);
        assert(last_segment(s) == last_segment(shorter).push(s[s.len() - 1]));
        assert(last_segment(s) =~= s.subrange(start, s.len() as int));
    }
}

/// Where the final segment sits: it is the suffix that opens at
/// `s.len() - last_segment(s).len()`, every byte from there on is a
/// non-separator, and the byte before it, if any, is a separator.
pub proof fn lemma_last_segment_position(s: Seq<u8>)
    ensures
        last_segment(s).len() <= s.len(),
        last_segment(s) == s.subrange(s.len() - last_segment(s).len(), s.len() as int),
        forall|j: int| s.len() - last_segment(s).len() <= j < s.len() ==> !is_separator(s[j]),
        s.len() == last_segment(s).len() || is_separator(
            s[s.len() - last_segment(s).len() - 1],
        ),
    decreases s.len(),
{
    lemma_last_segment_len(s);
    if s.len() == 0 {
        assert(last_segment(s) =~= s.subrange(0, 0));
    } else if is_separator(s[s.len() - 1]) {
        assert(last_segment(s) =~= s.subrange(s.len() as int, s.len() as int));
    } else {
        let shorter = s.subrange(0, s.len() - 1);
        lemma_last_segment_position(shorter);
        lemma_last_segment_len(shorter);
        let k = s.len() - last_segment(s).len();
        assert(last_segment(s) == last_segment(shorter).push(s[s.len() - 1]));
        assert(k == shorter.len() - last_segment(shorter).len());
        assert(last_segment(s) =~= s.subrange(k, s.len() as int));
        assert forall|j: int| k <= j < s.len() implies !is_separator(s[j]) by {
            if j < s.len() - 1 {
                assert(s[j] == shorter[j]);
            }
        }
    }
}

/// The final segment holds no separator.
pub proof fn lemma_last_segment_no_separator(s: Seq<u8>)
    ensures
        forall|j: int|
            0 <= j < last_segment(s).len() ==> !is_separator(#[trigger] last_segment(s)[j]),
{
    lemma_last_segment_position(s);
    let k = s.len() - last_segment(s).len();
    assert forall|j: int| 0 <= j < last_segment(s).len() implies !is_separator(
        #[trigger] last_segment(s)[j],
    ) by {
        assert(last_segment(s)[j] == s[k + j]);
    }
}

/// When a dot stands at `dot` (not opening the name) and no dot follows
/// it, the stem is everything before it.
pub proof fn lemma_stem_at_dot(name: Seq<u8>, dot: int)
    requires
        1 <= dot < name.len(),
        name[dot] == 46u8,
        forall|j: int| dot < j < name.len() ==> name[j] != 46u8,
    ensures
        stem(name) == name.subrange(0, dot),
    decreases name.len(),
{
    if dot == name.len() - 1 {
    } else {
        let shorter = name.subrange(0, name.len() - 1);
        lemma_stem_at_dot(shorter, dot);
        assert(shorter.subrange(0, dot) =~= name.subrange(0, dot));
        assert(stem(shorter).len() == dot);
    }
}

/// When no dot stands past the opening byte, the name is its own stem.
pub proof fn lemma_stem_whole(name: Seq<u8>)
    requires
        forall|j: int| 1 <= j < name.len() ==> name[j] != 46u8,
    ensures
        stem(name) == name,
    decreases name.len(),
{
    if name.len() > 1 {
        lemma_stem_whole(name.subrange(0, name.len() - 1));
    }
}

/// The stem is a prefix of the name.
pub proof fn lemma_stem_is_prefix(name: Seq<u8>)
    ensures
        stem(name).len() <= name.len(),
        stem(name) == name.subrange(0, stem(name).len() as int),
    decreases name.len(),
{
    if name.len() <= 1 {
        assert(stem(name) =~= name.subrange(0, stem(name).len() as int));
    } else if name[name.len() - 1] == 46u8 {
        assert(stem(name) =~= name.subrange(0, stem(name).len() as int));
    } else {
        let shorter = name.subrange(0, name.len() - 1);
        lemma_stem_is_prefix(shorter);
        if stem(shorter).len() == name.len() - 1 {
            assert(stem(name) =~= name.subrange(0, stem(name).len() as int));
        } else {
            assert(stem(name) =~= name.subrange(0, stem(name).len() as int));
        }
    }
}

/// A non-empty byte string sanitizes to a non-empty one.
pub proof fn lemma_sanitized_nonempty(s: Seq<u8>)
    requires
        s.len() > 0,
    ensures
        sanitized(s).len() > 0,
{
}

/// Sanitizing distributes over a concatenation whose right side does
/// not open with a UTF-8 continuation byte: every whitespace encoding
/// continues with bytes of the high half, so none can span the seam.
pub proof fn lemma_sanitized_split(a: Seq<u8>, b: Seq<u8>)
    requires
        b.len() == 0 || b[0] < 0x80u8,
    ensures
        sanitized(a + b) == sanitized(a) + sanitized(b),
    decreases a.len(),
{
    if a.len() == 0 {
        assert(a + b =~= b);
        assert(sanitized(a) + sanitized(b) =~= sanitized(b));
    } else {
        let whole = a + b;
        let ws_a = whitespace_prefix_len(a);
        let ws_whole = whitespace_prefix_len(whole);
        assert(whole[0] == a[0]);
        if a.len() >= 2 {
            assert(whole[1] == a[1]);
        } else if whole.len() >= 2 {
            assert(whole[1] == b[0]);
        }
        if a.len() >= 3 {
            assert(whole[2] == a[2]);
        } else if whole.len() >= 3 && a.len() == 2 {
            assert(whole[2] == b[0]);
        } else if whole.len() >= 3 && a.len() == 1 {
            assert(whole[2] == b[1]);
        }
        assert(ws_whole == ws_a);
        if ws_a > 0 {
            lemma_sanitized_split(a.skip(ws_a), b);
            assert(whole.skip(ws_a) =~= a.skip(ws_a) + b);
            assert(sanitized(a) + sanitized(b) =~= seq![95u8] + (sanitized(a.skip(ws_a))
                + sanitized(b)));
        } else {
            lemma_sanitized_split(a.skip(1), b);
            assert(whole.skip(1) =~= a.skip(1) + b);
            assert(sanitized(a) + sanitized(b) =~= seq![a[0]] + (sanitized(a.skip(1))
                + sanitized(b)));
        }
    }
}

/// A byte string of plain low bytes with no whitespace — the archive
/// suffix is one — sanitizes to itself.
pub proof fn lemma_sanitized_plain(s: Seq<u8>)
    requires
        forall|i: int|
            0 <= i < s.len() ==> (#[trigger] s[i] < 0xc2u8 && !(9u8 <= s[i] <= 13u8) && s[i]
                != 32u8),
    ensures
        sanitized(s) == s,
    decreases s.len(),
{
    if s.len() > 0 {
        assert(whitespace_prefix_len(s) == 0);
        lemma_sanitized_plain(s.skip(1));
        assert(seq![s[0]] + s.skip(1) =~= s);
    }
}

/// The final segment of a byte string: everything after its last
/// separator, or all of it when it has none.
pub fn last_segment_of(path: &Vec<u8>) -> (r: Vec<u8>)
    ensures
        r@ == last_segment(path@),
{
    let n = path.len();
    let mut start: usize = n;
    while start > 0 && path[start - 1] != 47u8
        invariant
            0 <= start <= n,
            n == path@.len(),
            forall|j: int| start <= j < n ==> !is_separator(path@[j]),
        decreases start,
    {
        start = start - 1;
    }
    let mut out: Vec<u8> = Vec::new();
    let mut i: usize = start;
    while i < n
        invariant
            start <= i <= n,
            n == path@.len(),
            out@ == path@.subrange(start as int, i as int),
        decreases n - i,
    {
        out.push(path[i]);
        assert(out@ =~= path@.subrange(start as int, i + 1));
        i = i + 1;
    }
    proof {
        lemma_last_segment_suffix(path@, start as int);
    }
    out
}

/// The resource name under which a path is served: its file name with
/// whitespace replaced by underscores.
pub fn make_file_name(path: &Vec<u8>) -> (r: Vec<u8>)
    requires
        names_a_file(path@),
    ensures
        r@ == resource_name_spec(path@),
        r@.len() > 0,
{
    let segment = last_segment_of(path);
    let n = segment.len();
    let mut out: Vec<u8> = Vec::new();
    let mut i: usize = 0;
    proof {
        assert(segment@.skip(0) =~= segment@);
    }
    while i < n
        invariant
            0 <= i <= n,
            n == segment@.len(),
            sanitized(segment@) == out@ + sanitized(segment@.skip(i as int)),
        decreases n - i,
    {
        let b0 = segment[i];
        let ws: usize = if (9u8 <= b0 && b0 <= 13u8) || b0 == 32u8 {
            1
        } else if n - i > 1 && b0 == 0xc2u8 && (segment[i + 1] == 0x85u8 || segment[i + 1]
            == 0xa0u8) {
            2
        } else if n - i > 2 && b0 == 0xe1u8 && segment[i + 1] == 0x9au8 && segment[i + 2]
            == 0x80u8 {
            3
        } else if n - i > 2 && b0 == 0xe2u8 && segment[i + 1] == 0x80u8 && ((0x80u8 <= segment[i
            + 2] && segment[i + 2] <= 0x8au8) || segment[i + 2] == 0xa8u8 || segment[i + 2]
            == 0xa9u8 || segment[i + 2] == 0xafu8) {
            3
        } else if n - i > 2 && b0 == 0xe2u8 && segment[i + 1] == 0x81u8 && segment[i + 2]
            == 0x9fu8 {
            3
        } else if n - i > 2 && b0 == 0xe3u8 && segment[i + 1] == 0x80u8 && segment[i + 2]
            == 0x80u8 {
            3
        } else {
            0
        };
        proof {
            let rest = segment@.skip(i as int);
            assert(rest.len() == n - i);
            assert(rest[0] == segment@[i as int]);
            if i + 1 < n {
                assert(rest[1] == segment@[i + 1]);
            }
            if i + 2 < n {
                assert(rest[2] == segment@[i + 2]);
            }
            assert(whitespace_prefix_len(rest) == ws as int);
        }
        if ws == 0 {
            out.push(b0);
            proof {
                assert(segment@.skip(i as int).skip(1) =~= segment@.skip(i + 1));
            }
            i = i + 1;
        } else {
            out.push(95u8);
            proof {
                assert(segment@.skip(i as int).skip(ws as int) =~= segment@.skip(i + ws));
            }
            i = i + ws;
        }
    }
    proof {
        assert(segment@.skip(n as int) =~= Seq::<u8>::empty());
        assert(out@ + sanitized(Seq::<u8>::empty()) =~= out@);
        assert(last_segment(path@).len() > 0) by {
            let m = path@.len();
            assert(last_segment(path@) == last_segment(path@.subrange(0, m - 1)).push(
                path@[m - 1],
            ));
        }
        lemma_sanitized_nonempty(segment@);
    }
    out
}

/// The archive path for a directory: the directory's path with its
/// extension replaced by the archive suffix.
pub fn archive_path(dir_path: &Vec<u8>) -> (r: Vec<u8>)
    requires
        names_a_file(dir_path@),
    ensures
        r@ == archive_path_spec(dir_path@),
        names_a_file(r@),
{
    let n = dir_path.len();
    let mut start: usize = n;
    while start > 0 && dir_path[start - 1] != 47u8
        invariant
            0 <= start <= n,
            n == dir_path@.len(),
            forall|j: int| start <= j < n ==> !is_separator(dir_path@[j]),
        decreases start,
    {
        start = start - 1;
    }
    proof {
        lemma_last_segment_suffix(dir_path@, start as int);
        assert(start < n);
    }
    // Look for the last dot strictly after the segment's opening byte.
    let mut dot: usize = n;
    let mut k: usize = n;
    while k > start + 1
        invariant
            start + 1 <= k <= n || (k == n && start + 1 > n),
            start < n,
            n == dir_path@.len(),
            dot == n || (start < dot < n && dir_path@[dot as int] == 46u8),
            dot == n ==> forall|j: int| k <= j < n ==> dir_path@[j] != 46u8,
            dot < n ==> forall|j: int| dot < j < n ==> dir_path@[j] != 46u8,
            dot < n ==> k <= dot,
        decreases k,
    {
        k = k - 1;
        if dot == n && dir_path[k] == 46u8 {
            dot = k;
        }
    }
    let cut: usize = if dot == n {
        n
    } else {
        dot
    };
    proof {
        let name = last_segment(dir_path@);
        if dot == n {
            assert(forall|j: int| 1 <= j < name.len() ==> name[j] != 46u8);
            lemma_stem_whole(name);
            assert(dir_path@.subrange(0, start as int) + name =~= dir_path@.subrange(
                0,
                cut as int,
            ));
        } else {
            lemma_stem_at_dot(name, dot - start);
            assert(dir_path@.subrange(0, start as int) + name.subrange(0, dot - start)
                =~= dir_path@.subrange(0, cut as int));
        }
    }
    let mut out: Vec<u8> = Vec::new();
    let mut i: usize = 0;
    while i < cut
        invariant
            0 <= i <= cut <= n,
            n == dir_path@.len(),
            out@ == dir_path@.subrange(0, i as int),
        decreases cut - i,
    {
        out.push(dir_path[i]);
        assert(out@ =~= dir_path@.subrange(0, i + 1));
        i = i + 1;
    }
    out.push(46u8);
    out.push(116u8);
    out.push(97u8);
    out.push(114u8);
    out.push(46u8);
    out.push(103u8);
    out.push(122u8);
    proof {
        assert(out@ =~= dir_path@.subrange(0, cut as int) + archive_suffix());
        assert(out@ =~= archive_path_spec(dir_path@));
        // The result ends in the suffix's `z`, so its final segment is a
        // real file name, neither `.` nor `..`.
        assert(out@[out@.len() - 1] == 122u8);
        assert(last_segment(out@) == last_segment(out@.subrange(0, out@.len() - 1)).push(122u8));
        assert(last_segment(out@).last() == 122u8);
        assert(seq![46u8].len() == 1 && seq![46u8][0] == 46u8);
        assert(seq![46u8, 46u8].len() == 2 && seq![46u8, 46u8][1] == 46u8);
        assert(last_segment(out@) != seq![46u8]);
        assert(last_segment(out@) != seq![46u8, 46u8]);
    }
    out
}

/// Serving an archived directory serves it under the archive's own file
/// name: the directory name's stem, sanitized, followed by the archive
/// suffix.  The directory prefix plays no part in the name.
pub proof fn lemma_archive_resource_name(s: Seq<u8>)
    requires
        names_a_file(s),
    ensures
        resource_name_spec(archive_path_spec(s)) == sanitized(stem(last_segment(s)))
            + archive_suffix(),
{
    let name = last_segment(s);
    let start = s.len() - name.len();
    lemma_last_segment_position(s);
    lemma_last_segment_no_separator(s);
    lemma_stem_is_prefix(name);
    let prefix = s.subrange(0, start);
    let tail = stem(name) + archive_suffix();
    let whole = archive_path_spec(s);
    assert(whole == prefix + stem(name) + archive_suffix());
    assert(whole =~= prefix + tail);
    assert forall|j: int| prefix.len() <= j < whole.len() implies !is_separator(
        #[trigger] whole[j],
    ) by {
        assert(whole[j] == tail[j - prefix.len()]);
        if j - prefix.len() < stem(name).len() {
            assert(tail[j - prefix.len()] == name[j - prefix.len()]);
        }
    }
    if start > 0 {
        assert(is_separator(s[start - 1]));
        assert(is_separator(whole[start - 1]));
    }
    lemma_last_segment_suffix(whole, prefix.len() as int);
    assert(whole.subrange(prefix.len() as int, whole.len() as int) =~= tail);
    assert(archive_suffix()[0] == 46u8);
    lemma_sanitized_split(stem(name), archive_suffix());
    assert forall|i: int| 0 <= i < archive_suffix().len() implies (#[trigger] archive_suffix()[i]
        < 0xc2u8 && !(9u8 <= archive_suffix()[i] <= 13u8) && archive_suffix()[i] != 32u8) by {
        if i == 0 || i == 4 {
            assert(archive_suffix()[i] == 46u8);
        } else if i == 1 {
            assert(archive_suffix()[i] == 116u8);
        } else if i == 2 {
            assert(archive_suffix()[i] == 97u8);
        } else if i == 3 {
            assert(archive_suffix()[i] == 114u8);
        } else if i == 5 {
            assert(archive_suffix()[i] == 103u8);
        } else {
            assert(archive_suffix()[i] == 122u8);
        }
    }
    lemma_sanitized_plain(archive_suffix());
}

} // verus!
