//! The naming scheme that pairs a ciphertext with its key: paths are
//! byte strings, split into directory, file name, stem and extension,
//! and rebuilt into the sibling output paths.

use vstd::prelude::*;

verus! {

/// The path separator byte, '/'.
pub const SLASH: u8 = 47;

/// The extension separator byte, '.'.
pub const DOT: u8 = 46;

/// The index of the last occurrence of `c` in `s`, or -1 if `c` does
/// not occur.
pub open spec fn last_pos(s: Seq<u8>, c: u8) -> int
    decreases s.len(),
{
    if s.len() == 0 {
        -1
    } else if s[s.len() - 1] == c {
        s.len() - 1
    } else {
        last_pos(s.drop_last(), c)
    }
}

proof fn lemma_last_pos_found(s: Seq<u8>, c: u8, k: int)
    requires
        0 <= k < s.len(),
        s[k] == c,
        forall|j: int| k < j < s.len() ==> s[j] != c,
    ensures
        last_pos(s, c) == k,
    decreases s.len(),
{
    if k == s.len() - 1 {
    } else {
        assert(s.drop_last() =~= s.subrange(0, s.len() - 1));
        lemma_last_pos_found(s.drop_last(), c, k);
    }
}

proof fn lemma_last_pos_none(s: Seq<u8>, c: u8)
    requires
        forall|j: int| 0 <= j < s.len() ==> s[j] != c,
    ensures
        last_pos(s, c) == -1,
    decreases s.len(),
{
    if s.len() > 0 {
        assert(s.drop_last() =~= s.subrange(0, s.len() - 1));
        lemma_last_pos_none(s.drop_last(), c);
    }
}

/// The part of the path after the last '/', or the whole path when it
/// has no '/'.
pub open spec fn file_name_of(path: Seq<u8>) -> Seq<u8> {
    path.subrange(last_pos(path, SLASH) + 1, path.len() as int)
}

/// The parent directory: the part before the last '/'; the root when
/// the path starts at it; "." when the path has no '/' at all.
pub open spec fn dir_of(path: Seq<u8>) -> Seq<u8> {
    let i = last_pos(path, SLASH);
    if i == -1 {
        seq![DOT]
    } else if i == 0 {
        seq![SLASH]
    } else {
        path.subrange(0, i)
    }
}

/// The file name without its final extension. A '.' that opens the
/// name marks a hidden file, not an extension.
pub open spec fn stem_of(name: Seq<u8>) -> Seq<u8> {
    let j = last_pos(name, DOT);
    if j <= 0 {
        name
    } else {
        name.subrange(0, j)
    }
}

/// The file name's final extension, if it has one.
pub open spec fn ext_of(name: Seq<u8>) -> Option<Seq<u8>> {
    let j = last_pos(name, DOT);
    if j <= 0 {
        None
    } else {
        Some(name.subrange(j + 1, name.len() as int))
    }
}

/// ".cef" in bytes: the suffix of a generated key file.
pub open spec fn cef_suffix() -> Seq<u8> {
    seq![DOT, 99u8, 101u8, 102u8]
}

/// ".csd" in bytes: the suffix of a ciphertext file.
pub open spec fn csd_suffix() -> Seq<u8> {
    seq![DOT, 99u8, 115u8, 100u8]
}

/// ".part" in bytes: the suffix of the temporary file a decrypt writes
/// before it commits.
pub open spec fn part_suffix() -> Seq<u8> {
    seq![DOT, 112u8, 97u8, 114u8, 116u8]
}

/// Where a key derived from `path` is written: `{dir}/{stem}.cef`.
pub open spec fn key_path_of(path: Seq<u8>) -> Seq<u8> {
    dir_of(path) + seq![SLASH] + stem_of(file_name_of(path)) + cef_suffix()
}

/// Where a ciphertext derived from `path` is written:
/// `{dir}/{stem}.{ext}.csd`. Meaningful only when the file name has an
/// extension; the operations that build it establish that first.
pub open spec fn cipher_path_of(path: Seq<u8>) -> Seq<u8> {
    match ext_of(file_name_of(path)) {
        Some(e) => dir_of(path) + seq![SLASH] + stem_of(file_name_of(path)) + seq![DOT] + e
            + csd_suffix(),
        None => Seq::empty(),
    }
}

/// Where a decrypt writes the recovered plaintext: `{dir}/{stem}` with
/// the ciphertext's two extensions (the original one and ".csd")
/// dropped entirely.
pub open spec fn plain_path_of(path: Seq<u8>) -> Seq<u8> {
    dir_of(path) + seq![SLASH] + stem_of(stem_of(file_name_of(path)))
}

/// The temporary sibling the recovered plaintext is staged at before
/// the sources are purged.
pub open spec fn tmp_path_of(path: Seq<u8>) -> Seq<u8> {
    plain_path_of(path) + part_suffix()
}

/// The view of an optional byte string.
pub open spec fn opt_view(o: Option<Vec<u8>>) -> Option<Seq<u8>> {
    match o {
        Some(v) => Some(v@),
        None => None,
    }
}

/// A path split into the pieces the output builders use.
pub struct PathParts {
    pub dir: Vec<u8>,
    pub name: Vec<u8>,
    pub stem: Vec<u8>,
    pub ext: Option<Vec<u8>>,
}

fn rfind(v: &Vec<u8>, c: u8) -> (r: Option<usize>)
    ensures
        match r {
            Some(i) => i < v@.len() && last_pos(v@, c) == i,
            None => last_pos(v@, c) == -1,
        },
{
    let mut i: usize = v.len();
    while i > 0
        invariant
            i <= v@.len(),
            forall|j: int| i <= j < v@.len() ==> v@[j] != c,
        decreases i,
    {
        i = i - 1;
        if v[i] == c {
            proof {
                lemma_last_pos_found(v@, c, i as int);
            }
            return Some(i);
        }
    }
    proof {
        lemma_last_pos_none(v@, c);
    }
    None
}

/// A fresh copy of `v[a..b]`.
pub fn copy_range(v: &Vec<u8>, a: usize, b: usize) -> (r: Vec<u8>)
    requires
        a <= b <= v@.len(),
    ensures
        r@ == v@.subrange(a as int, b as int),
{
    let mut out: Vec<u8> = Vec::new();
    let mut i: usize = a;
    while i < b
        invariant
            a <= i <= b <= v@.len(),
            out@.len() == i - a,
            forall|j: int| 0 <= j < out@.len() ==> out@[j] == v@[a + j],
        decreases b - i,
    {
        out.push(v[i]);
        i = i + 1;
    }
    proof {
        assert(out@ =~= v@.subrange(a as int, b as int));
    }
    out
}

/// A fresh copy of `v`.
pub fn copy_bytes(v: &Vec<u8>) -> (r: Vec<u8>)
    ensures
        r@ == v@,
{
    let r = copy_range(v, 0, v.len());
    proof {
        assert(v@.subrange(0, v@.len() as int) =~= v@);
    }
    r
}

/// Appends a copy of `src` to `dst`.
pub fn push_all(dst: &mut Vec<u8>, src: &Vec<u8>)
    ensures
        final(dst)@ == old(dst)@ + src@,
{
    let mut i: usize = 0;
    while i < src.len()
        invariant
            i <= src@.len(),
            dst@.len() == old(dst)@.len() + i,
            forall|j: int| 0 <= j < old(dst)@.len() ==> dst@[j] == old(dst)@[j],
            forall|j: int| 0 <= j < i ==> dst@[old(dst)@.len() + j] == src@[j],
        decreases src@.len() - i,
    {
        dst.push(src[i]);
        i = i + 1;
    }
    proof {
        assert(dst@ =~= old(dst)@ + src@);
    }
}

/// Splits a path into directory, file name, stem and extension, as the
/// naming scheme defines them.
pub fn split_path(path: &Vec<u8>) -> (r: PathParts)
    ensures
        r.dir@ == dir_of(path@),
        r.name@ == file_name_of(path@),
        r.stem@ == stem_of(file_name_of(path@)),
        opt_view(r.ext) == ext_of(file_name_of(path@)),
{
    let name: Vec<u8>;
    let dir: Vec<u8>;
    match rfind(path, SLASH) {
        Some(i) => {
            let n = path.len();
            assert(i < n);
            name = copy_range(path, i + 1, n);
            if i == 0 {
                let mut d: Vec<u8> = Vec::new();
                d.push(SLASH);
                proof {
                    assert(d@ =~= seq![SLASH]);
                }
                dir = d;
            } else {
                dir = copy_range(path, 0, i);
            }
        }
        None => {
            name = copy_range(path, 0, path.len());
            let mut d: Vec<u8> = Vec::new();
            d.push(DOT);
            proof {
                assert(d@ =~= seq![DOT]);
            }
            dir = d;
        }
    }
    let stem: Vec<u8>;
    let ext: Option<Vec<u8>>;
    match rfind(&name, DOT) {
        Some(j) => {
            if j > 0 {
                stem = copy_range(&name, 0, j);
                ext = Some(copy_range(&name, j + 1, name.len()));
            } else {
                stem = copy_range(&name, 0, name.len());
                ext = None;
            }
        }
        None => {
            stem = copy_range(&name, 0, name.len());
            ext = None;
        }
    }
    proof {
        assert(name@.subrange(0, name@.len() as int) =~= name@);
    }
    PathParts { dir, name, stem, ext }
}

fn push_cef(dst: &mut Vec<u8>)
    ensures
        final(dst)@ == old(dst)@ + cef_suffix(),
{
    dst.push(DOT);
    dst.push(99);
    dst.push(101);
    dst.push(102);
    proof {
        assert(dst@ =~= old(dst)@ + cef_suffix());
    }
}

fn push_csd(dst: &mut Vec<u8>)
    ensures
        final(dst)@ == old(dst)@ + csd_suffix(),
{
    dst.push(DOT);
    dst.push(99);
    dst.push(115);
    dst.push(100);
    proof {
        assert(dst@ =~= old(dst)@ + csd_suffix());
    }
}

fn push_part(dst: &mut Vec<u8>)
    ensures
        final(dst)@ == old(dst)@ + part_suffix(),
{
    dst.push(DOT);
    dst.push(112);
    dst.push(97);
    dst.push(114);
    dst.push(116);
    proof {
        assert(dst@ =~= old(dst)@ + part_suffix());
    }
}

/// `{dir}/{stem}.cef`: where the key derived from `path` goes.
pub fn key_output_path(path: &Vec<u8>) -> (r: Vec<u8>)
    ensures
        r@ == key_path_of(path@),
{
    let parts = split_path(path);
    let mut out = parts.dir;
    out.push(SLASH);
    push_all(&mut out, &parts.stem);
    push_cef(&mut out);
    proof {
        assert(out@ =~= key_path_of(path@));
    }
    out
}

/// `{dir}/{stem}.{ext}.csd`: where the ciphertext derived from `path`
/// goes. The file name must carry an extension.
pub fn cipher_output_path(path: &Vec<u8>) -> (r: Vec<u8>)
    requires
        ext_of(file_name_of(path@)) is Some,
    ensures
        r@ == cipher_path_of(path@),
{
    let parts = split_path(path);
    let mut out = parts.dir;
    out.push(SLASH);
    push_all(&mut out, &parts.stem);
    out.push(DOT);
    match &parts.ext {
        Some(e) => {
            push_all(&mut out, e);
        }
        None => {
            proof {
                assert(false);
            }
        }
    }
    push_csd(&mut out);
    proof {
        assert(out@ =~= cipher_path_of(path@));
    }
    out
}

/// `{dir}/{stem}` with both extensions dropped: where a decrypt puts
/// the recovered plaintext.
pub fn plain_output_path(path: &Vec<u8>) -> (r: Vec<u8>)
    ensures
        r@ == plain_path_of(path@),
{
    let parts = split_path(path);
    let mut out = parts.dir;
    out.push(SLASH);
    let inner = split_stem(&parts.stem);
    push_all(&mut out, &inner);
    proof {
        assert(out@ =~= plain_path_of(path@));
    }
    out
}

/// The staging name beside the decrypt output: `{dir}/{stem}.part`.
pub fn tmp_output_path(path: &Vec<u8>) -> (r: Vec<u8>)
    ensures
        r@ == tmp_path_of(path@),
{
    let mut out = plain_output_path(path);
    push_part(&mut out);
    out
}

/// The stem of a bare file name (no directory part).
fn split_stem(name: &Vec<u8>) -> (r: Vec<u8>)
    ensures
        r@ == stem_of(name@),
{
    match rfind(name, DOT) {
        Some(j) => {
            if j > 0 {
                copy_range(name, 0, j)
            } else {
                let r = copy_range(name, 0, name.len());
                proof {
                    assert(name@.subrange(0, name@.len() as int) =~= name@);
                }
                r
            }
        }
        None => {
            let r = copy_range(name, 0, name.len());
            proof {
                assert(name@.subrange(0, name@.len() as int) =~= name@);
            }
            r
        }
    }
}

} // verus!
