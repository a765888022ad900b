//! A file store rooted at a local directory: how store paths map to file
//! system paths and back, how directory listings are ordered, and how I/O
//! failures are reported.
use vstd::prelude::*;
use crate::error::{AppError, ErrorCode};
use crate::i18n::{text_less, text_lt, lemma_text_lt_total, lemma_text_lt_trans, lemma_text_lt_irrefl};
use crate::text::{chars_of, string_from_chars};

verus! {

broadcast use vstd::seq_lib::group_to_multiset_ensures;

/// What `Path::strip_prefix` followed by `to_string_lossy` gives for `full`
/// and `root`: the rest of `full` after the components of `root`, or `None`
/// when `root` is not a component-wise prefix of `full`.
pub uninterp spec fn stripped_path(full: Seq<char>, root: Seq<char>) -> Option<Seq<char>>;

/// `PathBuf::join` on a Unix target: an absolute `path` replaces `root`;
/// otherwise `path` is appended, with a `/` between unless `root` is empty
/// or already ends with one.
pub open spec fn spec_join(root: Seq<char>, path: Seq<char>) -> Seq<char> {
    if path.len() > 0 && path[0] == '/' {
        path
    } else if root.len() == 0 || root.last() == '/' {
        root + path
    } else {
        root + seq!['/'] + path
    }
}

/// Calls `Path::join` and converts the result to text. The standard
/// library documents the joining rule that `spec_join` states for Unix
/// paths; the conversion keeps valid UTF-8 text as it is.
#[verifier::external_body]
fn path_join(root: &str, path: &str) -> (r: String)
    ensures
        r@ == spec_join(root@, path@),
{
    std::path::Path::new(root).join(path).to_string_lossy().into_owned()
}

/// The segment list after one more segment is read: empty segments and
/// `.` are skipped, `..` drops the last kept segment (and does nothing when
/// none is kept), any other segment is kept.
pub open spec fn segment_step(kept: Seq<Seq<char>>, seg: Seq<char>) -> Seq<Seq<char>> {
    if seg.len() == 0 || seg == seq!['.'] {
        kept
    } else if seg == seq!['.', '.'] {
        if kept.len() > 0 { kept.drop_last() } else { kept }
    } else {
        kept.push(seg)
    }
}

/// Reads `s` from the left: the segments kept so far and the segment being
/// read (the text since the last `/`).
pub open spec fn scan_segments(s: Seq<char>) -> (Seq<Seq<char>>, Seq<char>)
    decreases s.len(),
{
    if s.len() == 0 {
        (Seq::empty(), Seq::empty())
    } else {
        let (kept, cur) = scan_segments(s.drop_last());
        if s.last() == '/' {
            (segment_step(kept, cur), Seq::empty())
        } else {
            (kept, cur.push(s.last()))
        }
    }
}

/// The segments of a store path once `.`, `..` and empty segments are
/// resolved.
pub open spec fn normal_segments(s: Seq<char>) -> Seq<Seq<char>> {
    segment_step(scan_segments(s).0, scan_segments(s).1)
}

/// Segments joined with `/` between them.
pub open spec fn join_segments(segs: Seq<Seq<char>>) -> Seq<char>
    decreases segs.len(),
{
    if segs.len() == 0 {
        Seq::empty()
    } else if segs.len() == 1 {
        segs[0]
    } else {
        join_segments(segs.drop_last()) + seq!['/'] + segs.last()
    }
}

/// The file system path of store path `path` in a store rooted at `root`.
pub open spec fn spec_resolve(root: Seq<char>, path: Seq<char>) -> Seq<char> {
    spec_join(root, join_segments(normal_segments(path)))
}

/// A segment that names an entry of its directory: not empty, not `.` or
/// `..`, and without `/`.
pub open spec fn plain_segment(seg: Seq<char>) -> bool {
    &&& seg.len() > 0
    &&& seg != seq!['.']
    &&& seg != seq!['.', '.']
    &&& !seg.contains('/')
}

/// The separator that `spec_join` puts after `root`.
pub open spec fn root_separator(root: Seq<char>) -> Seq<char> {
    if root.len() == 0 || root.last() == '/' { Seq::empty() } else { seq!['/'] }
}

proof fn lemma_scan_plain(s: Seq<char>)
    ensures
        forall|k: int| 0 <= k < scan_segments(s).0.len() ==> plain_segment(#[trigger] scan_segments(s).0[k]),
        !scan_segments(s).1.contains('/'),
    decreases s.len(),
{
    if s.len() > 0 {
        lemma_scan_plain(s.drop_last());
        let (kept, cur) = scan_segments(s.drop_last());
        if s.last() == '/' {
            let next = segment_step(kept, cur);
            assert forall|k: int| 0 <= k < next.len() implies plain_segment(#[trigger] next[k]) by {
                if cur.len() == 0 || cur == seq!['.'] {
                } else if cur == seq!['.', '.'] {
                    if kept.len() > 0 {
                        assert(next[k] == kept[k]);
                    }
                } else if k < kept.len() {
                    assert(next[k] == kept[k]);
                }
            }
            assert(!Seq::<char>::empty().contains('/'));
        } else {
            let next = cur.push(s.last());
            assert forall|j: int| 0 <= j < next.len() implies next[j] != '/' by {
                if j < cur.len() {
                    assert(next[j] == cur[j]);
                    assert(!cur.contains('/'));
                }
            }
        }
    }
}

proof fn lemma_join_first(segs: Seq<Seq<char>>)
    requires
        segs.len() > 0,
        forall|k: int| 0 <= k < segs.len() ==> plain_segment(#[trigger] segs[k]),
    ensures
        join_segments(segs).len() > 0,
        join_segments(segs)[0] == segs[0][0],
    decreases segs.len(),
{
    assert(plain_segment(segs[0]));
    if segs.len() > 1 {
        let init = segs.drop_last();
        assert forall|k: int| 0 <= k < init.len() implies plain_segment(#[trigger] init[k]) by {
            assert(init[k] == segs[k]);
        }
        lemma_join_first(init);
        assert(init[0] == segs[0]);
    }
}

/// Resolving a store path never leaves the root: the result is the root, a
/// separator where the root does not end in one, and then segments that
/// each name an entry of their directory (no `..`, `.` or empty segment),
/// so an absolute store path or one with `..` stays below the root.
pub proof fn lemma_resolve_below_root(root: Seq<char>, path: Seq<char>)
    ensures
        spec_resolve(root, path) == root + root_separator(root) + join_segments(normal_segments(path)),
        forall|k: int| 0 <= k < normal_segments(path).len() ==> plain_segment(#[trigger] normal_segments(path)[k]),
{
    lemma_scan_plain(path);
    let (kept, cur) = scan_segments(path);
    let segs = normal_segments(path);
    assert forall|k: int| 0 <= k < segs.len() implies plain_segment(#[trigger] segs[k]) by {
        if cur.len() == 0 || cur == seq!['.'] {
        } else if cur == seq!['.', '.'] {
            if kept.len() > 0 {
                assert(segs[k] == kept[k]);
            }
        } else if k < kept.len() {
            assert(segs[k] == kept[k]);
        }
    }
    let joined = join_segments(segs);
    if segs.len() > 0 {
        lemma_join_first(segs);
        assert(!segs[0].contains('/'));
        assert(segs[0][0] != '/') by {
            if segs[0][0] == '/' {
                assert(segs[0].contains('/'));
            }
        }
    } else {
        assert(joined =~= Seq::<char>::empty());
    }
    if root.len() == 0 || root.last() == '/' {
        assert(root + root_separator(root) + joined =~= root + joined);
    }
}

/// Segments held as character vectors, as sequences.
pub open spec fn seg_view(v: Seq<Vec<char>>) -> Seq<Seq<char>> {
    v.map_values(|x: Vec<char>| x@)
}

fn push_segment(kept: &mut Vec<Vec<char>>, seg: Vec<char>)
    ensures
        seg_view(final(kept)@) == segment_step(seg_view(old(kept)@), seg@),
{
    let n = seg.len();
    if n == 0 || (n == 1 && seg[0] == '.') {
        assert(n == 1 ==> seg@ =~= seq!['.']);
        return;
    }
    assert(n != 1 || seg@ != seq!['.']) by {
        if n == 1 && seg@ == seq!['.'] {
            assert(seg@[0] == '.');
        }
    }
    if n == 2 && seg[0] == '.' && seg[1] == '.' {
        assert(seg@ =~= seq!['.', '.']);
        if kept.len() > 0 {
            let ghost before = kept@;
            kept.pop();
            assert(seg_view(kept@) =~= seg_view(before).drop_last());
        }
        return;
    }
    assert(seg@ != seq!['.', '.']) by {
        if seg@ == seq!['.', '.'] {
            assert(seg@[0] == '.' && seg@[1] == '.');
        }
    }
    let ghost before = kept@;
    let ghost sv = seg@;
    kept.push(seg);
    assert(seg_view(kept@) =~= seg_view(before).push(sv));
}

/// The relative path that a store path names below the root: its normal
/// segments joined with `/`.
pub fn normalize_store_path(path: &str) -> (r: String)
    ensures
        r@ == join_segments(normal_segments(path@)),
{
    let cs = chars_of(path);
    let mut kept: Vec<Vec<char>> = Vec::new();
    let mut cur: Vec<char> = Vec::new();
    let mut i: usize = 0;
    assert(cs@.subrange(0, 0) =~= Seq::<char>::empty());
    assert(seg_view(kept@) =~= Seq::<Seq<char>>::empty());
    while i < cs.len()
        invariant
            i <= cs@.len(),
            cs@ == path@,
            (seg_view(kept@), cur@) == scan_segments(cs@.subrange(0, i as int)),
        decreases cs@.len() - i,
    {
        let c = cs[i];
        assert(cs@.subrange(0, i as int + 1).drop_last() =~= cs@.subrange(0, i as int));
        if c == '/' {
            let seg = cur;
            cur = Vec::new();
            push_segment(&mut kept, seg);
        } else {
            cur.push(c);
        }
        i = i + 1;
    }
    assert(cs@.subrange(0, cs@.len() as int) =~= path@);
    push_segment(&mut kept, cur);
    let ghost all = seg_view(kept@);
    let mut out: Vec<char> = Vec::new();
    let mut taken: usize = 0;
    let total = kept.len();
    assert(all.len() == total);
    assert(all.subrange(0, 0) =~= Seq::<Seq<char>>::empty());
    assert(seg_view(kept@) =~= all.subrange(0, all.len() as int));
    while kept.len() > 0
        invariant
            taken <= all.len(),
            all.len() <= usize::MAX,
            seg_view(kept@) == all.subrange(taken as int, all.len() as int),
            out@ == join_segments(all.subrange(0, taken as int)),
        decreases kept@.len(),
    {
        let ghost kv = kept@;
        assert(seg_view(kv).len() == kv.len());
        assert(seg_view(kv)[0] == kv[0]@);
        assert(all.subrange(taken as int, all.len() as int)[0] == all[taken as int]);
        let mut seg = kept.remove(0);
        assert(seg@ == all[taken as int]);
        assert(all.subrange(0, taken + 1).drop_last() =~= all.subrange(0, taken as int));
        if taken > 0 {
            out.push('/');
        }
        let ghost before = out@;
        out.append(&mut seg);
        assert(seg_view(kept@) =~= seg_view(kv).subrange(1, kv.len() as int));
        if taken == 0 {
            assert(before =~= Seq::<char>::empty());
            assert(out@ =~= all[0]);
        }
        taken = taken + 1;
        assert(seg_view(kept@) =~= all.subrange(taken as int, all.len() as int));
    }
    assert(all.subrange(0, all.len() as int) =~= all);
    string_from_chars(out.as_slice())
}

/// The error of `Path::strip_prefix`, carried through opaquely.
#[verifier::external_type_specification]
#[verifier::external_body]
pub struct ExStripPrefixError(std::path::StripPrefixError);

/// Calls `Path::strip_prefix` and converts the rest to text.
#[verifier::external_body]
fn path_strip_prefix(full: &str, root: &str) -> (r: Result<String, std::path::StripPrefixError>)
    ensures
        match r {
            Ok(s) => stripped_path(full@, root@) == Some(s@),
            Err(_) => stripped_path(full@, root@) is None,
        },
{
    match std::path::Path::new(full).strip_prefix(root) {
        Ok(rest) => Ok(rest.to_string_lossy().into_owned()),
        Err(e) => Err(e),
    }
}

/// `s` with every `\` turned into `/`.
pub open spec fn forward_slashes(s: Seq<char>) -> Seq<char> {
    s.map_values(|c: char| if c == '\\' { '/' } else { c })
}

fn to_forward_slashes(s: &str) -> (r: String)
    ensures
        r@ == forward_slashes(s@),
{
    let cs = chars_of(s);
    let mut out: Vec<char> = Vec::new();
    let mut i: usize = 0;
    while i < cs.len()
        invariant
            i <= cs@.len(),
            cs@ == s@,
            out@ == forward_slashes(s@.subrange(0, i as int)),
        decreases cs@.len() - i,
    {
        let c = cs[i];
        out.push(if c == '\\' { '/' } else { c });
        assert(forward_slashes(s@.subrange(0, i as int + 1)) =~= forward_slashes(s@.subrange(0, i as int)).push(
            if c == '\\' { '/' } else { c },
        ));
        i = i + 1;
    }
    assert(s@.subrange(0, s@.len() as int) =~= s@);
    string_from_chars(out.as_slice())
}

/// A path below the root as the store names it: the part after the root
/// (the whole path when it is not below the root), with forward slashes.
pub open spec fn spec_relative(root: Seq<char>, full: Seq<char>) -> Seq<char> {
    forward_slashes(match stripped_path(full, root) {
        Some(rest) => rest,
        None => full,
    })
}

pub fn make_relative(root: &str, full: &str) -> (r: String)
    ensures
        r@ == spec_relative(root@, full@),
{
    match path_strip_prefix(full, root) {
        Ok(rest) => to_forward_slashes(rest.as_str()),
        Err(_) => to_forward_slashes(full),
    }
}

/// What a store knows of a file.
#[derive(Debug)]
pub struct FileInfo {
    pub path: String,
    pub size: u64,
    pub last_modified: Option<u64>,
    pub content_type: Option<String>,
    pub is_dir: bool,
}

/// How a file system call ended.
#[derive(Debug, Clone, Copy, PartialEq, Eq, Structural)]
pub enum IoOutcome {
    Done,
    NotFound,
    Failed,
}

/// A file store rooted at a directory.
pub struct LocalFileStore {
    root: String,
}

impl LocalFileStore {
    pub closed spec fn root(&self) -> Seq<char> {
        self.root@
    }

    pub fn new(root_dir: &str) -> (s: LocalFileStore)
        ensures
            s.root() == root_dir@,
    {
        LocalFileStore { root: root_dir.to_string() }
    }

    pub fn root_dir(&self) -> (r: &str)
        ensures
            r@ == self.root(),
    {
        self.root.as_str()
    }

    pub fn store_name(&self) -> (n: &'static str)
        ensures
            n@ == "local"@,
    {
        "local"
    }

    /// The file system path of a store path. Every store path is taken
    /// relative to the root: its segments are read as `normal_segments`
    /// reads them (a leading `/` names no segment, `..` never climbs above
    /// the root) and joined below the root.
    pub fn resolve(&self, path: &str) -> (r: String)
        ensures
            r@ == spec_resolve(self.root(), path@),
    {
        let rel = normalize_store_path(path);
        path_join(self.root.as_str(), rel.as_str())
    }

    /// The answer of a `put` from how creating the parent directories and
    /// writing ended.
    pub fn put_result(&self, dirs: IoOutcome, write: IoOutcome) -> (r: Result<(), AppError>)
        ensures
            r is Ok <==> (dirs == IoOutcome::Done && write == IoOutcome::Done),
            r matches Err(e) ==> e.code == ErrorCode::FileWriteFailed,
    {
        if dirs != IoOutcome::Done {
            return Err(AppError::from_static(ErrorCode::FileWriteFailed, "failed to create directory"));
        }
        if write != IoOutcome::Done {
            return Err(AppError::from_static(ErrorCode::FileWriteFailed, "failed to write file"));
        }
        Ok(())
    }

    /// The answer of a `get` from how reading ended.
    pub fn get_result(&self, read: Result<Vec<u8>, IoOutcome>) -> (r: Result<Vec<u8>, AppError>)
        ensures
            match read {
                Ok(d) => r == Ok::<Vec<u8>, AppError>(d),
                Err(IoOutcome::NotFound) => r matches Err(e) && e.code == ErrorCode::FileNotFound,
                Err(_) => r matches Err(e) && e.code == ErrorCode::FileReadFailed,
            },
    {
        match read {
            Ok(d) => Ok(d),
            Err(IoOutcome::NotFound) => Err(AppError::from_static(ErrorCode::FileNotFound, "file not found")),
            Err(_) => Err(AppError::from_static(ErrorCode::FileReadFailed, "failed to read file")),
        }
    }

    /// The answer of a `delete`: whether a file was removed; a missing file
    /// is no error.
    pub fn delete_result(&self, remove: IoOutcome) -> (r: Result<bool, AppError>)
        ensures
            match remove {
                IoOutcome::Done => r == Ok::<bool, AppError>(true),
                IoOutcome::NotFound => r == Ok::<bool, AppError>(false),
                IoOutcome::Failed => r matches Err(e) && e.code == ErrorCode::FileDeleteFailed,
            },
    {
        match remove {
            IoOutcome::Done => Ok(true),
            IoOutcome::NotFound => Ok(false),
            IoOutcome::Failed => Err(AppError::from_static(ErrorCode::FileDeleteFailed, "failed to delete file")),
        }
    }

    /// The answer of a `metadata` call from what the file system reported.
    pub fn metadata_result(&self, path: &str, meta: Result<(u64, Option<u64>, bool), IoOutcome>) -> (r: Result<FileInfo, AppError>)
        ensures
            match meta {
                Ok((size, modified, is_dir)) => r matches Ok(info) && info.path@ == path@ && info.size == size
                    && info.last_modified == modified && info.is_dir == is_dir && info.content_type is None,
                Err(IoOutcome::NotFound) => r matches Err(e) && e.code == ErrorCode::FileNotFound,
                Err(_) => r matches Err(e) && e.code == ErrorCode::FileReadFailed,
            },
    {
        match meta {
            Ok((size, modified, is_dir)) => Ok(FileInfo {
                path: path.to_string(),
                size,
                last_modified: modified,
                content_type: None,
                is_dir,
            }),
            Err(IoOutcome::NotFound) => Err(AppError::from_static(ErrorCode::FileNotFound, "file not found")),
            Err(_) => Err(AppError::from_static(ErrorCode::FileReadFailed, "failed to read metadata")),
        }
    }

    /// A directory listing from its raw entries (full path, size,
    /// modification time, whether a directory): paths made relative to the
    /// root, sorted by path.
    pub fn listing(&self, raw: Vec<(String, u64, Option<u64>, bool)>) -> (r: Vec<FileInfo>)
        ensures
            sorted_by_path(r@),
            no_content_types(r@),
            r@.map_values(|i: FileInfo| info_key(i)).to_multiset()
                == raw@.map_values(|e: (String, u64, Option<u64>, bool)| (spec_relative(self.root(), e.0@), e.1, e.2, e.3)).to_multiset(),
    {
        let mut infos: Vec<FileInfo> = Vec::new();
        let mut i: usize = 0;
        let ghost target = raw@.map_values(|e: (String, u64, Option<u64>, bool)| (spec_relative(self.root(), e.0@), e.1, e.2, e.3));
        while i < raw.len()
            invariant
                i <= raw@.len(),
                target == raw@.map_values(|e: (String, u64, Option<u64>, bool)| (spec_relative(self.root(), e.0@), e.1, e.2, e.3)),
                infos@.len() == i,
                forall|j: int| 0 <= j < i ==> info_key(#[trigger] infos@[j]) == target[j],
                forall|j: int| 0 <= j < i ==> (#[trigger] infos@[j]).content_type is None,
            decreases raw@.len() - i,
        {
            let e = &raw[i];
            infos.push(FileInfo {
                path: make_relative(self.root.as_str(), e.0.as_str()),
                size: e.1,
                last_modified: e.2,
                content_type: None,
                is_dir: e.3,
            });
            i = i + 1;
        }
        assert(infos@.map_values(|i: FileInfo| info_key(i)) =~= target);
        sort_by_path(infos)
    }
}

/// The fields of a listing entry, as plain data.
pub open spec fn info_key(i: FileInfo) -> (Seq<char>, u64, Option<u64>, bool) {
    (i.path@, i.size, i.last_modified, i.is_dir)
}

/// Whether no entry carries a content type.
pub open spec fn no_content_types(s: Seq<FileInfo>) -> bool {
    forall|k: int| 0 <= k < s.len() ==> (#[trigger] s[k]).content_type is None
}

/// Whether entries are in ascending path order.
pub open spec fn sorted_by_path(s: Seq<FileInfo>) -> bool {
    forall|i: int, j: int| 0 <= i < j < s.len() ==> !text_lt(s[j].path@, s[i].path@)
}

/// Sorts entries by path (stable insertion sort).
pub fn sort_by_path(v: Vec<FileInfo>) -> (r: Vec<FileInfo>)
    ensures
        sorted_by_path(r@),
        r@.map_values(|i: FileInfo| info_key(i)).to_multiset() == v@.map_values(|i: FileInfo| info_key(i)).to_multiset(),
        no_content_types(v@) ==> no_content_types(r@),
{
    let mut out: Vec<FileInfo> = Vec::new();
    let mut rest = v;
    let ghost all = rest@;
    let ghost mut taken: int = 0;
    assert(out@.map_values(|i: FileInfo| info_key(i)) =~= Seq::<(Seq<char>, u64, Option<u64>, bool)>::empty());
    assert(all.subrange(0, 0).map_values(|i: FileInfo| info_key(i)) =~= Seq::<(Seq<char>, u64, Option<u64>, bool)>::empty());
    while rest.len() > 0
        invariant
            0 <= taken <= all.len(),
            rest@ == all.subrange(taken, all.len() as int),
            sorted_by_path(out@),
            no_content_types(all) ==> no_content_types(out@),
            out@.map_values(|i: FileInfo| info_key(i)).to_multiset()
                == all.subrange(0, taken).map_values(|i: FileInfo| info_key(i)).to_multiset(),
        decreases rest@.len(),
    {
        let x = rest.remove(0);
        assert(x == all[taken]);
        let mut pos: usize = 0;
        while pos < out.len() && !text_less(&x.path, &out[pos].path)
            invariant
                pos <= out@.len(),
                forall|k: int| 0 <= k < pos ==> !text_lt(x.path@, out@[k].path@),
            decreases out@.len() - pos,
        {
            pos = pos + 1;
        }
        let ghost before = out@;
        proof {
            assert forall|k: int| pos <= k < before.len() implies text_lt(x.path@, before[k].path@) by {
                assert(text_lt(x.path@, before[pos as int].path@));
                if k > pos {
                    if text_lt(before[k].path@, x.path@) {
                        lemma_text_lt_trans(before[k].path@, x.path@, before[pos as int].path@);
                        assert(!text_lt(before[k].path@, before[pos as int].path@));
                    }
                    if before[k].path@ == x.path@ {
                        lemma_text_lt_irrefl(x.path@);
                        assert(!text_lt(before[k].path@, before[pos as int].path@));
                    }
                    lemma_text_lt_total(x.path@, before[k].path@);
                }
            }
        }
        let ghost xk = info_key(x);
        out.insert(pos, x);
        proof {
            let nv = out@;
            if no_content_types(all) {
                assert forall|k: int| 0 <= k < nv.len() implies (#[trigger] nv[k]).content_type is None by {
                    if k < pos {
                        assert(nv[k] == before[k]);
                    } else if k > pos {
                        assert(nv[k] == before[k - 1]);
                    }
                }
            }
            assert forall|i: int, j: int| 0 <= i < j < nv.len() implies !text_lt(nv[j].path@, nv[i].path@) by {
                if i < pos && j == pos {
                } else if i < pos && j > pos {
                    assert(nv[j] == before[j - 1]);
                } else if i == pos {
                    assert(nv[j] == before[j - 1]);
                    assert(text_lt(x.path@, before[j - 1].path@));
                    if text_lt(before[j - 1].path@, x.path@) {
                        lemma_text_lt_trans(x.path@, before[j - 1].path@, x.path@);
                        lemma_text_lt_irrefl(x.path@);
                    }
                } else if i > pos {
                    assert(nv[i] == before[i - 1]);
                    assert(nv[j] == before[j - 1]);
                }
            }
            let mapped_before = before.map_values(|i: FileInfo| info_key(i));
            assert(nv.map_values(|i: FileInfo| info_key(i)) =~= mapped_before.insert(pos as int, xk));
            vstd::seq_lib::to_multiset_insert(mapped_before, pos as int, xk);
            let prefix = all.subrange(0, taken + 1).map_values(|i: FileInfo| info_key(i));
            assert(prefix =~= all.subrange(0, taken).map_values(|i: FileInfo| info_key(i)).push(xk));
            vstd::seq_lib::to_multiset_build(all.subrange(0, taken).map_values(|i: FileInfo| info_key(i)), xk);
            taken = taken + 1;
        }
        assert(rest@ =~= all.subrange(taken, all.len() as int));
    }
    assert(all.subrange(0, all.len() as int) =~= all);
    out
}

} // verus!
