//! NVIDIA recording manager: which folders to scan, which files count as
//! recordings, how scan results are merged and ordered, and the small rules
//! around copying, deleting and thumbnails.
//!
//! Walking directories, the file dialogs and the shell thumbnail provider stay
//! with the caller, which hands the library what they returned.

use vstd::prelude::*;
use std::hash::{Hash, Hasher};
use crate::sorting::{stable_order, stable_order_by_key};
use crate::text::{
    append_str, append_vec, chars_of, contains_char, has_prefix, push_decimal, decimal,
    spec_to_lowercase, split_vec, split_when, str_to_lowercase, string_from_chars, strip_all_end,
    strip_all_end_vec, trim, trim_vec, vec_eq, views, SepKind,
};

verus! {

/// A folder that holds recordings.
pub struct RecordingFolder {
    pub path: String,
    pub name: String,
    /// Added by the user (the default locations are not).
    pub custom: bool,
    pub video_count: usize,
    pub total_size: u64,
}

/// One recording.
pub struct RecordingVideo {
    pub path: String,
    pub name: String,
    pub size: u64,
    /// Modification time, milliseconds since the epoch.
    pub modified_ms: u64,
    pub created_ms: u64,
    pub ext: String,
}

/// The result of a scan.
pub struct RecordingScanResult {
    /// By number of recordings, most first; among folders with as many, default
    /// locations first, then the user's folders in the order they were added.
    pub folders: Vec<RecordingFolder>,
    /// All recordings, newest first.
    pub videos: Vec<RecordingVideo>,
}

/// The result of deleting recordings.
pub struct NvidiaDeleteResult {
    pub deleted: Vec<String>,
    pub errors: Vec<(String, String)>,
}

/// The result of copying recordings.
pub struct NvidiaCopyResult {
    pub copied: Vec<String>,
    pub errors: Vec<(String, String)>,
    /// The user cancelled the choice of the target folder.
    pub cancelled: bool,
}

/// What walking one candidate folder found.
pub struct FolderScan {
    pub path: String,
    /// The folder's own name (its path when it has none).
    pub name: String,
    /// The recordings found, in walk order (at most [`MAX_VIDEOS_PER_FOLDER`]).
    pub videos: Vec<RecordingVideo>,
}

/// Recordings listed per folder at most.
pub const MAX_VIDEOS_PER_FOLDER: usize = 3000;
/// Depth to which folders are walked.
pub const MAX_DEPTH: usize = 5;
/// `settings.json` key of the user's folder list.
pub const SETTINGS_KEY: &'static str = "nexbox_nvidia_recording_folders";

// ───────────────────────── file names and paths ─────────────────────────

/// The recording extensions.
pub open spec fn video_exts() -> Seq<Seq<char>> {
    seq!["mp4"@, "mov"@, "avi"@, "mkv"@, "wmv"@, "flv"@, "webm"@, "m4v"@]
}

/// The lower-cased extension, if it is a recording extension.
pub open spec fn video_ext_spec(ext: Option<Seq<char>>) -> Option<Seq<char>> {
    match ext {
        Some(e) => if video_exts().contains(spec_to_lowercase(e)) {
            Some(spec_to_lowercase(e))
        } else {
            None
        },
        None => None,
    }
}

fn in_video_exts(e: &Vec<char>) -> (b: bool)
    ensures
        b == video_exts().contains(e@),
{
    let lits: [&str; 8] = ["mp4", "mov", "avi", "mkv", "wmv", "flv", "webm", "m4v"];
    let mut i: usize = 0;
    while i < 8
        invariant
            i <= 8,
            lits@.len() == 8,
            forall|k: int| 0 <= k < 8 ==> (#[trigger] lits@[k])@ == video_exts()[k],
            forall|k: int| 0 <= k < i ==> video_exts()[k] != e@,
        decreases 8 - i,
    {
        if vec_eq(e, &chars_of(lits[i])) {
            assert(video_exts()[i as int] == e@);
            return true;
        }
        i = i + 1;
    }
    assert(!video_exts().contains(e@));
    false
}

/// The recording extension of a file (lower-cased), `None` for other files.
pub fn is_video_ext(extension: Option<&str>) -> (r: Option<String>)
    ensures
        match r {
            Some(s) => video_ext_spec(match extension { Some(e) => Some(e@), None => None }) == Some(s@),
            None => video_ext_spec(match extension { Some(e) => Some(e@), None => None }) is None,
        },
{
    match extension {
        Some(e) => {
            let lower = str_to_lowercase(e);
            let c = chars_of(lower.as_str());
            if in_video_exts(&c) {
                Some(lower)
            } else {
                None
            }
        },
        None => None,
    }
}

/// `/` replaced by `\`.
pub open spec fn backslashed(p: Seq<char>) -> Seq<char> {
    Seq::new(p.len(), |i: int| if p[i] == '/' { '\\' } else { p[i] })
}

/// The form of a path used to compare folders: backslashes, no trailing
/// backslash, lower case.
pub open spec fn normalize_spec(p: Seq<char>) -> Seq<char> {
    spec_to_lowercase(strip_all_end(backslashed(p), '\\'))
}

fn normalize_chars(p: &Vec<char>) -> (r: Vec<char>)
    ensures
        r@ == normalize_spec(p@),
{
    let mut b: Vec<char> = Vec::new();
    let mut i: usize = 0;
    while i < p.len()
        invariant
            i <= p.len(),
            b@ == backslashed(p@.subrange(0, i as int)),
        decreases p.len() - i,
    {
        let c = if p[i] == '/' {
            '\\'
        } else {
            p[i]
        };
        b.push(c);
        i = i + 1;
        assert(b@ =~= backslashed(p@.subrange(0, i as int)));
    }
    assert(p@.subrange(0, p.len() as int) =~= p@);
    let t = strip_all_end_vec(&b, '\\');
    let s = string_from_chars(&t);
    let l = str_to_lowercase(s.as_str());
    chars_of(l.as_str())
}

/// Normalizes a path for duplicate detection.
pub fn normalize_path(path: &str) -> (r: String)
    ensures
        r@ == normalize_spec(path@),
{
    let c = chars_of(path);
    let n = normalize_chars(&c);
    string_from_chars(&n)
}

/// Hidden and system entries (`$…`, `.…`) are not walked.
pub fn is_hidden_path(file_name: Option<&str>) -> (b: bool)
    ensures
        b == match file_name {
            Some(n) => n@.len() > 0 && (n@[0] == '$' || n@[0] == '.'),
            None => false,
        },
{
    match file_name {
        Some(n) => {
            let c = chars_of(n);
            c.len() > 0 && (c[0] == '$' || c[0] == '.')
        },
        None => false,
    }
}

/// `\` and `/` separate path components.
pub open spec fn path_sep() -> spec_fn(char) -> bool {
    |c: char| c == '\\' || c == '/'
}

/// Non-empty pieces.
pub open spec fn non_empty() -> spec_fn(Seq<char>) -> bool {
    |s: Seq<char>| s.len() > 0
}

/// The number of non-empty components of a path (split on `\` and `/`).
pub open spec fn path_depth(p: Seq<char>) -> nat {
    split_when(p, path_sep()).filter(non_empty()).len()
}

fn path_depth_exec(p: &Vec<char>) -> (d: usize)
    ensures
        d as nat == path_depth(p@),
{
    let kind = SepKind::AnyOf(vec!['\\', '/']);
    let parts = split_vec(p, &kind);
    proof {
        assert forall|c: char| #[trigger] (kind.pred())(c) == (path_sep())(c) by {
            if let SepKind::AnyOf(v) = kind {
                if c == '\\' {
                    assert(v@[0] == c);
                }
                if c == '/' {
                    assert(v@[1] == c);
                }
            }
        }
        assert(kind.pred() =~= path_sep());
    }
    let ghost all = views(parts@);
    let ghost keep = non_empty();
    let mut n: usize = 0;
    let mut i: usize = 0;
    while i < parts.len()
        invariant
            i <= parts@.len(),
            all == views(parts@),
            keep == non_empty(),
            all == split_when(p@, path_sep()),
            n as nat == all.subrange(0, i as int).filter(keep).len(),
            n <= i,
        decreases parts.len() - i,
    {
        let ghost pre = all.subrange(0, i + 1);
        assert(pre.drop_last() =~= all.subrange(0, i as int));
        assert(pre.filter(keep) == if keep(pre.last()) {
            pre.drop_last().filter(keep).push(pre.last())
        } else {
            pre.drop_last().filter(keep)
        }) by {
            reveal_with_fuel(Seq::filter, 1);
        }
        if parts[i].len() > 0 {
            n = n + 1;
        }
        i = i + 1;
    }
    assert(all.subrange(0, all.len() as int) =~= all);
    n
}

// ───────────────────────── candidate folders ─────────────────────────

/// The items of `items` whose normalized form did not occur before them.
pub open spec fn first_of_each(items: Seq<Seq<char>>) -> Seq<Seq<char>>
    decreases items.len(),
{
    if items.len() == 0 {
        Seq::empty()
    } else {
        let prev = first_of_each(items.drop_last());
        if exists|j: int| 0 <= j < items.len() - 1 && normalize_spec(#[trigger] items[j]) == normalize_spec(items.last()) {
            prev
        } else {
            prev.push(items.last())
        }
    }
}

/// The sort key that puts deeper folders first.
pub open spec fn depth_keys(items: Seq<Seq<char>>) -> Seq<u128> {
    Seq::new(items.len(), |i: int| (usize::MAX - path_depth(items[i])) as u128)
}

/// The folders to scan: the default locations, then the user's folders, each
/// normalized path once (first occurrence kept), deeper folders first so that a
/// recording is credited to the deepest folder holding it.
pub open spec fn candidates_spec(defaults: Seq<Seq<char>>, customs: Seq<Seq<char>>) -> Seq<Seq<char>> {
    let d = first_of_each(defaults + customs);
    let order = stable_order(d.len(), depth_keys(d));
    Seq::new(order.len(), |i: int| d[order[i] as int])
}

/// The views of a sequence of strings.
pub open spec fn strings_view(v: Seq<String>) -> Seq<Seq<char>> {
    Seq::new(v.len(), |i: int| v[i]@)
}

proof fn lemma_strings_view_concat(a: Seq<String>, b: Seq<String>)
    ensures
        strings_view(a + b) == strings_view(a) + strings_view(b),
{
    assert(strings_view(a + b) =~= strings_view(a) + strings_view(b));
}

fn concat_strings(a: &Vec<String>, b: &Vec<String>) -> (r: Vec<String>)
    ensures
        r@ == a@ + b@,
{
    let mut r: Vec<String> = Vec::new();
    let mut i: usize = 0;
    while i < a.len()
        invariant
            i <= a@.len(),
            r@ == a@.subrange(0, i as int),
        decreases a.len() - i,
    {
        r.push(a[i].clone());
        i = i + 1;
        assert(r@ =~= a@.subrange(0, i as int));
    }
    let mut j: usize = 0;
    while j < b.len()
        invariant
            j <= b@.len(),
            i == a@.len(),
            r@ == a@.subrange(0, i as int) + b@.subrange(0, j as int),
        decreases b.len() - j,
    {
        r.push(b[j].clone());
        j = j + 1;
        assert(r@ =~= a@.subrange(0, i as int) + b@.subrange(0, j as int));
    }
    assert(a@.subrange(0, i as int) =~= a@);
    assert(b@.subrange(0, j as int) =~= b@);
    r
}

fn dedupe_first(all: &Vec<String>) -> (kept: Vec<String>)
    ensures
        strings_view(kept@) == first_of_each(strings_view(all@)),
{
    let ghost items = strings_view(all@);
    let mut norms: Vec<Vec<char>> = Vec::new();
    let mut kept: Vec<String> = Vec::new();
    let mut k: usize = 0;
    while k < all.len()
        invariant
            k <= all@.len(),
            items == strings_view(all@),
            norms@.len() == k,
            forall|m: int| 0 <= m < k ==> (#[trigger] norms@[m])@ == normalize_spec(items[m]),
            strings_view(kept@) == first_of_each(items.subrange(0, k as int)),
        decreases all.len() - k,
    {
        let c = chars_of(all[k].as_str());
        let n = normalize_chars(&c);
        assert(items[k as int] == all@[k as int]@);
        let mut dup = false;
        let mut m: usize = 0;
        while m < norms.len()
            invariant
                m <= norms@.len(),
                norms@.len() == k,
                k < items.len(),
                n@ == normalize_spec(items[k as int]),
                forall|q: int| 0 <= q < k ==> (#[trigger] norms@[q])@ == normalize_spec(items[q]),
                dup == exists|q: int| 0 <= q < m && normalize_spec(#[trigger] items[q]) == n@,
            decreases norms.len() - m,
        {
            if vec_eq(&norms[m], &n) {
                dup = true;
            }
            m = m + 1;
        }
        let ghost pre = items.subrange(0, k + 1);
        assert(pre.drop_last() =~= items.subrange(0, k as int));
        assert(pre.last() == items[k as int]);
        assert(dup == exists|q: int| 0 <= q < pre.len() - 1 && normalize_spec(#[trigger] pre[q]) == normalize_spec(pre.last())) by {
            if dup {
                let q = choose|q: int| 0 <= q < k && normalize_spec(#[trigger] items[q]) == n@;
                assert(pre[q] == items[q]);
            }
            if exists|q: int| 0 <= q < pre.len() - 1 && normalize_spec(#[trigger] pre[q]) == normalize_spec(pre.last()) {
                let q = choose|q: int| 0 <= q < pre.len() - 1 && normalize_spec(#[trigger] pre[q]) == normalize_spec(pre.last());
                assert(pre[q] == items[q]);
            }
        }
        let ghost old_kept = kept@;
        if !dup {
            kept.push(all[k].clone());
            assert(strings_view(kept@) =~= strings_view(old_kept).push(items[k as int]));
        }
        norms.push(n);
        assert(strings_view(kept@) =~= first_of_each(pre));
        k = k + 1;
    }
    assert(items.subrange(0, items.len() as int) =~= items);
    kept
}

fn order_by_depth(kept: &Vec<String>) -> (r: Vec<String>)
    ensures
        strings_view(r@) == ({
            let d = strings_view(kept@);
            let order = stable_order(d.len(), depth_keys(d));
            Seq::new(order.len(), |i: int| d[order[i] as int])
        }),
{
    let ghost d = strings_view(kept@);
    let mut keys: Vec<u128> = Vec::new();
    let mut t: usize = 0;
    while t < kept.len()
        invariant
            t <= kept@.len(),
            d == strings_view(kept@),
            keys@ == depth_keys(d).subrange(0, t as int),
        decreases kept.len() - t,
    {
        let depth = path_depth_exec(&chars_of(kept[t].as_str()));
        keys.push((usize::MAX - depth) as u128);
        t = t + 1;
        assert(keys@ =~= depth_keys(d).subrange(0, t as int));
    }
    assert(keys@ =~= depth_keys(d));
    let order = stable_order_by_key(&keys);
    let mut r: Vec<String> = Vec::new();
    let mut u: usize = 0;
    while u < order.len()
        invariant
            u <= order@.len(),
            order@.len() == kept@.len(),
            forall|x: int| 0 <= x < order@.len() ==> (#[trigger] order@[x]) < kept@.len(),
            r@.len() == u,
            forall|x: int| 0 <= x < u ==> (#[trigger] r@[x]) == kept@[order@[x] as int],
        decreases order.len() - u,
    {
        r.push(kept[order[u]].clone());
        u = u + 1;
    }
    assert(strings_view(r@) =~= Seq::new(order@.len(), |i: int| d[order@[i] as int]));
    r
}

/// Computes the folders to scan from the default locations and the user's folders.
pub fn candidate_folders(defaults: &Vec<String>, customs: &Vec<String>) -> (r: Vec<String>)
    ensures
        strings_view(r@) == candidates_spec(strings_view(defaults@), strings_view(customs@)),
{
    let all = concat_strings(defaults, customs);
    proof {
        lemma_strings_view_concat(defaults@, customs@);
    }
    let kept = dedupe_first(&all);
    order_by_depth(&kept)
}

// ───────────────────────── merging scan results ─────────────────────────

/// `vs` without the recordings whose normalized path is in `seen` or occurred
/// earlier in `vs`.
pub open spec fn keep_new(seen: Seq<Seq<char>>, vs: Seq<RecordingVideo>) -> Seq<RecordingVideo>
    decreases vs.len(),
{
    if vs.len() == 0 {
        Seq::empty()
    } else {
        let n = normalize_spec(vs[0].path@);
        let rest = keep_new(seen.push(n), vs.drop_first());
        if seen.contains(n) {
            rest
        } else {
            seq![vs[0]] + rest
        }
    }
}

/// The normalized paths of `vs`.
pub open spec fn norms_of(vs: Seq<RecordingVideo>) -> Seq<Seq<char>> {
    Seq::new(vs.len(), |i: int| normalize_spec(vs[i].path@))
}

/// Total size of recordings.
pub open spec fn sum_sizes(vs: Seq<RecordingVideo>) -> nat
    decreases vs.len(),
{
    if vs.len() == 0 {
        0
    } else {
        sum_sizes(vs.drop_last()) + (vs.last().size as nat)
    }
}

/// The recordings each folder keeps: a recording belongs to the first folder (in
/// scan order) that found it.
pub open spec fn kept_per_folder(seen: Seq<Seq<char>>, scans: Seq<Seq<RecordingVideo>>) -> Seq<Seq<RecordingVideo>>
    decreases scans.len(),
{
    if scans.len() == 0 {
        Seq::empty()
    } else {
        seq![keep_new(seen, scans[0])] + kept_per_folder(seen + norms_of(scans[0]), scans.drop_first())
    }
}

/// All kept recordings, folder after folder.
pub open spec fn flatten(vss: Seq<Seq<RecordingVideo>>) -> Seq<RecordingVideo>
    decreases vss.len(),
{
    if vss.len() == 0 {
        Seq::empty()
    } else {
        vss[0] + flatten(vss.drop_first())
    }
}

/// The index of the first item with the same normalized path, or `usize::MAX`.
pub open spec fn first_index(items: Seq<Seq<char>>, p: Seq<char>) -> int
    decreases items.len(),
{
    if items.len() == 0 {
        usize::MAX as int
    } else if normalize_spec(items[0]) == normalize_spec(p) {
        0
    } else {
        let r = first_index(items.drop_first(), p);
        if r == usize::MAX as int {
            r
        } else {
            r + 1
        }
    }
}

/// The display key of a folder: default locations first, each group in the order
/// of the candidate lists.
pub open spec fn folder_key(custom: bool, idx: int) -> u128 {
    ((if custom { 1int } else { 0int }) * 0x1_0000_0000_0000_0000 + idx) as u128
}

/// The newest-first key of a recording.
pub open spec fn video_key(v: RecordingVideo) -> u128 {
    (u64::MAX - v.modified_ms) as u128
}

/// A folder is listed when the user added it or when it holds recordings.
pub open spec fn folder_listed(f: RecordingFolder) -> bool {
    f.custom || f.video_count > 0
}

/// The folder record of one scan after duplicates were removed.
pub open spec fn folder_of(scan: FolderScan, kept: Seq<RecordingVideo>, customs: Seq<Seq<char>>) -> (Seq<char>, Seq<char>, bool, nat, nat) {
    (
        scan.path@,
        scan.name@,
        exists|i: int| 0 <= i < customs.len() && normalize_spec(#[trigger] customs[i]) == normalize_spec(scan.path@),
        kept.len(),
        sum_sizes(kept),
    )
}

/// The view of a folder record.
pub open spec fn folder_view(f: RecordingFolder) -> (Seq<char>, Seq<char>, bool, nat, nat) {
    (f.path@, f.name@, f.custom, f.video_count as nat, f.total_size as nat)
}

/// Whether `n` is one of `seen`.
fn seen_contains(seen: &Vec<Vec<char>>, n: &Vec<char>) -> (b: bool)
    ensures
        b == views(seen@).contains(n@),
{
    let mut i: usize = 0;
    while i < seen.len()
        invariant
            i <= seen@.len(),
            forall|k: int| 0 <= k < i ==> seen@[k]@ != n@,
        decreases seen.len() - i,
    {
        if vec_eq(&seen[i], n) {
            assert(views(seen@)[i as int] == n@);
            return true;
        }
        i = i + 1;
    }
    assert forall|k: int| 0 <= k < views(seen@).len() implies views(seen@)[k] != n@ by {
        assert(views(seen@)[k] == seen@[k]@);
    }
    false
}

/// Keeps the recordings of one folder that no earlier folder (and no earlier
/// recording of this folder) had, and adds their normalized paths to `seen`.
pub fn keep_unseen_videos(seen: &mut Vec<Vec<char>>, videos: Vec<RecordingVideo>) -> (r: (Vec<RecordingVideo>, usize, u64))
    requires
        sum_sizes(videos@) <= u64::MAX,
    ensures
        r.0@ == keep_new(views(old(seen)@), videos@),
        views(final(seen)@) == views(old(seen)@) + norms_of(videos@),
        r.1 == r.0@.len(),
        r.2 == sum_sizes(r.0@),
{
    let ghost seen0 = views(seen@);
    let ghost vs = videos@;
    let mut kept: Vec<RecordingVideo> = Vec::new();
    let mut total: u64 = 0;
    let mut i: usize = 0;
    let mut rest = videos;
    let n0 = rest.len();
    assert(vs.len() == n0);
    // walk the list from the front
    while rest.len() > 0
        invariant
            vs.len() == i + rest@.len(),
            rest@ == vs.subrange(i as int, vs.len() as int),
            views(seen@) == seen0 + norms_of(vs.subrange(0, i as int)),
            kept@ + keep_new(views(seen@), rest@) == keep_new(seen0, vs),
            total == sum_sizes(kept@),
            sum_sizes(vs) <= u64::MAX,
            sum_sizes(kept@) <= sum_sizes(vs.subrange(0, i as int)),
            vs.len() <= usize::MAX,
        decreases rest@.len(),
    {
        let v = rest.remove(0);
        let n = normalize_chars(&chars_of(v.path.as_str()));
        let known = seen_contains(seen, &n);
        let ghost seen_before = views(seen@);
        let ghost r0 = rest@;
        proof {
            lemma_sum_prefix(vs, i as int);
        }
        if !known {
            assert(total + v.size <= u64::MAX);
            total = total + v.size;
            let ghost old_kept = kept@;
            kept.push(v);
            proof {
                assert(kept@.drop_last() =~= old_kept);
            }
        }
        seen.push(n);
        proof {
            assert(views(seen@) =~= seen_before.push(normalize_spec(vs[i as int].path@)));
            let pre = vs.subrange(0, i + 1);
            assert(pre.drop_last() =~= vs.subrange(0, i as int));
            assert(norms_of(pre) =~= norms_of(vs.subrange(0, i as int)).push(normalize_spec(vs[i as int].path@)));
            assert(views(seen@) =~= seen0 + norms_of(pre));
            assert(r0 =~= vs.subrange(i + 1, vs.len() as int));
            assert(sum_sizes(pre) == sum_sizes(vs.subrange(0, i as int)) + vs[i as int].size);
        }
        i = i + 1;
    }
    assert(vs.subrange(0, vs.len() as int) =~= vs);
    let cnt = kept.len();
    (kept, cnt, total)
}

fn copy_video(v: &RecordingVideo) -> (r: RecordingVideo)
    ensures
        r == *v,
{
    RecordingVideo {
        path: v.path.clone(),
        name: v.name.clone(),
        size: v.size,
        modified_ms: v.modified_ms,
        created_ms: v.created_ms,
        ext: v.ext.clone(),
    }
}

fn copy_folder(f: &RecordingFolder) -> (r: RecordingFolder)
    ensures
        r == *f,
{
    RecordingFolder {
        path: f.path.clone(),
        name: f.name.clone(),
        custom: f.custom,
        video_count: f.video_count,
        total_size: f.total_size,
    }
}

/// The recordings of each scan.
pub open spec fn scan_videos(scans: Seq<FolderScan>) -> Seq<Seq<RecordingVideo>> {
    Seq::new(scans.len(), |f: int| scans[f].videos@)
}

/// Whether a folder path is one the user added.
pub open spec fn is_custom_spec(customs: Seq<Seq<char>>, path: Seq<char>) -> bool {
    exists|i: int| 0 <= i < customs.len() && normalize_spec(#[trigger] customs[i]) == normalize_spec(path)
}

fn is_custom(customs: &Vec<String>, path: &str) -> (b: bool)
    ensures
        b == is_custom_spec(strings_view(customs@), path@),
{
    let n = normalize_chars(&chars_of(path));
    let mut i: usize = 0;
    while i < customs.len()
        invariant
            i <= customs@.len(),
            n@ == normalize_spec(path@),
            forall|k: int| 0 <= k < i ==> normalize_spec(#[trigger] strings_view(customs@)[k]) != n@,
        decreases customs.len() - i,
    {
        let c = normalize_chars(&chars_of(customs[i].as_str()));
        if vec_eq(&c, &n) {
            assert(strings_view(customs@)[i as int] == customs@[i as int]@);
            return true;
        }
        assert(strings_view(customs@)[i as int] == customs@[i as int]@);
        i = i + 1;
    }
    false
}

/// The folder records and kept recordings of all scans, before filtering and ordering.
pub open spec fn merged_spec(customs: Seq<Seq<char>>, scans: Seq<FolderScan>) -> (Seq<(Seq<char>, Seq<char>, bool, nat, nat)>, Seq<Seq<RecordingVideo>>) {
    let kept = kept_per_folder(Seq::empty(), scan_videos(scans));
    (Seq::new(scans.len(), |f: int| folder_of(scans[f], kept[f], customs)), kept)
}

proof fn lemma_kept_per_folder_len(seen: Seq<Seq<char>>, scans: Seq<Seq<RecordingVideo>>)
    ensures
        kept_per_folder(seen, scans).len() == scans.len(),
    decreases scans.len(),
{
    if scans.len() > 0 {
        lemma_kept_per_folder_len(seen + norms_of(scans[0]), scans.drop_first());
    }
}

/// Credits each recording to the first folder that found it and counts per folder.
pub fn merge_folder_scans(customs: &Vec<String>, scans: &Vec<FolderScan>) -> (r: (Vec<RecordingFolder>, Vec<Vec<RecordingVideo>>))
    requires
        forall|f: int| 0 <= f < scans@.len() ==> sum_sizes((#[trigger] scans@[f]).videos@) <= u64::MAX,
    ensures
        Seq::new(r.0@.len(), |i: int| folder_view(r.0@[i])) == merged_spec(strings_view(customs@), scans@).0,
        Seq::new(r.1@.len(), |i: int| r.1@[i]@) == merged_spec(strings_view(customs@), scans@).1,
{
    let ghost all = scan_videos(scans@);
    let ghost kept_all = kept_per_folder(Seq::empty(), all);
    let mut seen: Vec<Vec<char>> = Vec::new();
    let mut folders: Vec<RecordingFolder> = Vec::new();
    let mut kept: Vec<Vec<RecordingVideo>> = Vec::new();
    let mut f: usize = 0;
    proof {
        lemma_kept_per_folder_len(Seq::empty(), all);
        assert(all.subrange(0, 0) =~= Seq::<Seq<RecordingVideo>>::empty());
        assert(views(seen@) =~= Seq::<Seq<char>>::empty());
        assert(all.subrange(0, all.len() as int) =~= all);
    }
    while f < scans.len()
        invariant
            f <= scans@.len(),
            all == scan_videos(scans@),
            kept_all == kept_per_folder(Seq::empty(), all),
            kept_all.len() == all.len(),
            forall|g: int| 0 <= g < scans@.len() ==> sum_sizes((#[trigger] scans@[g]).videos@) <= u64::MAX,
            kept_per_folder(views(seen@), all.subrange(f as int, all.len() as int)) == kept_all.subrange(f as int, kept_all.len() as int),
            folders@.len() == f,
            kept@.len() == f,
            forall|g: int| 0 <= g < f ==> (#[trigger] kept@[g])@ == kept_all[g],
            forall|g: int| 0 <= g < f ==> folder_view(#[trigger] folders@[g]) == folder_of(scans@[g], kept_all[g], strings_view(customs@)),
        decreases scans.len() - f,
    {
        let ghost rest = all.subrange(f as int, all.len() as int);
        assert(rest[0] == scans@[f as int].videos@);
        assert(rest.drop_first() =~= all.subrange(f + 1, all.len() as int));
        let mut vs: Vec<RecordingVideo> = Vec::new();
        let mut k: usize = 0;
        while k < scans[f].videos.len()
            invariant
                f < scans@.len(),
                k <= scans@[f as int].videos@.len(),
                vs@ == scans@[f as int].videos@.subrange(0, k as int),
            decreases scans@[f as int].videos@.len() - k,
        {
            vs.push(copy_video(&scans[f].videos[k]));
            k = k + 1;
            assert(vs@ =~= scans@[f as int].videos@.subrange(0, k as int));
        }
        assert(vs@ =~= scans@[f as int].videos@);
        let ghost seen_before = views(seen@);
        let (kv, cnt, total) = keep_unseen_videos(&mut seen, vs);
        assert(kv@ == kept_all[f as int]) by {
            assert(kept_all.subrange(f as int, kept_all.len() as int)[0] == kept_all[f as int]);
        }
        assert(kept_all.subrange(f + 1, kept_all.len() as int) =~= kept_all.subrange(f as int, kept_all.len() as int).drop_first());
        let custom = is_custom(customs, scans[f].path.as_str());
        let rec = RecordingFolder {
            path: scans[f].path.clone(),
            name: scans[f].name.clone(),
            custom,
            video_count: cnt,
            total_size: total,
        };
        folders.push(rec);
        kept.push(kv);
        f = f + 1;
    }
    proof {
        assert(Seq::new(folders@.len(), |i: int| folder_view(folders@[i])) =~= merged_spec(strings_view(customs@), scans@).0);
        assert(Seq::new(kept@.len(), |i: int| kept@[i]@) =~= merged_spec(strings_view(customs@), scans@).1);
    }
    (folders, kept)
}

/// The view type of a folder record: path, name, custom, count, total size.
pub type FolderView = (Seq<char>, Seq<char>, bool, nat, nat);

/// The folder records that are listed.
pub open spec fn listed_pred() -> spec_fn(FolderView) -> bool {
    |r: FolderView| r.2 || r.3 > 0
}

/// The display order keys of listed folders.
pub open spec fn folder_keys(listed: Seq<FolderView>, items: Seq<Seq<char>>) -> Seq<u128> {
    Seq::new(listed.len(), |i: int| folder_key(listed[i].2, first_index(items, listed[i].0)))
}

/// The most-recordings-first keys of folder records.
pub open spec fn count_keys(fs: Seq<FolderView>) -> Seq<u128> {
    Seq::new(fs.len(), |i: int| (usize::MAX - fs[i].3) as u128)
}

/// The listed folders in candidate order: default locations first, each group
/// in the order of the candidate lists.
pub open spec fn placed_folders(defaults: Seq<Seq<char>>, customs: Seq<Seq<char>>, scans: Seq<FolderScan>) -> Seq<FolderView> {
    let listed = merged_spec(customs, scans).0.filter(listed_pred());
    let order = stable_order(listed.len(), folder_keys(listed, defaults + customs));
    Seq::new(order.len(), |i: int| listed[order[i] as int])
}

/// The folders a scan reports: by number of recordings, most first; folders
/// with as many recordings keep their candidate order.
pub open spec fn scan_folders_spec(defaults: Seq<Seq<char>>, customs: Seq<Seq<char>>, scans: Seq<FolderScan>) -> Seq<FolderView> {
    let placed = placed_folders(defaults, customs, scans);
    let order = stable_order(placed.len(), count_keys(placed));
    Seq::new(order.len(), |i: int| placed[order[i] as int])
}

/// The newest-first keys of recordings.
pub open spec fn video_keys(all: Seq<RecordingVideo>) -> Seq<u128> {
    Seq::new(all.len(), |i: int| video_key(all[i]))
}

/// The recordings a scan reports, newest first (ties keep scan order).
pub open spec fn scan_videos_spec(customs: Seq<Seq<char>>, scans: Seq<FolderScan>) -> Seq<RecordingVideo> {
    let all = flatten(merged_spec(customs, scans).1);
    let order = stable_order(all.len(), video_keys(all));
    Seq::new(order.len(), |i: int| all[order[i] as int])
}

proof fn lemma_first_index_at(items: Seq<Seq<char>>, p: Seq<char>, k: int)
    requires
        0 <= k < items.len(),
        items.len() <= usize::MAX,
        normalize_spec(items[k]) == normalize_spec(p),
        forall|j: int| 0 <= j < k ==> normalize_spec(#[trigger] items[j]) != normalize_spec(p),
    ensures
        first_index(items, p) == k,
    decreases k,
{
    if k > 0 {
        let rest = items.drop_first();
        assert forall|j: int| 0 <= j < k - 1 implies normalize_spec(#[trigger] rest[j]) != normalize_spec(p) by {
            assert(rest[j] == items[j + 1]);
        }
        lemma_first_index_at(rest, p, k - 1);
    }
}

proof fn lemma_first_index_none(items: Seq<Seq<char>>, p: Seq<char>)
    requires
        forall|j: int| 0 <= j < items.len() ==> normalize_spec(#[trigger] items[j]) != normalize_spec(p),
    ensures
        first_index(items, p) == usize::MAX as int,
    decreases items.len(),
{
    if items.len() > 0 {
        let rest = items.drop_first();
        assert forall|j: int| 0 <= j < rest.len() implies normalize_spec(#[trigger] rest[j]) != normalize_spec(p) by {
            assert(rest[j] == items[j + 1]);
        }
        lemma_first_index_none(rest, p);
    }
}

fn first_index_exec(items: &Vec<String>, p: &str) -> (r: usize)
    ensures
        r as int == first_index(strings_view(items@), p@),
{
    let ghost it = strings_view(items@);
    let n = normalize_chars(&chars_of(p));
    let mut i: usize = 0;
    while i < items.len()
        invariant
            i <= items@.len(),
            it == strings_view(items@),
            n@ == normalize_spec(p@),
            forall|j: int| 0 <= j < i ==> normalize_spec(#[trigger] it[j]) != normalize_spec(p@),
        decreases items.len() - i,
    {
        let c = normalize_chars(&chars_of(items[i].as_str()));
        assert(it[i as int] == items@[i as int]@);
        if vec_eq(&c, &n) {
            proof {
                lemma_first_index_at(it, p@, i as int);
            }
            return i;
        }
        i = i + 1;
    }
    proof {
        lemma_first_index_none(it, p@);
    }
    usize::MAX
}

fn flatten_videos(kept: &Vec<Vec<RecordingVideo>>) -> (r: Vec<RecordingVideo>)
    ensures
        r@ == flatten(Seq::new(kept@.len(), |i: int| kept@[i]@)),
{
    let ghost all = Seq::new(kept@.len(), |i: int| kept@[i]@);
    let mut out: Vec<RecordingVideo> = Vec::new();
    let mut i: usize = 0;
    assert(all.subrange(0, all.len() as int) =~= all);
    while i < kept.len()
        invariant
            i <= kept@.len(),
            all == Seq::new(kept@.len(), |k: int| kept@[k]@),
            out@ + flatten(all.subrange(i as int, all.len() as int)) == flatten(all),
        decreases kept.len() - i,
    {
        let ghost rest = all.subrange(i as int, all.len() as int);
        assert(rest[0] == kept@[i as int]@);
        assert(rest.drop_first() =~= all.subrange(i + 1, all.len() as int));
        let ghost before = out@;
        let mut k: usize = 0;
        while k < kept[i].len()
            invariant
                i < kept@.len(),
                k <= kept@[i as int]@.len(),
                out@ == before + kept@[i as int]@.subrange(0, k as int),
            decreases kept@[i as int]@.len() - k,
        {
            out.push(copy_video(&kept[i][k]));
            k = k + 1;
            assert(out@ =~= before + kept@[i as int]@.subrange(0, k as int));
        }
        assert(kept@[i as int]@.subrange(0, k as int) =~= kept@[i as int]@);
        assert(out@ + flatten(rest.drop_first()) =~= before + flatten(rest));
        i = i + 1;
    }
    assert(all.subrange(i as int, all.len() as int) =~= Seq::<Seq<RecordingVideo>>::empty());
    assert(out@ + flatten(Seq::<Seq<RecordingVideo>>::empty()) =~= out@);
    out
}

/// Folder records by number of recordings, most first, keeping the order of
/// records with as many.
fn order_by_count(placed: &Vec<RecordingFolder>) -> (r: Vec<RecordingFolder>)
    ensures
        Seq::new(r@.len(), |i: int| folder_view(r@[i])) == ({
            let pv = Seq::new(placed@.len(), |i: int| folder_view(placed@[i]));
            let order = stable_order(pv.len(), count_keys(pv));
            Seq::new(order.len(), |i: int| pv[order[i] as int])
        }),
        forall|a: int, b: int| 0 <= a < b < r@.len() ==> r@[a].video_count >= r@[b].video_count,
{
    let ghost pv = Seq::new(placed@.len(), |i: int| folder_view(placed@[i]));
    let mut keys: Vec<u128> = Vec::new();
    let mut t: usize = 0;
    while t < placed.len()
        invariant
            t <= placed@.len(),
            pv == Seq::new(placed@.len(), |i: int| folder_view(placed@[i])),
            keys@ == count_keys(pv).subrange(0, t as int),
        decreases placed.len() - t,
    {
        keys.push((usize::MAX - placed[t].video_count) as u128);
        t = t + 1;
        assert(keys@ =~= count_keys(pv).subrange(0, t as int));
    }
    assert(keys@ =~= count_keys(pv));
    let order = stable_order_by_key(&keys);
    let mut out: Vec<RecordingFolder> = Vec::new();
    let mut u: usize = 0;
    while u < order.len()
        invariant
            u <= order@.len(),
            order@.len() == placed@.len(),
            forall|x: int| 0 <= x < order@.len() ==> (#[trigger] order@[x]) < placed@.len(),
            out@.len() == u,
            forall|x: int| 0 <= x < u ==> (#[trigger] out@[x]) == placed@[order@[x] as int],
        decreases order.len() - u,
    {
        out.push(copy_folder(&placed[order[u]]));
        u = u + 1;
    }
    proof {
        crate::sorting::law_stable_order_sorted(keys@.len() as nat, keys@);
        assert forall|a: int, b: int| 0 <= a < b < out@.len() implies out@[a].video_count >= out@[b].video_count by {
            assert(keys@[order@[a] as int] <= keys@[order@[b] as int]);
            assert(keys@[order@[a] as int] == (usize::MAX - out@[a].video_count) as u128);
            assert(keys@[order@[b] as int] == (usize::MAX - out@[b].video_count) as u128);
        }
    }
    out
}

/// Merges what the folder walks found into the scan result: each recording once
/// (credited to the first folder, in candidate order, that found it), default
/// folders only when they hold recordings, folders with the most recordings first, recordings
/// newest first.
pub fn assemble_scan(defaults: &Vec<String>, customs: &Vec<String>, scans: &Vec<FolderScan>) -> (r: RecordingScanResult)
    requires
        forall|f: int| 0 <= f < scans@.len() ==> sum_sizes((#[trigger] scans@[f]).videos@) <= u64::MAX,
    ensures
        Seq::new(r.folders@.len(), |i: int| folder_view(r.folders@[i])) == scan_folders_spec(
            strings_view(defaults@),
            strings_view(customs@),
            scans@,
        ),
        r.videos@ == scan_videos_spec(strings_view(customs@), scans@),
        forall|a: int, b: int| 0 <= a < b < r.folders@.len() ==> r.folders@[a].video_count >= r.folders@[b].video_count,
        forall|a: int, b: int| 0 <= a < b < r.videos@.len() ==> r.videos@[a].modified_ms >= r.videos@[b].modified_ms,
{
    let (recs, kept) = merge_folder_scans(customs, scans);
    let ghost rv = Seq::new(recs@.len(), |i: int| folder_view(recs@[i]));
    // listed folders
    let mut listed: Vec<RecordingFolder> = Vec::new();
    let mut i: usize = 0;
    assert(rv.subrange(0, rv.len() as int) =~= rv);
    while i < recs.len()
        invariant
            i <= recs@.len(),
            rv == Seq::new(recs@.len(), |k: int| folder_view(recs@[k])),
            Seq::new(listed@.len(), |k: int| folder_view(listed@[k])) == rv.subrange(0, i as int).filter(listed_pred()),
        decreases recs.len() - i,
    {
        let ghost pre = rv.subrange(0, i + 1);
        assert(pre.drop_last() =~= rv.subrange(0, i as int));
        assert(pre.filter(listed_pred()) == if (listed_pred())(pre.last()) {
            pre.drop_last().filter(listed_pred()).push(pre.last())
        } else {
            pre.drop_last().filter(listed_pred())
        }) by {
            reveal_with_fuel(Seq::filter, 1);
        }
        let ghost old_listed = listed@;
        if recs[i].custom || recs[i].video_count > 0 {
            listed.push(copy_folder(&recs[i]));
        }
        assert(Seq::new(listed@.len(), |k: int| folder_view(listed@[k])) =~= pre.filter(listed_pred()));
        i = i + 1;
    }
    let ghost lv = Seq::new(listed@.len(), |k: int| folder_view(listed@[k]));
    // display order
    let all_items = concat_strings(defaults, customs);
    proof {
        lemma_strings_view_concat(defaults@, customs@);
    }
    let mut keys: Vec<u128> = Vec::new();
    let mut t: usize = 0;
    while t < listed.len()
        invariant
            t <= listed@.len(),
            lv == Seq::new(listed@.len(), |k: int| folder_view(listed@[k])),
            strings_view(all_items@) == strings_view(defaults@) + strings_view(customs@),
            keys@ == folder_keys(lv, strings_view(defaults@) + strings_view(customs@)).subrange(0, t as int),
        decreases listed.len() - t,
    {
        let idx = first_index_exec(&all_items, listed[t].path.as_str());
        let key: u128 = if listed[t].custom {
            0x1_0000_0000_0000_0000u128 + idx as u128
        } else {
            idx as u128
        };
        keys.push(key);
        t = t + 1;
        assert(keys@ =~= folder_keys(lv, strings_view(defaults@) + strings_view(customs@)).subrange(0, t as int));
    }
    assert(keys@ =~= folder_keys(lv, strings_view(defaults@) + strings_view(customs@)));
    let order = stable_order_by_key(&keys);
    let mut placed: Vec<RecordingFolder> = Vec::new();
    let mut u: usize = 0;
    while u < order.len()
        invariant
            u <= order@.len(),
            order@.len() == listed@.len(),
            forall|x: int| 0 <= x < order@.len() ==> (#[trigger] order@[x]) < listed@.len(),
            placed@.len() == u,
            forall|x: int| 0 <= x < u ==> (#[trigger] placed@[x]) == listed@[order@[x] as int],
        decreases order.len() - u,
    {
        placed.push(copy_folder(&listed[order[u]]));
        u = u + 1;
    }
    let ghost pv = Seq::new(placed@.len(), |i: int| folder_view(placed@[i]));
    assert(pv =~= placed_folders(strings_view(defaults@), strings_view(customs@), scans@));
    let folders = order_by_count(&placed);
    assert(Seq::new(folders@.len(), |i: int| folder_view(folders@[i])) =~= scan_folders_spec(
        strings_view(defaults@),
        strings_view(customs@),
        scans@,
    ));
    // newest first
    let all = flatten_videos(&kept);
    let mut vkeys: Vec<u128> = Vec::new();
    let mut w: usize = 0;
    while w < all.len()
        invariant
            w <= all@.len(),
            vkeys@ == video_keys(all@).subrange(0, w as int),
        decreases all.len() - w,
    {
        vkeys.push((u64::MAX - all[w].modified_ms) as u128);
        w = w + 1;
        assert(vkeys@ =~= video_keys(all@).subrange(0, w as int));
    }
    assert(vkeys@ =~= video_keys(all@));
    let vorder = stable_order_by_key(&vkeys);
    let mut videos: Vec<RecordingVideo> = Vec::new();
    let mut z: usize = 0;
    while z < vorder.len()
        invariant
            z <= vorder@.len(),
            vorder@.len() == all@.len(),
            forall|x: int| 0 <= x < vorder@.len() ==> (#[trigger] vorder@[x]) < all@.len(),
            videos@.len() == z,
            forall|x: int| 0 <= x < z ==> (#[trigger] videos@[x]) == all@[vorder@[x] as int],
        decreases vorder.len() - z,
    {
        videos.push(copy_video(&all[vorder[z]]));
        z = z + 1;
    }
    assert(videos@ =~= scan_videos_spec(strings_view(customs@), scans@));
    proof {
        assert forall|a: int, b: int| 0 <= a < b < videos@.len() implies videos@[a].modified_ms >= videos@[b].modified_ms by {
            law_videos_newest_first(strings_view(customs@), scans@, a, b);
        }
    }
    RecordingScanResult { folders, videos }
}

// ───────────────────────── user folders ─────────────────────────

/// The message for a folder or file that is missing or unreadable.
pub open spec fn not_accessible_msg() -> Seq<char> {
    "所选目录不存在或不可访问"@
}

/// What adding a user folder does to the saved list.
pub open spec fn add_folder_spec(folders: Seq<Seq<char>>, picked: Option<Seq<char>>, is_dir: bool) -> Result<(Seq<Seq<char>>, bool), Seq<char>> {
    match picked {
        None => Ok((folders, false)),
        Some(p) => if trim(p).len() == 0 || !is_dir {
            Err(not_accessible_msg())
        } else if exists|i: int| 0 <= i < folders.len() && normalize_spec(#[trigger] folders[i]) == normalize_spec(p) {
            Ok((folders, false))
        } else {
            Ok((folders.push(p), true))
        },
    }
}

/// Adds the folder the user picked (`None`: the dialog was cancelled; `is_dir`:
/// the pick is an existing directory).  The second part of the result says
/// whether the list changed and must be saved.
pub fn add_custom_folder(folders: Vec<String>, picked: Option<String>, is_dir: bool) -> (r: Result<(Vec<String>, bool), String>)
    ensures
        match (r, add_folder_spec(strings_view(folders@), match picked { Some(p) => Some(p@), None => None }, is_dir)) {
            (Ok((v, w)), Ok((sv, sw))) => strings_view(v@) == sv && w == sw,
            (Err(e), Err(se)) => e@ == se,
            _ => false,
        },
{
    let p = match picked {
        None => return Ok((folders, false)),
        Some(p) => p,
    };
    if trim_vec(&chars_of(p.as_str())).len() == 0 || !is_dir {
        return Err(string_from_chars(&chars_of("所选目录不存在或不可访问")));
    }
    if is_custom(&folders, p.as_str()) {
        return Ok((folders, false));
    }
    let mut folders = folders;
    let ghost before = folders@;
    folders.push(p);
    assert(strings_view(folders@) =~= strings_view(before).push(p@));
    Ok((folders, true))
}

/// Removes every saved folder that normalizes like `path`.
pub fn remove_custom_folder(folders: &Vec<String>, path: &str) -> (r: Vec<String>)
    ensures
        strings_view(r@) == strings_view(folders@).filter(|f: Seq<char>| normalize_spec(f) != normalize_spec(path@)),
{
    let ghost keep = |f: Seq<char>| normalize_spec(f) != normalize_spec(path@);
    let ghost all = strings_view(folders@);
    let target = normalize_chars(&chars_of(path));
    let mut r: Vec<String> = Vec::new();
    let mut i: usize = 0;
    assert(all.subrange(0, all.len() as int) =~= all);
    while i < folders.len()
        invariant
            i <= folders@.len(),
            all == strings_view(folders@),
            target@ == normalize_spec(path@),
            keep == (|f: Seq<char>| normalize_spec(f) != normalize_spec(path@)),
            strings_view(r@) == all.subrange(0, i as int).filter(keep),
        decreases folders.len() - i,
    {
        let ghost pre = all.subrange(0, i + 1);
        assert(pre.drop_last() =~= all.subrange(0, i as int));
        assert(pre.filter(keep) == if keep(pre.last()) {
            pre.drop_last().filter(keep).push(pre.last())
        } else {
            pre.drop_last().filter(keep)
        }) by {
            reveal_with_fuel(Seq::filter, 1);
        }
        assert(pre.last() == folders@[i as int]@);
        let n = normalize_chars(&chars_of(folders[i].as_str()));
        let ghost old_r = r@;
        if !vec_eq(&n, &target) {
            r.push(folders[i].clone());
        }
        assert(strings_view(r@) =~= pre.filter(keep));
        i = i + 1;
    }
    r
}

// ───────────────────────── copy, delete, open ─────────────────────────

/// The name of the `i`-th copy of a file: `stem (i).ext`.
pub fn numbered_copy_name(stem: &str, ext: Option<&str>, i: u64) -> (r: String)
    ensures
        r@ == stem@ + " ("@ + decimal(i as nat) + ")"@ + match ext {
            Some(e) => "."@ + e@,
            None => Seq::empty(),
        },
{
    let mut v = chars_of(stem);
    append_str(&mut v, " (");
    push_decimal(&mut v, i);
    append_str(&mut v, ")");
    match ext {
        Some(e) => {
            append_str(&mut v, ".");
            append_str(&mut v, e);
        },
        None => {},
    }
    string_from_chars(&v)
}

/// The answer when the user closed the folder dialog without a choice.
pub fn copy_cancelled() -> (r: NvidiaCopyResult)
    ensures
        r.copied@.len() == 0 && r.errors@.len() == 0 && r.cancelled,
{
    NvidiaCopyResult { copied: Vec::new(), errors: Vec::new(), cancelled: true }
}

/// The `k`-th name tried for a copy: the file's own name first, then
/// `stem (k).ext`.
pub open spec fn copy_candidate_spec(file_name: Seq<char>, stem: Seq<char>, ext: Option<Seq<char>>, k: nat) -> Seq<char> {
    if k == 0 {
        file_name
    } else {
        stem + " ("@ + decimal(k) + ")"@ + match ext {
            Some(e) => "."@ + e,
            None => Seq::empty(),
        }
    }
}

/// The `k`-th name tried for a copy (see `copy_candidate_spec`).
pub fn copy_candidate(file_name: &str, stem: &str, ext: Option<&str>, k: u64) -> (r: String)
    ensures
        r@ == copy_candidate_spec(file_name@, stem@, match ext { Some(e) => Some(e@), None => None }, k as nat),
{
    if k == 0 {
        string_from_chars(&chars_of(file_name))
    } else {
        numbered_copy_name(stem, ext, k)
    }
}

/// The name a copy takes, given for the names tried so far (in the order of
/// `copy_candidate_spec`) whether the target folder already holds them: the
/// first one that is free, so an existing file is never overwritten; `None`
/// while every name asked about is taken (the next one is to be asked).
pub fn copy_target_name(file_name: &str, stem: &str, ext: Option<&str>, taken: &Vec<bool>) -> (r: Option<String>)
    ensures
        match r {
            Some(n) => exists|m: int| 0 <= m < taken@.len() && !taken@[m] && (forall|j: int| 0 <= j < m ==> taken@[j])
                && n@ == copy_candidate_spec(file_name@, stem@, match ext { Some(e) => Some(e@), None => None }, m as nat),
            None => forall|j: int| 0 <= j < taken@.len() ==> taken@[j],
        },
{
    let mut k: usize = 0;
    while k < taken.len()
        invariant
            k <= taken@.len(),
            forall|j: int| 0 <= j < k ==> taken@[j],
        decreases taken.len() - k,
    {
        if !taken[k] {
            return Some(copy_candidate(file_name, stem, ext, k as u64));
        }
        k = k + 1;
    }
    None
}

/// Records what became of copying `raw`: a missing source is an error, a
/// copy that went through is listed, a failed one is an error with the
/// system's text.
pub fn record_copy(result: &mut NvidiaCopyResult, raw: String, is_file: bool, copied: Result<(), String>)
    ensures
        final(result).cancelled == old(result).cancelled,
        !is_file ==> final(result).copied@ == old(result).copied@ && final(result).errors@.len() == old(result).errors@.len() + 1
            && final(result).errors@.last().0@ == raw@ && final(result).errors@.last().1@ == "文件不存在或不可访问"@,
        is_file && copied is Ok ==> final(result).copied@.len() == old(result).copied@.len() + 1
            && final(result).copied@.last()@ == raw@ && final(result).errors@ == old(result).errors@,
        is_file && copied is Err ==> final(result).copied@ == old(result).copied@ && final(result).errors@.len() == old(result).errors@.len() + 1
            && final(result).errors@.last().0@ == raw@ && final(result).errors@.last().1@ == "复制失败: "@ + copied->Err_0@,
        forall|j: int| 0 <= j < old(result).errors@.len() ==> final(result).errors@[j] == old(result).errors@[j],
        forall|j: int| 0 <= j < old(result).copied@.len() ==> final(result).copied@[j] == old(result).copied@[j],
{
    if !is_file {
        result.errors.push((raw, string_from_chars(&chars_of("文件不存在或不可访问"))));
        return;
    }
    match copied {
        Ok(_) => result.copied.push(raw),
        Err(e) => {
            let mut v = chars_of("复制失败: ");
            append_str(&mut v, e.as_str());
            result.errors.push((raw, string_from_chars(&v)));
        },
    }
}

/// Deleting is refused for anything but a recording.
pub fn delete_allowed(extension: Option<&str>) -> (r: Result<(), String>)
    ensures
        match r {
            Ok(_) => video_ext_spec(match extension { Some(e) => Some(e@), None => None }) is Some,
            Err(e) => video_ext_spec(match extension { Some(x) => Some(x@), None => None }) is None
                && e@ == "非视频文件，已拒绝删除"@,
        },
{
    match is_video_ext(extension) {
        Some(_) => Ok(()),
        None => Err(string_from_chars(&chars_of("非视频文件，已拒绝删除"))),
    }
}

/// A file can only be opened or revealed when it exists.
pub fn require_existing(exists: bool) -> (r: Result<(), String>)
    ensures
        match r {
            Ok(_) => exists,
            Err(e) => !exists && e@ == "文件不存在或不可访问"@,
        },
{
    if exists {
        Ok(())
    } else {
        Err(string_from_chars(&chars_of("文件不存在或不可访问")))
    }
}

/// `FILE_ATTRIBUTE_READONLY`.
pub const FILE_ATTRIBUTE_READONLY: u32 = 1;

/// The attributes to write to drop the read-only flag (`None`: nothing to write);
/// `u32::MAX` means the attributes could not be read.
pub fn clear_readonly(attrs: u32) -> (r: Result<Option<u32>, String>)
    ensures
        match r {
            Ok(Some(n)) => attrs != u32::MAX && n == attrs & !1u32 && n != attrs,
            Ok(None) => attrs != u32::MAX && attrs & !1u32 == attrs,
            Err(e) => attrs == u32::MAX && e@ == "无法获取文件属性"@,
        },
{
    if attrs == u32::MAX {
        return Err(string_from_chars(&chars_of("无法获取文件属性")));
    }
    let n = attrs & !1u32;
    if n != attrs {
        Ok(Some(n))
    } else {
        Ok(None)
    }
}

/// The message of a failed delete or copy: `prefix` and the system's text.
pub fn failure_message(prefix: &str, err: &str) -> (r: String)
    ensures
        r@ == prefix@ + err@,
{
    let mut v = chars_of(prefix);
    append_str(&mut v, err);
    string_from_chars(&v)
}

// ───────────────────────── thumbnails ─────────────────────────

/// 32-bit top-down BGRA pixels as RGBA, opaque; trailing bytes of an incomplete pixel are 0.
pub open spec fn bgra_to_rgba_spec(buf: Seq<u8>) -> Seq<u8> {
    let full = buf.len() - buf.len() % 4;
    Seq::new(
        buf.len(),
        |j: int|
            if j >= full {
                0u8
            } else if j % 4 == 0 {
                buf[j + 2]
            } else if j % 4 == 1 {
                buf[j]
            } else if j % 4 == 2 {
                buf[j - 2]
            } else {
                255u8
            },
    )
}

/// Converts the pixels of a captured bitmap for the PNG encoder.
pub fn bgra_to_rgba(buf: &Vec<u8>) -> (r: Vec<u8>)
    ensures
        r@ == bgra_to_rgba_spec(buf@),
{
    let n = buf.len();
    let full = n - n % 4;
    let mut rgba: Vec<u8> = Vec::new();
    let mut i: usize = 0;
    while i < full
        invariant
            n == buf@.len(),
            full == n - n % 4,
            full % 4 == 0,
            i % 4 == 0,
            i <= full,
            rgba@ == bgra_to_rgba_spec(buf@).subrange(0, i as int),
        decreases full - i,
    {
        rgba.push(buf[i + 2]);
        rgba.push(buf[i + 1]);
        rgba.push(buf[i]);
        rgba.push(255u8);
        i = i + 4;
        assert(rgba@ =~= bgra_to_rgba_spec(buf@).subrange(0, i as int));
    }
    while i < n
        invariant
            n == buf@.len(),
            full == n - n % 4,
            full <= i <= n,
            rgba@ == bgra_to_rgba_spec(buf@).subrange(0, i as int),
        decreases n - i,
    {
        rgba.push(0u8);
        i = i + 1;
        assert(rgba@ =~= bgra_to_rgba_spec(buf@).subrange(0, i as int));
    }
    assert(rgba@ =~= bgra_to_rgba_spec(buf@));
    rgba
}

/// Lower-case hexadecimal digit.
pub open spec fn hex_char(d: u64) -> char {
    if d < 10 {
        ((d + 48) as u32) as char
    } else {
        ((d + 87) as u32) as char
    }
}

/// `{:016x}`: sixteen lower-case hex digits, most significant first.
pub open spec fn hex16(h: u64) -> Seq<char> {
    Seq::new(16, |i: int| hex_char((h >> ((60 - 4 * i) as u64)) & 0xFu64))
}

/// The cache file name of a thumbnail: the path hash as `{:016x}.png`.
pub fn thumbnail_file_name(hash: u64) -> (r: String)
    ensures
        r@ == hex16(hash) + ".png"@,
{
    let mut v: Vec<char> = Vec::new();
    let mut i: u64 = 0;
    while i < 16
        invariant
            i <= 16,
            v@ == hex16(hash).subrange(0, i as int),
        decreases 16 - i,
    {
        let sh: u64 = 60 - 4 * i;
        let d: u64 = (hash >> sh) & 0xFu64;
        assert(d < 16) by (bit_vector)
            requires
                d == (hash >> sh) & 0xFu64,
        ;
        let c: char = if d < 10 {
            ((d as u8) + 48) as char
        } else {
            ((d as u8) + 87) as char
        };
        v.push(c);
        i = i + 1;
        assert(v@ =~= hex16(hash).subrange(0, i as int));
    }
    append_str(&mut v, ".png");
    string_from_chars(&v)
}

/// What `DefaultHasher` gives for a text hashed with `Hash`.
pub uninterp spec fn spec_default_hash(s: Seq<char>) -> u64;

/// `std::collections::hash_map::DefaultHasher::new()`, the text hashed into it
/// with `Hash`, and `finish`.  The contract only names the result: the
/// algorithm is std's, fixed for a given build.
#[verifier::external_body]
fn default_hash(s: &str) -> (r: u64)
    ensures
        r == spec_default_hash(s@),
{
    let mut h = std::collections::hash_map::DefaultHasher::new();
    s.hash(&mut h);
    h.finish()
}

/// The cached thumbnail of a recording: in the cache directory, the hash of
/// its normalized path as sixteen hexadecimal digits, `.png`.
pub fn thumbnail_cache_path(cache_dir: &str, src: &str) -> (r: String)
    ensures
        r@ == crate::text::spec_path_join(cache_dir@, hex16(spec_default_hash(normalize_spec(src@))) + ".png"@),
{
    let key = normalize_path(src);
    let h = default_hash(key.as_str());
    let name = thumbnail_file_name(h);
    crate::text::path_join(cache_dir, name.as_str())
}

/// Threads that generate thumbnails: the machine's parallelism (4 if unknown),
/// at most 8 and at most one per file, at least 1.
pub fn thumbnail_workers(available: Option<usize>, n_paths: usize) -> (r: usize)
    ensures
        r == ({
            let a = match available {
                Some(x) => x,
                None => 4,
            };
            let b = if a < 8 { a } else { 8 };
            let c = if b < n_paths { b } else { n_paths };
            if c < 1 { 1 } else { c }
        }),
{
    let a = match available {
        Some(x) => x,
        None => 4,
    };
    let b = if a < 8 {
        a
    } else {
        8
    };
    let c = if b < n_paths {
        b
    } else {
        n_paths
    };
    if c < 1 {
        1
    } else {
        c
    }
}

// ───────────────────────── laws ─────────────────────────

/// Every folder that a scan lists is a custom folder or one that holds at least
/// one recording.
pub proof fn law_listed_folders_qualify(defaults: Seq<Seq<char>>, customs: Seq<Seq<char>>, scans: Seq<FolderScan>, i: int)
    requires
        0 <= i < merged_spec(customs, scans).0.filter(listed_pred()).len(),
    ensures
        ({
            let f = merged_spec(customs, scans).0.filter(listed_pred())[i];
            f.2 || f.3 > 0
        }),
{
    let recs = merged_spec(customs, scans).0;
    recs.lemma_filter_pred(listed_pred(), i);
}

/// The recordings of a scan come out newest first.
pub proof fn law_videos_newest_first(customs: Seq<Seq<char>>, scans: Seq<FolderScan>, a: int, b: int)
    requires
        0 <= a < b < scan_videos_spec(customs, scans).len(),
    ensures
        scan_videos_spec(customs, scans)[a].modified_ms >= scan_videos_spec(customs, scans)[b].modified_ms,
{
    let all = flatten(merged_spec(customs, scans).1);
    let keys = video_keys(all);
    crate::sorting::law_stable_order_sorted(all.len(), keys);
    let order = stable_order(all.len(), keys);
    crate::sorting::lemma_stable_order_in_range(all.len(), keys);
    assert(keys[order[a] as int] <= keys[order[b] as int]);
}

/// Two paths that differ only in which of `/` and `\` separates their parts
/// normalize to the same key.
pub proof fn law_separators_normalize_alike(p: Seq<char>, q: Seq<char>)
    requires
        p.len() == q.len(),
        forall|i: int| 0 <= i < p.len() ==> (#[trigger] p[i] == q[i]) || (p[i] == '/' && q[i] == '\\') || (p[i] == '\\' && q[i] == '/'),
    ensures
        normalize_spec(p) == normalize_spec(q),
{
    assert(backslashed(p) =~= backslashed(q));
}

proof fn lemma_sum_prefix(vs: Seq<RecordingVideo>, k: int)
    requires
        0 <= k < vs.len(),
    ensures
        sum_sizes(vs.subrange(0, k)) + vs[k].size <= sum_sizes(vs),
    decreases vs.len() - k,
{
    let pre = vs.subrange(0, k + 1);
    assert(pre.drop_last() =~= vs.subrange(0, k));
    if k + 1 < vs.len() {
        lemma_sum_prefix(vs, k + 1);
    } else {
        assert(pre =~= vs);
    }
}

} // verus!
