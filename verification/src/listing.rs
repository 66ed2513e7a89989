//! The directory scanner's pure half: which enumerated children are shown,
//! and in what order. Directories come first, and within each part the
//! enumeration order is kept. The enumeration itself (the directory read)
//! happens outside the library, which receives the children as plain values.

use vstd::prelude::*;
use crate::args::Flag;

verus! {

/// One enumerated child of the target directory: its path as text, and
/// whether it is a directory (`false` also when that could not be told).
#[derive(Debug, Clone, PartialEq, Eq)]
pub struct PathInfo {
    pub path: String,
    pub is_dir: bool,
}

/// The position of the last `/` in `s`, or `-1` when there is none.
pub open spec fn spec_last_slash(s: Seq<char>) -> int
    decreases s.len(),
{
    if s.len() == 0 {
        -1
    } else if s.last() == '/' {
        s.len() - 1
    } else {
        spec_last_slash(s.drop_last())
    }
}

proof fn lemma_last_slash_bounds(s: Seq<char>)
    ensures
        -1 <= spec_last_slash(s) < s.len(),
    decreases s.len(),
{
    if s.len() != 0 && s.last() != '/' {
        lemma_last_slash_bounds(s.drop_last());
    }
}

/// Whether the character at position `end - 1` is dropped while looking for
/// the final component: a `/`, or a `.` that is a whole component (at the
/// start of the text or right after a `/`).
pub open spec fn spec_trim_step(s: Seq<char>, end: int) -> bool
    recommends
        1 <= end <= s.len(),
{
    s[end - 1] == '/' || (s[end - 1] == '.' && (end == 1 || s[end - 2] == '/'))
}

/// The path text with trailing `/` separators and trailing bare `.`
/// components removed, the way a path's final component is found: `d/x/`
/// and `d/x/.` both name `x`. A trailing `..` component is kept.
pub open spec fn spec_trimmed(s: Seq<char>) -> Seq<char>
    decreases s.len(),
{
    if s.len() > 0 && spec_trim_step(s, s.len() as int) {
        spec_trimmed(s.drop_last())
    } else {
        s
    }
}

/// The final named component of a path written as text, as `Path::file_name`
/// finds it: trailing separators and bare `.` components are ignored, and
/// what remains after the last `/` is the name. Empty when there is none
/// (the result `..` does not count as a name: see `spec_has_file_name`).
pub open spec fn spec_file_name(s: Seq<char>) -> Seq<char> {
    let t = spec_trimmed(s);
    t.subrange(spec_last_slash(t) + 1, t.len() as int)
}

/// Whether the path has a final named component at all. The empty text,
/// `/`, `.` and a path ending in a `..` component have none.
pub open spec fn spec_has_file_name(s: Seq<char>) -> bool {
    spec_file_name(s).len() > 0 && spec_file_name(s) != seq!['.', '.']
}

/// Whether the path's final named component begins with `.` — the rule that
/// hides an entry from a default listing. A path without a named component
/// (`.`, `..`, `/`) is not hidden.
pub open spec fn spec_is_dotfile(s: Seq<char>) -> bool {
    spec_has_file_name(s) && spec_file_name(s)[0] == '.'
}

/// What a listing displays for a path: its final named component, or the
/// whole text for the degenerate paths that have none.
pub open spec fn spec_display_name(s: Seq<char>) -> Seq<char> {
    if spec_has_file_name(s) {
        spec_file_name(s)
    } else {
        s
    }
}

/// Whether the character before `end` is dropped while trimming.
fn trim_step(path: &str, end: usize) -> (r: bool)
    requires
        1 <= end <= path@.len(),
    ensures
        r == spec_trim_step(path@, end as int),
{
    let c = path.get_char(end - 1);
    if c == '/' {
        true
    } else if c == '.' {
        if end == 1 {
            true
        } else {
            path.get_char(end - 2) == '/'
        }
    } else {
        false
    }
}

/// The path's final named component, as `Path::file_name` finds it: `None`
/// for the empty text, `/`, `.` and a path ending in a `..` component.
pub fn file_name(path: &str) -> (r: Option<&str>)
    ensures
        r is Some <==> spec_has_file_name(path@),
        r matches Some(n) ==> n@ == spec_file_name(path@) && n@.len() > 0,
{
    let len = path.unicode_len();

    // Drop trailing separators and bare `.` components.
    let mut end: usize = len;
    proof {
        assert(path@.take(len as int) =~= path@);
    }
    while end > 0 && trim_step(path, end)
        invariant
            end <= len,
            len == path@.len(),
            spec_trimmed(path@) == spec_trimmed(path@.take(end as int)),
        decreases end,
    {
        proof {
            let t = path@.take(end as int);
            assert(t.drop_last() =~= path@.take(end - 1 as int));
            assert(t.last() == path@[end - 1]);
        }
        end = end - 1;
    }
    proof {
        if end == 0 {
            assert(path@.take(0) =~= Seq::<char>::empty());
        }
        assert(spec_trimmed(path@) == path@.take(end as int));
    }

    // Find the position after the last `/` of what is left.
    let mut i: usize = 0;
    let mut start: usize = 0;
    proof {
        assert(path@.take(0) =~= Seq::<char>::empty());
    }
    while i < end
        invariant
            i <= end <= len,
            len == path@.len(),
            start <= i,
            start as int == spec_last_slash(path@.take(i as int)) + 1,
        decreases end - i,
    {
        let c = path.get_char(i);
        proof {
            let t = path@.take(i + 1 as int);
            assert(t.drop_last() =~= path@.take(i as int));
            assert(t.last() == path@[i as int]);
        }
        if c == '/' {
            start = i + 1;
        }
        i = i + 1;
    }
    proof {
        lemma_last_slash_bounds(path@.take(end as int));
    }

    if start >= end {
        proof {
            assert(spec_file_name(path@).len() == 0);
        }
        None
    } else {
        proof {
            assert(spec_file_name(path@) =~= path@.subrange(start as int, end as int));
        }
        let is_parent = end - start == 2 && path.get_char(start) == '.' && path.get_char(
            start + 1,
        ) == '.';
        if is_parent {
            proof {
                assert(spec_file_name(path@) =~= seq!['.', '.']);
            }
            None
        } else {
            proof {
                assert(spec_file_name(path@) != seq!['.', '.']) by {
                    if spec_file_name(path@) =~= seq!['.', '.'] {
                        assert(path@[start as int] == '.' && path@[start as int + 1] == '.');
                    }
                }
            }
            Some(path.substring_char(start, end))
        }
    }
}

/// Whether the path's final named component begins with `.`.
pub fn is_dotfile(path: &str) -> (r: bool)
    ensures
        r == spec_is_dotfile(path@),
{
    match file_name(path) {
        Option::Some(n) => n.get_char(0) == '.',
        Option::None => false,
    }
}

/// The paths among the enumerated children that could be read at all: the
/// present values, in enumeration order.
pub open spec fn spec_present(s: Seq<Option<String>>) -> Seq<String>
    decreases s.len(),
{
    if s.len() == 0 {
        Seq::empty()
    } else {
        let p = spec_present(s.drop_last());
        match s.last() {
            Option::Some(x) => p.push(x),
            Option::None => p,
        }
    }
}

/// Keeps, in order, the children whose path could be produced; an
/// enumeration slot that failed (`None`) is skipped rather than aborting
/// the listing.
pub fn get_files_from_path(entries: Vec<Option<String>>) -> (r: Vec<String>)
    ensures
        r@ == spec_present(entries@),
{
    let ghost orig = entries@;
    let mut input = entries;
    let mut r: Vec<String> = Vec::new();
    let ghost mut k: int = 0;
    proof {
        assert(orig.take(0) =~= Seq::<Option<String>>::empty());
        assert(orig.skip(0) =~= orig);
    }
    while input.len() > 0
        invariant
            0 <= k <= orig.len(),
            input@ == orig.skip(k),
            r@ == spec_present(orig.take(k)),
        decreases input.len(),
    {
        let e = input.remove(0);
        proof {
            assert(e == orig[k]);
            assert(orig.skip(k).remove(0) =~= orig.skip(k + 1));
            assert(orig.take(k + 1).drop_last() =~= orig.take(k));
            assert(orig.take(k + 1).last() == orig[k]);
            k = k + 1;
        }
        match e {
            Option::Some(p) => {
                r.push(p);
            },
            Option::None => {},
        }
    }
    proof {
        assert(orig.take(k) =~= orig);
    }
    r
}

/// Whether an entry stays in the listing under the given hidden-entry
/// setting: everything stays when hidden entries were asked for, otherwise
/// only entries whose name does not begin with `.`.
pub open spec fn spec_keep(e: PathInfo, show_hidden: bool) -> bool {
    show_hidden || !spec_is_dotfile(e.path@)
}

/// The enumerated children that the listing shows, in enumeration order.
pub open spec fn spec_visible(s: Seq<PathInfo>, show_hidden: bool) -> Seq<PathInfo> {
    s.filter(|e: PathInfo| spec_keep(e, show_hidden))
}

/// The directory entries of `s`, in order.
pub open spec fn spec_dirs(s: Seq<PathInfo>) -> Seq<PathInfo> {
    s.filter(|e: PathInfo| e.is_dir)
}

/// The non-directory entries of `s`, in order.
pub open spec fn spec_others(s: Seq<PathInfo>) -> Seq<PathInfo> {
    s.filter(|e: PathInfo| !e.is_dir)
}

/// The listing shown for enumerated children `s`: the visible entries,
/// directories first, each part in enumeration order.
pub open spec fn spec_listing(s: Seq<PathInfo>, show_hidden: bool) -> Seq<PathInfo> {
    spec_dirs(spec_visible(s, show_hidden)) + spec_others(spec_visible(s, show_hidden))
}

/// Filtering a sequence extended by one element keeps the old filtered part
/// and appends the new element exactly when it satisfies the predicate.
proof fn lemma_filter_push<A>(s: Seq<A>, x: A, p: spec_fn(A) -> bool)
    ensures
        s.push(x).filter(p) == (if p(x) {
            s.filter(p).push(x)
        } else {
            s.filter(p)
        }),
{
    reveal(Seq::filter);
    assert(s.push(x).drop_last() =~= s);
    assert(s.push(x).last() == x);
}

/// How filtering acts on element counts: kept elements keep their
/// multiplicity, dropped elements leave none behind.
proof fn lemma_filter_count<A>(s: Seq<A>, p: spec_fn(A) -> bool, x: A)
    ensures
        s.filter(p).to_multiset().count(x) == (if p(x) {
            s.to_multiset().count(x)
        } else {
            0
        }),
    decreases s.len(),
{
    broadcast use vstd::seq_lib::group_to_multiset_ensures;
    broadcast use vstd::multiset::group_multiset_axioms;

    if s.len() == 0 {
        reveal(Seq::filter);
        assert(s.filter(p) =~= s);
        assert(!s.contains(x));
        assert(!s.filter(p).contains(x));
    } else {
        let q = s.drop_last();
        let y = s.last();
        lemma_filter_count(q, p, x);
        lemma_filter_push(q, y, p);
        assert(s =~= q.push(y));
        assert(q.push(y).to_multiset() =~= q.to_multiset().insert(y));
        if p(y) {
            assert(q.filter(p).push(y).to_multiset() =~= q.filter(p).to_multiset().insert(y));
        }
    }
}

/// A filter whose predicate holds of every element changes nothing.
proof fn lemma_filter_all<A>(s: Seq<A>, p: spec_fn(A) -> bool)
    requires
        forall|i: int| 0 <= i < s.len() ==> p(#[trigger] s[i]),
    ensures
        s.filter(p) == s,
    decreases s.len(),
{
    if s.len() == 0 {
        reveal(Seq::filter);
        assert(s.filter(p) =~= s);
    } else {
        let q = s.drop_last();
        let y = s.last();
        assert(forall|i: int| 0 <= i < q.len() ==> q[i] == s[i]);
        lemma_filter_all(q, p);
        lemma_filter_push(q, y, p);
        assert(s =~= q.push(y));
    }
}

/// A filter whose predicate holds of no element leaves nothing.
proof fn lemma_filter_none<A>(s: Seq<A>, p: spec_fn(A) -> bool)
    requires
        forall|i: int| 0 <= i < s.len() ==> !p(#[trigger] s[i]),
    ensures
        s.filter(p) == Seq::<A>::empty(),
    decreases s.len(),
{
    if s.len() == 0 {
        reveal(Seq::filter);
        assert(s.filter(p) =~= Seq::<A>::empty());
    } else {
        let q = s.drop_last();
        let y = s.last();
        assert(forall|i: int| 0 <= i < q.len() ==> q[i] == s[i]);
        lemma_filter_none(q, p);
        lemma_filter_push(q, y, p);
        assert(s =~= q.push(y));
    }
}

/// Every element of a filtered sequence occurs in the sequence it was
/// filtered from.
proof fn lemma_filter_elements<A>(s: Seq<A>, p: spec_fn(A) -> bool, i: int)
    requires
        0 <= i < s.filter(p).len(),
    ensures
        s.contains(s.filter(p)[i]),
    decreases s.len(),
{
    reveal(Seq::filter);
    if s.len() != 0 {
        let q = s.drop_last();
        let y = s.last();
        lemma_filter_push(q, y, p);
        assert(s =~= q.push(y));
        if i < q.filter(p).len() {
            lemma_filter_elements(q, p, i);
            let e = q.filter(p)[i];
            let j = choose|j: int| 0 <= j < q.len() && q[j] == e;
            assert(s[j] == e);
        } else {
            assert(s[s.len() - 1] == y);
        }
    }
}

/// How one more enumerated child changes the visible entries: it is
/// appended exactly when the hidden-entry rule keeps it.
proof fn lemma_visible_push(s: Seq<PathInfo>, x: PathInfo, show_hidden: bool)
    ensures
        spec_visible(s.push(x), show_hidden) == (if spec_keep(x, show_hidden) {
            spec_visible(s, show_hidden).push(x)
        } else {
            spec_visible(s, show_hidden)
        }),
{
    reveal(Seq::filter);
    assert(s.push(x).drop_last() =~= s);
    assert(s.push(x).last() == x);
}

/// How one more visible entry changes the two parts of the split: it is
/// appended to the directory part or to the other part, never both.
proof fn lemma_split_push(s: Seq<PathInfo>, x: PathInfo)
    ensures
        spec_dirs(s.push(x)) == (if x.is_dir {
            spec_dirs(s).push(x)
        } else {
            spec_dirs(s)
        }),
        spec_others(s.push(x)) == (if !x.is_dir {
            spec_others(s).push(x)
        } else {
            spec_others(s)
        }),
{
    reveal(Seq::filter);
    assert(s.push(x).drop_last() =~= s);
    assert(s.push(x).last() == x);
}

/// The empty enumeration shows nothing and splits into two empty parts.
proof fn lemma_empty_parts(show_hidden: bool)
    ensures
        spec_visible(Seq::<PathInfo>::empty(), show_hidden) == Seq::<PathInfo>::empty(),
        spec_dirs(Seq::<PathInfo>::empty()) == Seq::<PathInfo>::empty(),
        spec_others(Seq::<PathInfo>::empty()) == Seq::<PathInfo>::empty(),
{
    reveal(Seq::filter);
    assert(spec_visible(Seq::<PathInfo>::empty(), show_hidden) =~= Seq::<PathInfo>::empty());
    assert(spec_dirs(Seq::<PathInfo>::empty()) =~= Seq::<PathInfo>::empty());
    assert(spec_others(Seq::<PathInfo>::empty()) =~= Seq::<PathInfo>::empty());
}

/// Keeps the entries the mode shows and orders directories before
/// everything else; within each part the input order is preserved.
pub fn filter_files(files: Vec<PathInfo>, flag: &Flag) -> (r: Vec<PathInfo>)
    ensures
        r@ == spec_listing(files@, flag.spec_shows_hidden()),
{
    let show = flag.shows_hidden();
    let ghost orig = files@;

    // Keep the visible entries, in order.
    let mut input = files;
    let mut visible: Vec<PathInfo> = Vec::new();
    let ghost mut k: int = 0;
    proof {
        lemma_empty_parts(show);
        assert(orig.take(0) =~= Seq::<PathInfo>::empty());
        assert(orig.skip(0) =~= orig);
    }
    while input.len() > 0
        invariant
            0 <= k <= orig.len(),
            input@ == orig.skip(k),
            visible@ == spec_visible(orig.take(k), show),
        decreases input.len(),
    {
        let e = input.remove(0);
        proof {
            assert(e == orig[k]);
            assert(orig.skip(k).remove(0) =~= orig.skip(k + 1));
            assert(orig.take(k + 1) =~= orig.take(k).push(orig[k]));
            lemma_visible_push(orig.take(k), orig[k], show);
            k = k + 1;
        }
        if show || !is_dotfile(e.path.as_str()) {
            visible.push(e);
        }
    }
    proof {
        assert(orig.take(k) =~= orig);
    }

    // Split the visible entries into directories and the rest, keeping
    // their order.
    let ghost vis = visible@;
    let mut rest = visible;
    let mut dirs: Vec<PathInfo> = Vec::new();
    let mut others: Vec<PathInfo> = Vec::new();
    let ghost mut j: int = 0;
    proof {
        lemma_empty_parts(show);
        assert(vis.take(0) =~= Seq::<PathInfo>::empty());
        assert(vis.skip(0) =~= vis);
    }
    while rest.len() > 0
        invariant
            0 <= j <= vis.len(),
            rest@ == vis.skip(j),
            dirs@ == spec_dirs(vis.take(j)),
            others@ == spec_others(vis.take(j)),
        decreases rest.len(),
    {
        let e = rest.remove(0);
        proof {
            assert(e == vis[j]);
            assert(vis.skip(j).remove(0) =~= vis.skip(j + 1));
            assert(vis.take(j + 1) =~= vis.take(j).push(vis[j]));
            lemma_split_push(vis.take(j), vis[j]);
            j = j + 1;
        }
        if e.is_dir {
            dirs.push(e);
        } else {
            others.push(e);
        }
    }
    proof {
        assert(vis.take(j) =~= vis);
    }

    let mut r = dirs;
    r.append(&mut others);
    r
}

/// A position splitting a listing into a directory part and a
/// non-directory part.
pub open spec fn spec_partition_point(s: Seq<PathInfo>, k: int) -> bool {
    &&& 0 <= k <= s.len()
    &&& forall|i: int| 0 <= i < k ==> (#[trigger] s[i]).is_dir
    &&& forall|i: int| k <= i < s.len() ==> !(#[trigger] s[i]).is_dir
}

/// Every listing is partitioned: some position has all directories before
/// it and no directory at or after it.
pub proof fn lemma_listing_partitioned(files: Seq<PathInfo>, show_hidden: bool)
    ensures
        exists|k: int| #[trigger] spec_partition_point(spec_listing(files, show_hidden), k),
{
    broadcast use vstd::seq_lib::group_filter_ensures;

    let vis = spec_visible(files, show_hidden);
    let d = spec_dirs(vis);
    let o = spec_others(vis);
    let s = spec_listing(files, show_hidden);
    let k = d.len() as int;
    assert forall|i: int| 0 <= i < k implies (#[trigger] s[i]).is_dir by {
        assert(s[i] == d[i]);
    }
    assert forall|i: int| k <= i < s.len() implies !(#[trigger] s[i]).is_dir by {
        assert(s[i] == o[i - k]);
    }
    assert(spec_partition_point(s, k));
}

/// The listing holds exactly the children the mode shows: each child the
/// hidden-entry rule keeps appears exactly as often as it was enumerated,
/// and nothing else appears — no duplicates, no omissions.
pub proof fn lemma_listing_counts(files: Seq<PathInfo>, show_hidden: bool)
    ensures
        forall|e: PathInfo|
            #[trigger] spec_listing(files, show_hidden).to_multiset().count(e) == (
            if spec_keep(e, show_hidden) {
                files.to_multiset().count(e)
            } else {
                0
            }),
{
    broadcast use vstd::seq_lib::group_to_multiset_ensures;
    broadcast use vstd::multiset::group_multiset_axioms;

    let p = |e: PathInfo| spec_keep(e, show_hidden);
    let pd = |e: PathInfo| e.is_dir;
    let po = |e: PathInfo| !e.is_dir;
    let vis = spec_visible(files, show_hidden);
    let d = spec_dirs(vis);
    let o = spec_others(vis);
    assert forall|e: PathInfo|
        #[trigger] spec_listing(files, show_hidden).to_multiset().count(e) == (
        if spec_keep(e, show_hidden) {
            files.to_multiset().count(e)
        } else {
            0
        }) by {
        vstd::seq_lib::lemma_multiset_commutative(d, o);
        lemma_filter_count(vis, pd, e);
        lemma_filter_count(vis, po, e);
        lemma_filter_count(files, p, e);
    }
}

/// A hidden child (final path component beginning with `.`) appears in the
/// listing exactly when hidden entries were asked for and it was
/// enumerated.
pub proof fn lemma_hidden_iff(files: Seq<PathInfo>, show_hidden: bool, e: PathInfo)
    requires
        spec_is_dotfile(e.path@),
    ensures
        spec_listing(files, show_hidden).contains(e) <==> (show_hidden && files.contains(e)),
{
    broadcast use vstd::seq_lib::group_to_multiset_ensures;

    lemma_listing_counts(files, show_hidden);
    let s = spec_listing(files, show_hidden);
    assert(s.contains(e) <==> s.to_multiset().count(e) > 0);
    assert(files.contains(e) <==> files.to_multiset().count(e) > 0);
}

/// Every entry of a listing passes the hidden-entry rule that produced it.
proof fn lemma_listing_all_keep(files: Seq<PathInfo>, show_hidden: bool)
    ensures
        forall|i: int|
            0 <= i < spec_listing(files, show_hidden).len() ==> spec_keep(
                #[trigger] spec_listing(files, show_hidden)[i],
                show_hidden,
            ),
{
    broadcast use vstd::seq_lib::group_filter_ensures;

    let p = |e: PathInfo| spec_keep(e, show_hidden);
    let pd = |e: PathInfo| e.is_dir;
    let po = |e: PathInfo| !e.is_dir;
    let vis = spec_visible(files, show_hidden);
    let d = spec_dirs(vis);
    let o = spec_others(vis);
    let s = spec_listing(files, show_hidden);
    assert forall|i: int| 0 <= i < s.len() implies spec_keep(#[trigger] s[i], show_hidden) by {
        if i < d.len() {
            assert(s[i] == d[i]);
            lemma_filter_elements(vis, pd, i);
        } else {
            assert(s[i] == o[i - d.len()]);
            lemma_filter_elements(vis, po, i - d.len());
        }
        let e = s[i];
        let j = choose|j: int| 0 <= j < vis.len() && vis[j] == e;
        assert(p(vis[j]));
    }
}

/// Filtering a listing by the rule that produced it changes nothing.
proof fn lemma_visible_of_listing(files: Seq<PathInfo>, show_hidden: bool)
    ensures
        spec_visible(spec_listing(files, show_hidden), show_hidden) == spec_listing(
            files,
            show_hidden,
        ),
{
    let p = |e: PathInfo| spec_keep(e, show_hidden);
    let s = spec_listing(files, show_hidden);
    lemma_listing_all_keep(files, show_hidden);
    assert(forall|i: int| 0 <= i < s.len() ==> p(#[trigger] s[i]));
    lemma_filter_all(s, p);
}

/// Splitting an already-split sequence changes nothing.
proof fn lemma_split_of_listing(files: Seq<PathInfo>, show_hidden: bool)
    ensures
        spec_dirs(spec_listing(files, show_hidden)) == spec_dirs(spec_visible(files, show_hidden)),
        spec_others(spec_listing(files, show_hidden)) == spec_others(
            spec_visible(files, show_hidden),
        ),
{
    broadcast use vstd::seq_lib::group_filter_ensures;

    let pd = |e: PathInfo| e.is_dir;
    let po = |e: PathInfo| !e.is_dir;
    let vis = spec_visible(files, show_hidden);
    let d = spec_dirs(vis);
    let o = spec_others(vis);
    Seq::filter_distributes_over_add(d, o, pd);
    Seq::filter_distributes_over_add(d, o, po);
    lemma_filter_all(d, pd);
    lemma_filter_none(o, pd);
    lemma_filter_none(d, po);
    lemma_filter_all(o, po);
    assert(spec_dirs(d + o) =~= d);
    assert(spec_others(d + o) =~= o);
}

/// Listing an already-listed sequence changes nothing: the scan is
/// idempotent.
pub proof fn lemma_listing_idempotent(files: Seq<PathInfo>, show_hidden: bool)
    ensures
        spec_listing(spec_listing(files, show_hidden), show_hidden) == spec_listing(
            files,
            show_hidden,
        ),
{
    lemma_visible_of_listing(files, show_hidden);
    lemma_split_of_listing(files, show_hidden);
}

} // verus!
