//! The rotating set of local files: which files are known, how much has been
//! appended to the newest, when it is time to open another, and which files
//! are retired then.
//!
//! The sink keeps the books only. Its caller opens, appends to and deletes the
//! files, and tells the sink what it did.

use vstd::prelude::*;
use std::collections::VecDeque;
use crate::format::{lemma_numbered_names_differ, numbered_file_name, numbered_file_name_of};

verus! {

/// The paths that a sequence of strings writes.
pub open spec fn paths_of(files: Seq<String>) -> Seq<Seq<char>> {
    files.map_values(|p: String| p@)
}

/// What a file sink knows, as plain values.
pub struct FileSinkView {
    /// The known files, oldest first. Once a file is open it is the last.
    pub files: Seq<Seq<char>>,
    /// The bytes appended to the newest file since it was opened.
    pub current_size: nat,
    /// Above this size the newest file is closed for another.
    pub max_file_size: nat,
    /// The number of files kept.
    pub max_files: nat,
}

impl FileSinkView {
    /// The known files and `path`, which is opened now, oldest first.
    pub open spec fn with_new(self, path: Seq<char>) -> Seq<Seq<char>> {
        self.files.push(path)
    }

    /// How many of the oldest files leave when `path` is opened.
    pub open spec fn surplus(self) -> nat {
        if self.files.len() + 1 > self.max_files {
            (self.files.len() + 1 - self.max_files) as nat
        } else {
            0
        }
    }

    /// The files retired when `path` is opened: the oldest ones beyond the
    /// number kept, oldest first.
    pub open spec fn retired(self, path: Seq<char>) -> Seq<Seq<char>> {
        self.with_new(path).subrange(0, self.surplus() as int)
    }

    /// The sink after `path` has been opened.
    pub open spec fn rotated(self, path: Seq<char>) -> FileSinkView {
        FileSinkView {
            files: self.with_new(path).subrange(self.surplus() as int, (self.files.len() + 1) as int),
            current_size: 0,
            max_file_size: self.max_file_size,
            max_files: self.max_files,
        }
    }

    /// The sink after `bytes` more bytes have been appended.
    pub open spec fn written(self, bytes: nat) -> FileSinkView {
        FileSinkView {
            files: self.files,
            current_size: self.current_size + bytes,
            max_file_size: self.max_file_size,
            max_files: self.max_files,
        }
    }

    /// Whether the newest file has outgrown the threshold.
    pub open spec fn over_threshold(self) -> bool {
        self.current_size > self.max_file_size
    }

    /// Whether no more files are known than are kept.
    pub open spec fn within_retention(self) -> bool {
        self.files.len() <= self.max_files
    }
}

/// The books of the rotating file store.
pub struct FileSink {
    files: VecDeque<String>,
    current_size: u64,
    max_file_size: u64,
    max_files: usize,
}

impl View for FileSink {
    type V = FileSinkView;

    closed spec fn view(&self) -> FileSinkView {
        FileSinkView {
            files: paths_of(self.files@),
            current_size: self.current_size as nat,
            max_file_size: self.max_file_size as nat,
            max_files: self.max_files as nat,
        }
    }
}

impl FileSink {
    /// A sink that knows the files `existing`, in that order, and has not
    /// opened one yet.
    pub fn new(max_file_size: u64, max_files: usize, existing: Vec<String>) -> (sink: FileSink)
        ensures
            sink@ == (FileSinkView {
                files: paths_of(existing@),
                current_size: 0,
                max_file_size: max_file_size as nat,
                max_files: max_files as nat,
            }),
    {
        let mut files: VecDeque<String> = VecDeque::new();
        let n: usize = existing.len();
        let mut i: usize = 0;
        while i < n
            invariant
                n == existing@.len(),
                i <= n,
                files@ == existing@.subrange(0, i as int),
            decreases n - i,
        {
            files.push_back(existing[i].clone());
            assert(files@ =~= existing@.subrange(0, i + 1));
            i += 1;
        }
        assert(files@ =~= existing@);
        FileSink { files, current_size: 0, max_file_size, max_files }
    }

    /// The number of known files.
    pub fn file_count(&self) -> (n: usize)
        ensures
            n == self@.files.len(),
    {
        self.files.len()
    }

    /// The bytes appended to the newest file since it was opened.
    pub fn current_size(&self) -> (n: u64)
        ensures
            n == self@.current_size,
    {
        self.current_size
    }

    /// The size above which the newest file is closed for another.
    pub fn max_file_size(&self) -> (n: u64)
        ensures
            n == self@.max_file_size,
    {
        self.max_file_size
    }

    /// The number of files kept.
    pub fn max_files(&self) -> (n: usize)
        ensures
            n == self@.max_files,
    {
        self.max_files
    }

    /// The known files, oldest first.
    pub fn files(&self) -> (list: Vec<String>)
        ensures
            paths_of(list@) == self@.files,
    {
        let mut list: Vec<String> = Vec::new();
        let n: usize = self.files.len();
        let mut i: usize = 0;
        while i < n
            invariant
                n == self.files@.len(),
                i <= n,
                list@ == self.files@.subrange(0, i as int),
            decreases n - i,
        {
            list.push(self.files[i].clone());
            assert(list@ =~= self.files@.subrange(0, i + 1));
            i += 1;
        }
        assert(list@ =~= self.files@);
        list
    }

    /// Whether the newest file has outgrown the threshold and another is due.
    pub fn needs_rotation(&self) -> (due: bool)
        ensures
            due == self@.over_threshold(),
    {
        self.current_size > self.max_file_size
    }

    /// Books `bytes` appended to the newest file and tells whether the file
    /// has outgrown the threshold with them, so that another is due.
    pub fn record_write(&mut self, bytes: u64) -> (due: bool)
        requires
            old(self)@.current_size + bytes <= u64::MAX,
        ensures
            final(self)@ == old(self)@.written(bytes as nat),
            due == final(self)@.over_threshold(),
            !old(self)@.over_threshold() ==> final(self)@.current_size <= final(self)@.max_file_size
                + bytes,
            old(self)@.within_retention() ==> final(self)@.within_retention(),
            final(self)@.current_size >= old(self)@.current_size,
    {
        self.current_size = self.current_size + bytes;
        self.current_size > self.max_file_size
    }

    /// Books that the file at `path` has been opened as the newest, and
    /// hands back the files to delete: the oldest ones beyond the number
    /// kept, oldest first.
    pub fn rotate(&mut self, path: String) -> (retired: Vec<String>)
        ensures
            final(self)@ == old(self)@.rotated(path@),
            paths_of(retired@) == old(self)@.retired(path@),
            final(self)@.within_retention(),
            final(self)@.current_size == 0,
            paths_of(retired@) + final(self)@.files == old(self)@.files.push(path@),
            old(self)@.max_files >= 1 ==> final(self)@.files.len() >= 1,
            old(self)@.max_files >= 1 ==> final(self)@.files.last() == path@,
    {
        let ghost before = self@;
        let ghost all = self.files@.push(path);
        self.files.push_back(path);
        self.current_size = 0;
        let mut retired: Vec<String> = Vec::new();
        while self.files.len() > self.max_files
            invariant
                self.max_files == before.max_files,
                self.max_file_size == before.max_file_size,
                self.current_size == 0,
                all.len() == before.files.len() + 1,
                retired@.len() + self.files@.len() == all.len(),
                retired@.len() <= before.surplus(),
                retired@ == all.subrange(0, retired@.len() as int),
                self.files@ == all.subrange(retired@.len() as int, all.len() as int),
            decreases self.files@.len(),
        {
            let ghost k = retired@.len() as int;
            let oldest = self.files.pop_front();
            match oldest {
                Some(p) => {
                    retired.push(p);
                    assert(retired@ =~= all.subrange(0, k + 1));
                    assert(self.files@ =~= all.subrange(k + 1, all.len() as int));
                },
                None => {},
            }
        }
        proof {
            let k = retired@.len() as int;
            assert(k == before.surplus());
            assert(paths_of(all) =~= before.with_new(path@));
            assert(paths_of(retired@) =~= paths_of(all).subrange(0, k));
            assert(paths_of(self.files@) =~= paths_of(all).subrange(k, all.len() as int));
            assert(paths_of(retired@) + paths_of(self.files@) =~= paths_of(all));
        }
        retired
    }
}

impl FileSinkView {
    /// The sink after `bytes` have been appended and, where the file has
    /// outgrown the threshold with them, `next_path` has been opened.
    pub open spec fn after_append(self, bytes: nat, next_path: Seq<char>) -> FileSinkView {
        if self.written(bytes).over_threshold() {
            self.written(bytes).rotated(next_path)
        } else {
            self.written(bytes)
        }
    }

    /// The sink after the appends `lines`, each given by its length and by the
    /// path to open if a rotation falls due after it.
    pub open spec fn after_appends(self, lines: Seq<(nat, Seq<char>)>) -> FileSinkView
        decreases lines.len(),
    {
        if lines.len() == 0 {
            self
        } else {
            self.after_appends(lines.drop_last()).after_append(lines.last().0, lines.last().1)
        }
    }
}

/// A rotation leaves no more files known than are kept, whatever was known
/// before, and the file it opened is the newest.
pub proof fn lemma_rotation_bound(sink: FileSinkView, path: Seq<char>)
    ensures
        sink.rotated(path).within_retention(),
        sink.rotated(path).current_size == 0,
        sink.max_files >= 1 ==> sink.rotated(path).files.len() >= 1 && sink.rotated(
            path,
        ).files.last() == path,
        sink.retired(path) + sink.rotated(path).files == sink.files.push(path),
{
    assert(sink.retired(path) + sink.rotated(path).files =~= sink.files.push(path));
}

/// A file that was within the threshold exceeds it by no more than the line
/// appended last, and the rotation that follows leaves the sink within the
/// threshold and within the number of files kept.
pub proof fn lemma_append_bounds(sink: FileSinkView, bytes: nat, next_path: Seq<char>)
    requires
        !sink.over_threshold(),
    ensures
        sink.written(bytes).current_size <= sink.max_file_size + bytes,
        !sink.after_append(bytes, next_path).over_threshold(),
        sink.within_retention() ==> sink.after_append(bytes, next_path).within_retention(),
{
}

/// Over any run of appends from a sink within the threshold, each followed
/// by a rotation where one is due: the sink stays within the threshold, the
/// file written last holds at most the threshold and the length of the last
/// line, and once the known files are within the number kept they stay so.
pub proof fn lemma_run_bounds(sink: FileSinkView, lines: Seq<(nat, Seq<char>)>)
    requires
        !sink.over_threshold(),
    ensures
        !sink.after_appends(lines).over_threshold(),
        sink.after_appends(lines).max_file_size == sink.max_file_size,
        sink.after_appends(lines).max_files == sink.max_files,
        sink.within_retention() ==> sink.after_appends(lines).within_retention(),
        lines.len() > 0 ==> sink.after_appends(lines.drop_last()).written(
            lines.last().0,
        ).current_size <= sink.max_file_size + lines.last().0,
    decreases lines.len(),
{
    if lines.len() > 0 {
        lemma_run_bounds(sink, lines.drop_last());
        lemma_append_bounds(sink.after_appends(lines.drop_last()), lines.last().0, lines.last().1);
    }
}

/// No file grows beyond the threshold by more than the longest line. Over a
/// run of appends from a sink within the threshold, each followed by a
/// rotation where one is due, and with no line longer than `longest`: the
/// file holds at most the threshold and `longest` after every append.
pub proof fn lemma_size_bound(sink: FileSinkView, lines: Seq<(nat, Seq<char>)>, longest: nat)
    requires
        !sink.over_threshold(),
        forall|i: int| 0 <= i < lines.len() ==> (#[trigger] lines[i]).0 <= longest,
    ensures
        forall|i: int|
            0 <= i < lines.len() ==> (#[trigger] sink.after_appends(lines.take(i))).written(
                lines[i].0,
            ).current_size <= sink.max_file_size + longest,
{
    assert forall|i: int| 0 <= i < lines.len() implies (#[trigger] sink.after_appends(
        lines.take(i),
    )).written(lines[i].0).current_size <= sink.max_file_size + longest by {
        let run = lines.take(i + 1);
        assert(run.drop_last() =~= lines.take(i));
        assert(run.last() == lines[i]);
        lemma_run_bounds(sink, run);
    }
}

/// Once the first file has been opened, no more files are known than are
/// kept, whatever was found at startup and whatever is appended afterwards.
pub proof fn lemma_retention_after_first_rotation(
    sink: FileSinkView,
    first_path: Seq<char>,
    lines: Seq<(nat, Seq<char>)>,
)
    ensures
        sink.rotated(first_path).after_appends(lines).within_retention(),
        !sink.rotated(first_path).after_appends(lines).over_threshold(),
{
    lemma_rotation_bound(sink, first_path);
    lemma_run_bounds(sink.rotated(first_path), lines);
}

/// Whether `incoming` more bytes would take a file of `current` bytes above
/// `limit`.
pub fn would_exceed(current: usize, incoming: usize, limit: u64) -> (yes: bool)
    ensures
        yes == (current + incoming > limit),
{
    match (current as u64).checked_add(incoming as u64) {
        Some(total) => total > limit,
        None => true,
    }
}

/// How many of `count` files are beyond the `keep` that stay.
pub fn excess_files(count: usize, keep: usize) -> (n: usize)
    ensures
        n == if count > keep {
            count - keep
        } else {
            0
        },
{
    if count > keep {
        count - keep
    } else {
        0
    }
}

impl FileSinkView {
    /// Whether the `k`-th name for `stamp` is the first that no known file
    /// has.
    pub open spec fn first_free(self, stamp: Seq<char>, k: nat) -> bool {
        &&& !self.files.contains(numbered_file_name_of(stamp, k))
        &&& forall|j: nat| j < k ==> self.files.contains(#[trigger] numbered_file_name_of(stamp, j))
    }
}

/// Where the known files have different names and the file opened has a
/// name that none of them has, the files known after the rotation have
/// different names too, and none of them is among the files to delete.
pub proof fn lemma_rotation_keeps_names_distinct(sink: FileSinkView, path: Seq<char>)
    requires
        sink.files.no_duplicates(),
        !sink.files.contains(path),
    ensures
        sink.rotated(path).files.no_duplicates(),
        forall|i: int|
            0 <= i < sink.retired(path).len() ==> !sink.rotated(path).files.contains(
                #[trigger] sink.retired(path)[i],
            ),
{
    let all = sink.with_new(path);
    let k = sink.surplus() as int;
    assert forall|a: int, b: int| 0 <= a < all.len() && 0 <= b < all.len() && a != b implies all[a]
        != all[b] by {
        if a < sink.files.len() && b < sink.files.len() {
            assert(sink.files[a] != sink.files[b]);
        } else if a < sink.files.len() {
            assert(sink.files[a] != path);
        } else {
            assert(sink.files[b] != path);
        }
    }
    let kept = sink.rotated(path).files;
    assert forall|a: int, b: int| 0 <= a < kept.len() && 0 <= b < kept.len() && a != b implies kept[a]
        != kept[b] by {
        assert(kept[a] == all[k + a]);
        assert(kept[b] == all[k + b]);
    }
    assert forall|i: int| 0 <= i < sink.retired(path).len() implies !kept.contains(
        #[trigger] sink.retired(path)[i],
    ) by {
        if kept.contains(sink.retired(path)[i]) {
            let j = choose|j: int| 0 <= j < kept.len() && kept[j] == sink.retired(path)[i];
            assert(kept[j] == all[k + j]);
            assert(sink.retired(path)[i] == all[i]);
        }
    }
}

/// Distinct numbers below `n` are at most `n` in count.
pub proof fn lemma_distinct_below(hits: Seq<int>, n: nat)
    requires
        forall|j: int| 0 <= j < hits.len() ==> 0 <= #[trigger] hits[j] < n,
        forall|a: int, b: int| 0 <= a < b < hits.len() ==> hits[a] != hits[b],
    ensures
        hits.len() <= n,
    decreases n,
{
    if hits.len() == 0 {
    } else if n == 0 {
        assert(hits[0] < n);
    } else if exists|p: int| 0 <= p < hits.len() && hits[p] == n - 1 {
        let p = choose|p: int| 0 <= p < hits.len() && hits[p] == n - 1;
        let rest = hits.remove(p);
        assert forall|j: int| 0 <= j < rest.len() implies 0 <= #[trigger] rest[j] < n - 1 by {
            if j < p {
                assert(rest[j] == hits[j]);
            } else {
                assert(rest[j] == hits[j + 1]);
            }
        }
        assert forall|a: int, b: int| 0 <= a < b < rest.len() implies rest[a] != rest[b] by {
            let ha = if a < p {
                a
            } else {
                a + 1
            };
            let hb = if b < p {
                b
            } else {
                b + 1
            };
            assert(rest[a] == hits[ha]);
            assert(rest[b] == hits[hb]);
        }
        lemma_distinct_below(rest, (n - 1) as nat);
    } else {
        lemma_distinct_below(hits, (n - 1) as nat);
    }
}

impl FileSink {
    /// Whether a file of this name is known.
    pub fn knows(&self, name: &String) -> (yes: bool)
        ensures
            yes == self@.files.contains(name@),
    {
        let n: usize = self.files.len();
        let mut i: usize = 0;
        while i < n
            invariant
                n == self.files@.len(),
                i <= n,
                forall|j: int| 0 <= j < i ==> self.files@[j]@ != name@,
            decreases n - i,
        {
            if self.files[i] == *name {
                assert(paths_of(self.files@)[i as int] == name@);
                return true;
            }
            i += 1;
        }
        assert forall|j: int| 0 <= j < paths_of(self.files@).len() implies paths_of(
            self.files@,
        )[j] != name@ by {
            assert(paths_of(self.files@)[j] == self.files@[j]@);
        }
        false
    }

    /// A name for the file to open at the time `stamp` that no known file
    /// has: the plain name `log_<stamp>.log` where it is free, else the first
    /// free one of `log_<stamp>_1.log`, `log_<stamp>_2.log` and so on. So two
    /// rotations within one second open two files.
    pub fn fresh_name(&self, stamp: &str) -> (name: String)
        ensures
            !self@.files.contains(name@),
            exists|k: nat| #[trigger]
                self@.first_free(stamp@, k) && name@ == numbered_file_name_of(stamp@, k),
    {
        let n: u128 = self.files.len() as u128;
        let mut k: u128 = 0;
        let ghost mut hits: Seq<int> = Seq::empty();
        while k <= n
            invariant
                n == self@.files.len(),
                n <= usize::MAX,
                k <= n + 1,
                hits.len() == k,
                forall|j: int|
                    0 <= j < k ==> 0 <= #[trigger] hits[j] < n && self@.files[hits[j]]
                        == numbered_file_name_of(stamp@, j as nat),
            decreases n + 1 - k,
        {
            let candidate = numbered_file_name(stamp, k);
            if !self.knows(&candidate) {
                proof {
                    assert forall|j: nat| j < k implies self@.files.contains(
                        #[trigger] numbered_file_name_of(stamp@, j),
                    ) by {
                        assert(self@.files[hits[j as int]] == numbered_file_name_of(stamp@, j));
                    }
                    assert(self@.first_free(stamp@, k as nat));
                }
                return candidate;
            }
            proof {
                let i = choose|i: int| 0 <= i < self@.files.len() && self@.files[i] == candidate@;
                hits = hits.push(i);
            }
            k += 1;
        }
        proof {
            assert forall|a: int, b: int| 0 <= a < b < hits.len() implies hits[a] != hits[b] by {
                lemma_numbered_names_differ(stamp@, a as nat, b as nat);
            }
            lemma_distinct_below(hits, n as nat);
        }
        String::new()
    }
}

/// The places in `created` of the files to delete, where `created` holds the
/// time each file was made at: the oldest beyond `keep`, oldest first.
pub fn oldest_beyond(created: &Vec<u64>, keep: usize) -> (doomed: Vec<usize>)
    ensures
        doomed@.len() == if created@.len() > keep {
            created@.len() - keep
        } else {
            0
        },
        forall|i: int| 0 <= i < doomed@.len() ==> #[trigger] doomed@[i] < created@.len(),
        forall|i: int, j: int|
            0 <= i < j < doomed@.len() ==> doomed@[i] != doomed@[j] && created@[doomed@[i] as int]
                <= created@[doomed@[j] as int],
        forall|i: int, k: int|
            #![trigger doomed@[i], created@[k]]
            0 <= i < doomed@.len() && 0 <= k < created@.len() && !doomed@.contains(k as usize)
                ==> created@[doomed@[i] as int] <= created@[k],
{
    let n: usize = created.len();
    let count: usize = excess_files(n, keep);
    let mut chosen: Vec<bool> = Vec::new();
    while chosen.len() < n
        invariant
            chosen@.len() <= n,
            forall|k: int| 0 <= k < chosen@.len() ==> !chosen@[k],
        decreases n - chosen@.len(),
    {
        chosen.push(false);
    }
    let mut doomed: Vec<usize> = Vec::new();
    while doomed.len() < count
        invariant
            n == created@.len(),
            chosen@.len() == n,
            count <= n,
            doomed@.len() <= count,
            forall|i: int|
                0 <= i < doomed@.len() ==> #[trigger] doomed@[i] < n && chosen@[doomed@[i] as int],
            forall|k: int| 0 <= k < n && #[trigger] chosen@[k] ==> doomed@.contains(k as usize),
            forall|i: int, j: int|
                0 <= i < j < doomed@.len() ==> doomed@[i] != doomed@[j] && created@[doomed@[i] as int]
                    <= created@[doomed@[j] as int],
            forall|i: int, k: int|
                #![trigger doomed@[i], created@[k]]
                0 <= i < doomed@.len() && 0 <= k < n && !chosen@[k] ==> created@[doomed@[i] as int]
                    <= created@[k],
        decreases count - doomed@.len(),
    {
        let mut best: Option<usize> = None;
        let mut j: usize = 0;
        while j < n
            invariant
                n == created@.len(),
                chosen@.len() == n,
                j <= n,
                match best {
                    Some(b) => b < j && !chosen@[b as int] && forall|k: int|
                        0 <= k < j && !chosen@[k] ==> created@[b as int] <= created@[k],
                    None => forall|k: int| 0 <= k < j ==> chosen@[k],
                },
            decreases n - j,
        {
            if !chosen[j] {
                match best {
                    Some(b) => {
                        if created[j] < created[b] {
                            best = Some(j);
                        }
                    },
                    None => {
                        best = Some(j);
                    },
                }
            }
            j += 1;
        }
        match best {
            Some(b) => {
                let ghost before = doomed@;
                chosen.set(b, true);
                doomed.push(b);
                proof {
                    assert forall|k: int| 0 <= k < n && #[trigger] chosen@[k] implies doomed@.contains(
                        k as usize,
                    ) by {
                        if k == b {
                            assert(doomed@[before.len() as int] == b);
                        } else {
                            let p = choose|p: int| 0 <= p < before.len() && before[p] == k as usize;
                            assert(doomed@[p] == k as usize);
                        }
                    }
                }
            },
            None => {
                proof {
                    let listed = doomed@;
                    let places = Seq::new(
                        n as nat,
                        |k: int| choose|p: int| 0 <= p < listed.len() && listed[p] == k as usize,
                    );
                    assert forall|k: int| 0 <= k < places.len() implies 0 <= #[trigger] places[k]
                        < listed.len() && listed[places[k]] == k as usize by {
                        assert(chosen@[k]);
                        assert(listed.contains(k as usize));
                    }
                    assert forall|a: int, b: int| 0 <= a < b < places.len() implies places[a]
                        != places[b] by {
                        assert(listed[places[a]] == a as usize);
                        assert(listed[places[b]] == b as usize);
                    }
                    lemma_distinct_below(places, listed.len());
                    assert(false);
                }
            },
        }
    }
    proof {
        assert forall|i: int, k: int|
            #![trigger doomed@[i], created@[k]]
            0 <= i < doomed@.len() && 0 <= k < created@.len() && !doomed@.contains(
                k as usize,
            ) implies created@[doomed@[i] as int] <= created@[k] by {
            if chosen@[k] {
                assert(doomed@.contains(k as usize));
            }
        }
    }
    doomed
}

} // verus!
