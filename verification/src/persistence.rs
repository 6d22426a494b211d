//! High-score table and the naming rules of the score files.
//!
//! The table keeps its entries ordered by descending score.  The files
//! live in one data directory: `scores.json`, and time-stamped backups
//! `scores.json.corrupt.<secs>[-<n>]` of files that could not be read, of
//! which at most five are kept.  Reading and writing the files is the
//! caller's work; the decisions about names and backups are made here.

use vstd::prelude::*;

use crate::text::{decimal, push_char, push_decimal, push_str, same_text, starts_with};

verus! {

// ── error type ────────────────────────────────────────────────────────────

/// A JSON error from `serde_json`, carried by `PersistenceError`.
#[verifier::external_type_specification]
#[verifier::external_body]
pub struct ExJsonError(serde_json::Error);

/// Why the scores could not be read or written.
#[derive(Debug)]
pub enum PersistenceError {
    /// The home directory could not be determined.
    NoHome,
    /// The data directory is a symlink — refused.
    UnsafeSymlink,
    /// The data directory grants group or other permissions — refused.
    UnsafeGroupOrOther,
    /// The data directory is owned by another user.
    WrongOwner,
    Io(std::io::Error),
    Json(serde_json::Error),
}

/// Checks that a directory is safe to use as the data directory, given
/// what its metadata says: whether it is a symlink, its permission bits,
/// its owner, and the current user.
///
/// Returns `Ok(())` if and only if it is not a symlink, grants nothing to
/// group and others (`mode & 0o077 == 0`), and is owned by the current
/// user; otherwise the first of these that fails names the error.
pub fn check_dir_safety(is_symlink: bool, mode: u32, owner: u32, me: u32) -> (r: Result<(), PersistenceError>)
    ensures
        is_symlink ==> r matches Err(PersistenceError::UnsafeSymlink),
        !is_symlink && mode & 0o077 != 0 ==> r matches Err(PersistenceError::UnsafeGroupOrOther),
        !is_symlink && mode & 0o077 == 0 && owner != me ==> r matches Err(PersistenceError::WrongOwner),
        !is_symlink && mode & 0o077 == 0 && owner == me ==> r is Ok,
{
    if is_symlink {
        return Err(PersistenceError::UnsafeSymlink);
    }
    // Group+other permissions check.
    if mode & 0o077 != 0 {
        return Err(PersistenceError::UnsafeGroupOrOther);
    }
    // Owner check.
    if owner != me {
        return Err(PersistenceError::WrongOwner);
    }
    Ok(())
}

// ── data types ────────────────────────────────────────────────────────────

/// A single high-score entry.
#[derive(Debug, Clone)]
pub struct HighScore {
    pub name: String,
    pub score: u32,
    pub level: u8,
    pub lines: u32,
    /// Unix timestamp (seconds) when the score was recorded.
    pub ts: u64,
}

/// In-memory store of high scores, ordered descending by `score`.
#[derive(Debug)]
pub struct HighScoreStore {
    scores: Vec<HighScore>,
}

impl View for HighScoreStore {
    type V = Seq<HighScore>;

    closed spec fn view(&self) -> Seq<HighScore> {
        self.scores@
    }
}

/// Scores never rise along the table.
pub open spec fn sorted_desc(s: Seq<HighScore>) -> bool {
    forall|i: int, j: int| 0 <= i <= j < s.len() ==> s[i].score >= s[j].score
}

/// The best score recorded under `name`, if any.
pub open spec fn best_of(s: Seq<HighScore>, name: Seq<char>) -> Option<u32>
    decreases s.len(),
{
    if s.len() == 0 {
        None
    } else {
        let rest = best_of(s.drop_last(), name);
        if s.last().name@ == name {
            match rest {
                Some(b) => if s.last().score > b {
                    Some(s.last().score)
                } else {
                    Some(b)
                },
                None => Some(s.last().score),
            }
        } else {
            rest
        }
    }
}

/// Whether `score` is a personal best against the earlier best `prev`: a
/// name's first score always is, a later one when it beats the best.
pub open spec fn beats(score: u32, prev: Option<u32>) -> bool {
    match prev {
        Some(b) => score > b,
        None => true,
    }
}

/// The best score of `name` is the highest score recorded under it: there
/// is one exactly when some entry has that name, it is the score of such
/// an entry, and no entry of that name scores more.
pub proof fn lemma_best_of_is_highest(s: Seq<HighScore>, name: Seq<char>)
    ensures
        best_of(s, name) is None <==> forall|i: int| 0 <= i < s.len() ==> #[trigger] s[i].name@ != name,
        best_of(s, name) is Some ==> exists|i: int|
            0 <= i < s.len() && #[trigger] s[i].name@ == name && s[i].score == best_of(s, name)->0,
        best_of(s, name) is Some ==> forall|i: int|
            0 <= i < s.len() && #[trigger] s[i].name@ == name ==> s[i].score <= best_of(s, name)->0,
    decreases s.len(),
{
    if s.len() > 0 {
        let t = s.drop_last();
        lemma_best_of_is_highest(t, name);
        assert forall|i: int| 0 <= i < t.len() implies #[trigger] t[i] == s[i] by {}
        let n = s.len() - 1;
        assert(s[n] == s.last());
        if best_of(t, name) is Some {
            let j = choose|j: int|
                0 <= j < t.len() && #[trigger] t[j].name@ == name && t[j].score == best_of(t, name)->0;
            assert(s[j] == t[j]);
        }
        if best_of(s, name) is None {
            assert forall|i: int| 0 <= i < s.len() implies #[trigger] s[i].name@ != name by {
                if i < n {
                    assert(t[i] == s[i]);
                }
            }
        }
        assert forall|i: int| 0 <= i < s.len() && #[trigger] s[i].name@ == name implies s[i].score
            <= best_of(s, name)->0 by {
            if i < n {
                assert(t[i] == s[i]);
                assert(t[i].name@ == name);
            }
        }
    }
}

/// A score is a personal best exactly when it beats every score already
/// recorded under the same name (so a name's first score always is).
pub proof fn lemma_personal_best(s: Seq<HighScore>, name: Seq<char>, score: u32)
    ensures
        beats(score, best_of(s, name)) <==> forall|i: int|
            0 <= i < s.len() && #[trigger] s[i].name@ == name ==> score > s[i].score,
{
    lemma_best_of_is_highest(s, name);
    if best_of(s, name) is Some {
        let j = choose|j: int|
            0 <= j < s.len() && #[trigger] s[j].name@ == name && s[j].score == best_of(s, name)->0;
        assert(s[j].name@ == name);
    }
}

/// Where a new score goes: before the first entry that scores less, or at
/// the end.
pub open spec fn insert_pos(s: Seq<HighScore>, score: u32) -> int
    decreases s.len(),
{
    if s.len() == 0 {
        0
    } else if s[0].score < score {
        0
    } else {
        1 + insert_pos(s.drop_first(), score)
    }
}

/// The insert position is in range, everything before it scores at least
/// `score`, and the entry at it (if any) scores less.
proof fn lemma_insert_pos(s: Seq<HighScore>, score: u32)
    ensures
        0 <= insert_pos(s, score) <= s.len(),
        forall|i: int| 0 <= i < insert_pos(s, score) ==> #[trigger] s[i].score >= score,
        insert_pos(s, score) < s.len() ==> s[insert_pos(s, score)].score < score,
    decreases s.len(),
{
    if s.len() > 0 && s[0].score >= score {
        let t = s.drop_first();
        lemma_insert_pos(t, score);
        assert forall|i: int| 0 <= i < insert_pos(s, score) implies #[trigger] s[i].score
            >= score by {
            if i > 0 {
                assert(s[i] == t[i - 1]);
            }
        }
    }
}

impl HighScoreStore {
    /// Creates an empty store.
    pub fn new() -> (s: Self)
        ensures
            s@ == Seq::<HighScore>::empty(),
    {
        HighScoreStore { scores: Vec::new() }
    }

    /// A store holding `scores` as given.
    pub fn from_entries(scores: Vec<HighScore>) -> (s: Self)
        ensures
            s@ == scores@,
    {
        HighScoreStore { scores }
    }

    /// All entries, best first.
    pub fn entries(&self) -> (e: &[HighScore])
        ensures
            e@ == self@,
    {
        self.scores.as_slice()
    }

    /// Returns the top `n` scores (already sorted descending).
    pub fn top(&self, n: usize) -> (t: &[HighScore])
        ensures
            t@ == self@.subrange(0, if n < self@.len() { n as int } else { self@.len() as int }),
    {
        let end = if n < self.scores.len() {
            n
        } else {
            self.scores.len()
        };
        let (head, _) = self.scores.as_slice().split_at(end);
        head
    }

    /// Inserts a score in sorted position.
    ///
    /// Returns `true` if this is a new personal best for the name (i.e. it
    /// is higher than every score that name has recorded in this store, or
    /// the name has none yet).
    pub fn insert(&mut self, score: HighScore) -> (best: bool)
        ensures
            final(self)@ == old(self)@.insert(insert_pos(old(self)@, score.score), score),
            best == beats(score.score, best_of(old(self)@, score.name@)),
            best == forall|i: int|
                0 <= i < old(self)@.len() && #[trigger] old(self)@[i].name@ == score.name@
                    ==> score.score > old(self)@[i].score,
            sorted_desc(old(self)@) ==> sorted_desc(final(self)@),
    {
        let ghost pre = self.scores@;
        // Find the previous best for this name.
        let mut prev_best: Option<u32> = None;
        let mut i: usize = 0;
        while i < self.scores.len()
            invariant
                i <= self.scores@.len(),
                self.scores@ == pre,
                prev_best == best_of(pre.subrange(0, i as int), score.name@),
            decreases self.scores@.len() - i,
        {
            let e = &self.scores[i];
            proof {
                assert(pre.subrange(0, i + 1).drop_last() =~= pre.subrange(0, i as int));
            }
            if e.name == score.name {
                prev_best = match prev_best {
                    Some(b) => if e.score > b {
                        Some(e.score)
                    } else {
                        Some(b)
                    },
                    None => Some(e.score),
                };
            }
            i = i + 1;
        }
        assert(pre.subrange(0, pre.len() as int) =~= pre);
        // Insert before the first entry with a lower score.
        let mut pos: usize = 0;
        while pos < self.scores.len() && self.scores[pos].score >= score.score
            invariant
                pos <= self.scores@.len(),
                self.scores@ == pre,
                insert_pos(pre, score.score) == pos + insert_pos(pre.subrange(pos as int, pre.len() as int), score.score),
            decreases self.scores@.len() - pos,
        {
            proof {
                let rest = pre.subrange(pos as int, pre.len() as int);
                assert(rest.drop_first() =~= pre.subrange(pos + 1, pre.len() as int));
            }
            pos = pos + 1;
        }
        proof {
            let rest = pre.subrange(pos as int, pre.len() as int);
            assert(insert_pos(rest, score.score) == 0);
        }
        let new_score = score.score;
        proof {
            lemma_personal_best(pre, score.name@, new_score);
            if sorted_desc(pre) {
                lemma_insert_keeps_order(pre, score);
            }
        }
        self.scores.insert(pos, score);
        match prev_best {
            Some(b) => new_score > b,
            None => true,
        }
    }
}

impl HighScoreStore {
    /// The store to play with, given the outcome of loading it: the loaded
    /// store, or on any error an empty store plus the error so the caller
    /// can warn about the degraded mode.
    pub fn new_with_fallback(loaded: Result<HighScoreStore, PersistenceError>) -> (r: (
        HighScoreStore,
        Option<PersistenceError>,
    ))
        ensures
            match loaded {
                Ok(s) => r.0@ == s@ && r.1 is None,
                Err(e) => r.0@ == Seq::<HighScore>::empty() && r.1 == Some(e),
            },
    {
        match loaded {
            Ok(store) => (store, None),
            Err(e) => (HighScoreStore::new(), Some(e)),
        }
    }
}

impl Default for HighScoreStore {
    fn default() -> (s: Self)
        ensures
            s@ == Seq::<HighScore>::empty(),
    {
        Self::new()
    }
}

/// Inserting never lets a lower score rank above a higher one.
pub proof fn lemma_insert_keeps_order(s: Seq<HighScore>, h: HighScore)
    requires
        sorted_desc(s),
    ensures
        sorted_desc(s.insert(insert_pos(s, h.score), h)),
{
    lemma_insert_pos(s, h.score);
    let pos = insert_pos(s, h.score);
    let post = s.insert(pos, h);
    assert forall|a: int, b: int| 0 <= a <= b < post.len() implies post[a].score
        >= post[b].score by {
        if a < pos && b > pos {
            assert(post[b] == s[b - 1]);
        } else if a > pos {
            assert(post[a] == s[a - 1] && post[b] == s[b - 1]);
        } else if a == pos && b > pos {
            assert(post[b] == s[b - 1]);
        }
    }
}

// ── file names ────────────────────────────────────────────────────────────

/// The canonical file name inside the data directory.
pub const SCORES_FILE: &'static str = "scores.json";

/// How many corrupt-file backups are kept.
pub const MAX_CORRUPT_BACKUPS: usize = 5;

/// `dir` joined with `name`: a `/` goes between them unless `dir` is empty
/// or already ends with one.
pub open spec fn joined(dir: Seq<char>, name: Seq<char>) -> Seq<char> {
    if dir.len() == 0 {
        name
    } else if dir.last() == '/' {
        dir + name
    } else {
        dir + seq!['/'] + name
    }
}

/// Returns the canonical path of the scores file given the data dir.
pub fn scores_path(dir: &str) -> (p: String)
    ensures
        p@ == joined(dir@, SCORES_FILE@),
{
    let mut p = String::new();
    push_str(&mut p, dir);
    let n = dir.unicode_len();
    if n > 0 && dir.get_char(n - 1) != '/' {
        push_char(&mut p, '/');
    }
    push_str(&mut p, SCORES_FILE);
    assert(p@ =~= joined(dir@, SCORES_FILE@));
    p
}

/// The `k`-th name tried for the backup of the corrupt file `base` at
/// `secs`: `<base>.corrupt.<secs>`, then `<base>.corrupt.<secs>-<k>`.
pub open spec fn corrupt_candidate(base: Seq<char>, secs: u64, k: nat) -> Seq<char> {
    let stem = base + ".corrupt."@ + decimal(secs as nat);
    if k == 0 {
        stem
    } else {
        stem + seq!['-'] + decimal(k)
    }
}

/// The `k`-th backup name candidate.
fn candidate(base: &str, secs: u64, k: u64) -> (c: String)
    ensures
        c@ == corrupt_candidate(base@, secs, k as nat),
{
    let mut c = String::new();
    push_str(&mut c, base);
    push_str(&mut c, ".corrupt.");
    push_decimal(&mut c, secs);
    if k > 0 {
        push_char(&mut c, '-');
        push_decimal(&mut c, k);
    }
    assert(c@ =~= corrupt_candidate(base@, secs, k as nat));
    c
}

/// Whether `name` is one of `taken`.
fn is_taken(name: &String, taken: &[String]) -> (t: bool)
    ensures
        t == among(taken@, name@),
{
    let mut i: usize = 0;
    while i < taken.len()
        invariant
            i <= taken@.len(),
            forall|j: int| 0 <= j < i ==> #[trigger] taken@[j]@ != name@,
        decreases taken@.len() - i,
    {
        if taken[i] == *name {
            return true;
        }
        i = i + 1;
    }
    false
}

/// Whether `name` is one of the names in `taken`.
pub open spec fn among(taken: Seq<String>, name: Seq<char>) -> bool {
    exists|i: int| 0 <= i < taken.len() && #[trigger] taken[i]@ == name
}

/// `c` is candidate `k` for the backup of `base` at `secs`, it is free,
/// and every earlier candidate is taken.
pub open spec fn first_free(base: Seq<char>, secs: u64, taken: Seq<String>, k: nat, c: Seq<char>) -> bool {
    &&& c == corrupt_candidate(base, secs, k)
    &&& !among(taken, c)
    &&& forall|j: nat| j < k ==> among(taken, #[trigger] corrupt_candidate(base, secs, j))
}

/// Different counters give different backup names.
proof fn lemma_candidates_differ(base: Seq<char>, secs: u64, j: nat, k: nat)
    requires
        corrupt_candidate(base, secs, j) == corrupt_candidate(base, secs, k),
    ensures
        j == k,
{
    let stem = base + ".corrupt."@ + decimal(secs as nat);
    if j > 0 && k > 0 {
        let cj = corrupt_candidate(base, secs, j);
        assert(cj.subrange(stem.len() as int + 1, cj.len() as int) =~= decimal(j));
        assert(cj.subrange(stem.len() as int + 1, cj.len() as int) =~= decimal(k));
        crate::text::lemma_decimal_injective(j, k);
    } else if j > 0 || k > 0 {
        assert(corrupt_candidate(base, secs, j).len() != corrupt_candidate(base, secs, k).len());
    }
}

/// Among the first `taken.len() + 1` backup names, one is not taken.
proof fn lemma_some_candidate_free(base: Seq<char>, secs: u64, taken: Seq<String>)
    ensures
        exists|j: nat| j <= taken.len() && !among(taken, #[trigger] corrupt_candidate(base, secs, j)),
{
    let n = taken.len() as int;
    if forall|j: nat| j <= taken.len() ==> among(taken, #[trigger] corrupt_candidate(base, secs, j)) {
        // Each candidate sits at some index of `taken`; distinct candidates
        // sit at distinct indices, and n + 1 of them do not fit in n.
        let f = |j: int|
            choose|i: int| 0 <= i < n && #[trigger] taken[i]@ == corrupt_candidate(base, secs, j as nat);
        let xs = vstd::set_lib::set_int_range(0, n + 1);
        let ys = xs.map(f);
        vstd::set_lib::lemma_int_range(0, n + 1);
        vstd::set_lib::lemma_int_range(0, n);
        assert forall|j: int| xs.contains(j) implies 0 <= #[trigger] f(j) < n && taken[f(j)]@
            == corrupt_candidate(base, secs, j as nat) by {
            assert(among(taken, corrupt_candidate(base, secs, j as nat)));
        }
        assert(vstd::relations::injective_on(f, xs)) by {
            assert forall|a: int, b: int| xs.contains(a) && xs.contains(b) && #[trigger] f(a) == #[trigger] f(b) implies a == b by {
                lemma_candidates_differ(base, secs, a as nat, b as nat);
            }
        }
        vstd::set_lib::lemma_map_size(xs, ys, f);
        assert(ys.subset_of(vstd::set_lib::set_int_range(0, n)));
        vstd::set_lib::lemma_len_subset(ys, vstd::set_lib::set_int_range(0, n));
        assert(false);
    }
}

/// Returns a backup name for the corrupt file `base` that is not among
/// `taken` (the paths that already exist), found at `secs` seconds past
/// the epoch.
///
/// Tries `<base>.corrupt.<secs>` first; on collision, counter suffixes
/// `-1`, `-2`, … until a free name is found (one of the first
/// `taken.len() + 1` always is).
pub fn unique_corrupt_path(base: &str, secs: u64, taken: &[String]) -> (p: String)
    ensures
        exists|k: nat| k <= taken@.len() && #[trigger] first_free(base@, secs, taken@, k, p@),
{
    proof {
        lemma_some_candidate_free(base@, secs, taken@);
    }
    let n = taken.len();
    let mut k: usize = 0;
    loop
        invariant
            k <= n,
            n == taken@.len(),
            forall|j: nat| j < k ==> among(taken@, #[trigger] corrupt_candidate(base@, secs, j)),
            exists|j: nat| j <= taken@.len() && !among(taken@, #[trigger] corrupt_candidate(base@, secs, j)),
        decreases n - k,
    {
        let c = candidate(base, secs, k as u64);
        if !is_taken(&c, taken) {
            assert(first_free(base@, secs, taken@, k as nat, c@));
            return c;
        }
        if k == n {
            proof {
                let j = choose|j: nat| j <= taken@.len() && !among(taken@, #[trigger] corrupt_candidate(base@, secs, j));
                if j < k {
                    assert(among(taken@, corrupt_candidate(base@, secs, j)));
                }
                assert(false);
            }
            return c;
        }
        k = k + 1;
    }
}

/// Whether `name` is a backup of the scores file `file_name`: it starts
/// with `<file_name>.corrupt.`.
pub open spec fn is_backup_name(name: Seq<char>, file_name: Seq<char>) -> bool {
    let prefix = file_name + ".corrupt."@;
    prefix.len() <= name.len() && name.subrange(0, prefix.len() as int) == prefix
}

/// Whether `name` is a backup of the scores file `file_name`.
pub fn is_corrupt_backup(name: &str, file_name: &str) -> (b: bool)
    ensures
        b == is_backup_name(name@, file_name@),
{
    let mut prefix = String::new();
    push_str(&mut prefix, file_name);
    push_str(&mut prefix, ".corrupt.");
    starts_with(name, prefix.as_str())
}

/// Entry `j` comes before entry `i` in oldest-first order: it is older, or
/// as old and listed earlier.
pub open spec fn older(mtimes: Seq<u64>, j: int, i: int) -> bool {
    mtimes[j] < mtimes[i] || (mtimes[j] == mtimes[i] && j < i)
}

/// How many of the first `upto` entries of `mtimes` come before entry `i`
/// in oldest-first order.
pub open spec fn age_rank(mtimes: Seq<u64>, i: int, upto: int) -> int
    decreases upto,
{
    if upto <= 0 {
        0
    } else {
        let j = upto - 1;
        age_rank(mtimes, i, j) + if older(mtimes, j, i) {
            1int
        } else {
            0int
        }
    }
}

/// The entries of `mtimes` whose rank lies in `lo..hi`.
pub open spec fn ranked_between(mtimes: Seq<u64>, lo: int, hi: int) -> Set<int> {
    Set::new(
        |i: int|
            0 <= i < mtimes.len() && lo <= age_rank(mtimes, i, mtimes.len() as int) < hi,
    )
}

/// An entry that comes before another has a smaller rank.
proof fn lemma_rank_increases(mtimes: Seq<u64>, j: int, i: int, upto: int)
    requires
        0 <= i < mtimes.len(),
        0 <= j < mtimes.len(),
        0 <= upto <= mtimes.len(),
        older(mtimes, j, i),
    ensures
        age_rank(mtimes, j, upto) + (if j < upto {
            1int
        } else {
            0int
        }) <= age_rank(mtimes, i, upto),
    decreases upto,
{
    if upto > 0 {
        lemma_rank_increases(mtimes, j, i, upto - 1);
    }
}

/// The rank counts entries other than `i` itself, so it stays below `upto`
/// once `i` is among the first `upto`.
proof fn lemma_rank_bounds(mtimes: Seq<u64>, i: int, upto: int)
    requires
        0 <= i < mtimes.len(),
        0 <= upto <= mtimes.len(),
    ensures
        0 <= age_rank(mtimes, i, upto) <= upto,
        i < upto ==> age_rank(mtimes, i, upto) < upto,
    decreases upto,
{
    if upto > 0 {
        lemma_rank_bounds(mtimes, i, upto - 1);
    }
}

/// The ranks are `0..n` each taken once, so exactly `hi - lo` entries have
/// a rank in `lo..hi`.
proof fn lemma_ranked_between_len(mtimes: Seq<u64>, lo: int, hi: int)
    requires
        0 <= lo <= hi <= mtimes.len(),
    ensures
        ranked_between(mtimes, lo, hi).finite(),
        ranked_between(mtimes, lo, hi).len() == hi - lo,
{
    let n = mtimes.len() as int;
    let f = |i: int| age_rank(mtimes, i, n);
    let all = vstd::set_lib::set_int_range(0, n);
    assert forall|a: int, b: int| all.contains(a) && all.contains(b) && #[trigger] f(a) == #[trigger] f(
        b,
    ) implies a == b by {
        if a != b {
            if older(mtimes, a, b) {
                lemma_rank_increases(mtimes, a, b, n);
            } else {
                lemma_rank_increases(mtimes, b, a, n);
            }
        }
    }
    assert(vstd::relations::injective_on(f, all));
    vstd::set_lib::lemma_int_range(0, n);
    let image = all.map(f);
    vstd::set_lib::lemma_map_size(all, image, f);
    assert forall|r: int| image.contains(r) implies vstd::set_lib::set_int_range(0, n).contains(r) by {
        let i = choose|i: int| all.contains(i) && f(i) == r;
        lemma_rank_bounds(mtimes, i, n);
    }
    vstd::set_lib::lemma_subset_equality(image, vstd::set_lib::set_int_range(0, n));
    let part = ranked_between(mtimes, lo, hi);
    let target = vstd::set_lib::set_int_range(lo, hi);
    assert(part.subset_of(all));
    vstd::set_lib::lemma_len_subset(part, all);
    assert forall|a: int, b: int| part.contains(a) && part.contains(b) && #[trigger] f(a) == #[trigger] f(
        b,
    ) implies a == b by {
        assert(all.contains(a) && all.contains(b));
    }
    assert forall|r: int| #[trigger] target.contains(r) implies part.map(f).contains(r) by {
        assert(image.contains(r));
        let i = choose|i: int| all.contains(i) && f(i) == r;
        assert(part.contains(i));
    }
    assert(part.map(f) =~= target);
    vstd::set_lib::lemma_map_size(part, target, f);
    vstd::set_lib::lemma_int_range(lo, hi);
}

/// Which backups to delete so that at most five remain: the oldest ones
/// by modification time (ties broken by listing order), given the times
/// in listing order.  Entry `i` of the result says whether backup `i` goes.
///
/// Exactly `n - 5` of `n` backups go when there are more than five, none
/// otherwise, so `min(n, 5)` remain; and every backup that goes is older
/// than every backup that stays.
pub fn backups_to_prune(mtimes: &[u64]) -> (doomed: Vec<bool>)
    ensures
        doomed@.len() == mtimes@.len(),
        forall|i: int|
            0 <= i < mtimes@.len() ==> #[trigger] doomed@[i] == (mtimes@.len() > MAX_CORRUPT_BACKUPS
                && age_rank(mtimes@, i, mtimes@.len() as int) < mtimes@.len() - MAX_CORRUPT_BACKUPS),
        Set::new(|i: int| 0 <= i < mtimes@.len() && doomed@[i]).len() == if mtimes@.len()
            > MAX_CORRUPT_BACKUPS {
            mtimes@.len() - MAX_CORRUPT_BACKUPS
        } else {
            0
        },
        Set::new(|i: int| 0 <= i < mtimes@.len() && !doomed@[i]).len() == if mtimes@.len()
            > MAX_CORRUPT_BACKUPS {
            MAX_CORRUPT_BACKUPS as int
        } else {
            mtimes@.len() as int
        },
        forall|a: int, b: int|
            0 <= a < mtimes@.len() && 0 <= b < mtimes@.len() && #[trigger] doomed@[a]
                && !#[trigger] doomed@[b] ==> older(mtimes@, a, b),
{
    let n = mtimes.len();
    let mut doomed: Vec<bool> = Vec::new();
    let mut i: usize = 0;
    while i < n
        invariant
            i <= n == mtimes@.len(),
            doomed@.len() == i,
            forall|a: int|
                0 <= a < i ==> #[trigger] doomed@[a] == (n > MAX_CORRUPT_BACKUPS && age_rank(
                    mtimes@,
                    a,
                    n as int,
                ) < n - MAX_CORRUPT_BACKUPS),
        decreases n - i,
    {
        let mut rank: usize = 0;
        let mut j: usize = 0;
        while j < n
            invariant
                i < n == mtimes@.len(),
                j <= n,
                rank == age_rank(mtimes@, i as int, j as int),
                rank <= j,
            decreases n - j,
        {
            if mtimes[j] < mtimes[i] || (mtimes[j] == mtimes[i] && j < i) {
                rank = rank + 1;
            }
            j = j + 1;
        }
        doomed.push(n > MAX_CORRUPT_BACKUPS && rank < n - MAX_CORRUPT_BACKUPS);
        i = i + 1;
    }
    proof {
        let m = mtimes@;
        let k: int = if n > MAX_CORRUPT_BACKUPS {
            n - MAX_CORRUPT_BACKUPS
        } else {
            0
        };
        assert forall|a: int| 0 <= a < n implies #[trigger] doomed@[a] == (age_rank(m, a, n as int)
            < k) by {
            lemma_rank_bounds(m, a, n as int);
        }
        lemma_ranked_between_len(m, 0, k);
        lemma_ranked_between_len(m, k, n as int);
        assert forall|a: int| 0 <= a < n implies 0 <= #[trigger] age_rank(m, a, n as int) < n by {
            lemma_rank_bounds(m, a, n as int);
        }
        assert(Set::new(|i: int| 0 <= i < n && doomed@[i]) =~= ranked_between(m, 0, k));
        assert(Set::new(|i: int| 0 <= i < n && !doomed@[i]) =~= ranked_between(m, k, n as int));
        assert forall|a: int, b: int|
            0 <= a < n && 0 <= b < n && #[trigger] doomed@[a] && !#[trigger] doomed@[b] implies older(
            m,
            a,
            b,
        ) by {
            if older(m, b, a) {
                lemma_rank_increases(m, b, a, n as int);
            }
        }
    }
    doomed
}

// ── reset-scores answer ───────────────────────────────────────────────────

/// What `str::trim` returns for `s`: `s` without leading and trailing
/// Unicode white space.
pub uninterp spec fn trimmed(s: Seq<char>) -> Seq<char>;

/// What `str::to_lowercase` returns for `s`: its Unicode lowercase form.
pub uninterp spec fn lowercased(s: Seq<char>) -> Seq<char>;

/// Calls `str::trim`, which drops leading and trailing white space; the
/// result depends on the argument alone and is named `trimmed`.
#[verifier::external_body]
fn trim_text(s: &str) -> (t: &str)
    ensures
        t@ == trimmed(s@),
{
    s.trim()
}

/// Calls `str::to_lowercase`, which maps every character to its Unicode
/// lowercase form; the result depends on the argument alone and is named
/// `lowercased`.
#[verifier::external_body]
pub(crate) fn lowercase_text(s: &str) -> (t: String)
    ensures
        t@ == lowercased(s@),
{
    s.to_lowercase()
}

/// Whether the answer line to the reset prompt confirms: `y` or `yes`,
/// ignoring surrounding white space and case.
pub open spec fn confirms_reset(line: Seq<char>) -> bool {
    let answer = lowercased(trimmed(line));
    answer == "y"@ || answer == "yes"@
}

/// Whether the answer line to the reset prompt confirms the reset.
pub fn reset_confirmed(line: &str) -> (yes: bool)
    ensures
        yes == confirms_reset(line@),
{
    let answer = lowercase_text(trim_text(line));
    same_text(answer.as_str(), "y") || same_text(answer.as_str(), "yes")
}

} // verus!
