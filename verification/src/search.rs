//! Searching an ordered list of commit identifiers: by the leading digits
//! of the identifier, and by text in the commit message.

use vstd::prelude::*;
use std::sync::Arc;
use std::sync::atomic::AtomicBool;
use crate::cancel::is_cancelled;
use crate::commit_id::{bytes_of_hex, CommitId};
use crate::error::{ErrorKind, GitError};
use crate::hex::{digit_value, hex_value, is_hex_text};
use crate::positions::{positions_are_exact, positions_in, strictly_ascending};
use crate::std_ext::{lowercase, to_lowercase};
use crate::query::CommitQueryOptions;
use crate::repo::read_commit;
use crate::store::{commit_message_lossy, error_message, open_repository};
use crate::walker::CommitWalker;
use crate::text::{chars_of, contains_chars, contains_seq};

verus! {

/// The fewest digits that are read as the beginning of an identifier.
pub const MIN_HASH_QUERY: usize = 7;

/// The most digits that are read as the beginning of an identifier.
pub const MAX_HASH_QUERY: usize = 40;

/// The greatest number of identifiers that can be searched: a position is
/// held in 32 bits.
pub const MAX_INDEX_LEN: usize = 0xffff_ffff;

/// The query has the shape of the beginning of an identifier: seven to
/// forty characters, each a hexadecimal digit.
pub open spec fn is_hash_query(query: Seq<char>) -> bool {
    7 <= query.len() <= 40 && is_hex_text(query)
}

/// The half byte that an odd number of digits leaves over at the end.
pub open spec fn trailing_half(query: Seq<char>) -> Option<u8> {
    if query.len() % 2 == 1 {
        hex_value(query.last())
    } else {
        None
    }
}

/// An identifier begins with the given whole bytes and, if there is a
/// trailing half byte, goes on with a byte whose high half equals it.
pub open spec fn prefix_matches(id: Seq<u8>, whole: Seq<u8>, half: Option<u8>) -> bool {
    &&& whole.len() <= id.len()
    &&& forall|k: int| 0 <= k < whole.len() ==> id[k] == whole[k]
    &&& match half {
        Some(n) => whole.len() < id.len() && id[whole.len() as int] / 16 == n,
        None => true,
    }
}

/// An identifier begins with what a query of hexadecimal digits writes.
pub open spec fn id_matches_query(id: Seq<u8>, query: Seq<char>) -> bool {
    prefix_matches(id, bytes_of_hex(query), trailing_half(query))
}

/// The beginning of an identifier, as a query of hexadecimal digits gives
/// it: whole bytes, and a half byte if the digits are odd in number.
#[derive(Debug, Clone, PartialEq, Eq)]
pub struct HashPrefix {
    pub whole: Vec<u8>,
    pub half: Option<u8>,
}

impl HashPrefix {
    /// Reads a query as the beginning of an identifier, if it has the
    /// shape of one.
    pub fn parse(query: &str) -> (parsed: Option<HashPrefix>)
        ensures
            parsed is Some <==> is_hash_query(query@),
            parsed matches Some(p) ==> p.whole@ == bytes_of_hex(query@) && p.half == trailing_half(
                query@,
            ),
    {
        let digits = chars_of(query);
        if digits.len() < MIN_HASH_QUERY || digits.len() > MAX_HASH_QUERY {
            return None;
        }
        let pairs: usize = digits.len() / 2;
        let mut whole: Vec<u8> = Vec::new();
        let mut i: usize = 0;
        while i < pairs
            invariant
                i <= pairs,
                pairs == digits@.len() / 2,
                digits@ == query@,
                7 <= digits@.len() <= 40,
                whole@.len() == i,
                forall|j: int| 0 <= j < 2 * i ==> (#[trigger] hex_value(digits@[j])) is Some,
                forall|j: int| 0 <= j < i ==> whole@[j] == bytes_of_hex(digits@)[j],
            decreases pairs - i,
        {
            match (digit_value(digits[2 * i]), digit_value(digits[2 * i + 1])) {
                (Some(h), Some(l)) => {
                    whole.push(h * 16 + l);
                },
                _ => {
                    return None;
                },
            }
            i += 1;
        }
        assert(whole@ =~= bytes_of_hex(query@));
        let half = if digits.len() % 2 == 1 {
            match digit_value(digits[digits.len() - 1]) {
                Some(n) => Some(n),
                None => {
                    return None;
                },
            }
        } else {
            None
        };
        assert forall|j: int| 0 <= j < digits@.len() implies (#[trigger] hex_value(
            digits@[j],
        )) is Some by {
            if j >= 2 * pairs {
                assert(j == digits@.len() - 1);
            }
        }
        Some(HashPrefix { whole, half })
    }

    /// Whether an identifier begins with this prefix.
    pub fn matches(&self, id: &CommitId) -> (yes: bool)
        ensures
            yes == prefix_matches(id@, self.whole@, self.half),
    {
        if self.whole.len() > 20 {
            return false;
        }
        let mut k: usize = 0;
        while k < self.whole.len()
            invariant
                k <= self.whole.len() <= 20,
                forall|j: int| 0 <= j < k ==> id@[j] == self.whole@[j],
            decreases self.whole.len() - k,
        {
            if id.bytes[k] != self.whole[k] {
                return false;
            }
            k += 1;
        }
        match self.half {
            Some(n) => self.whole.len() < 20 && id.bytes[self.whole.len()] / 16 == n,
            None => true,
        }
    }
}

/// Where in a list the identifiers stand that begin with a prefix.
pub open spec fn prefix_positions(ids: Seq<CommitId>, whole: Seq<u8>, half: Option<u8>) -> Seq<u32> {
    positions_in(0, ids.len() as int, |i: int| prefix_matches(ids[i]@, whole, half))
}

/// The positions of the identifiers that begin with a prefix, ascending.
pub fn find_by_prefix(ids: &[CommitId], prefix: &HashPrefix) -> (hits: Vec<u32>)
    requires
        ids@.len() <= MAX_INDEX_LEN,
    ensures
        hits@ == prefix_positions(ids@, prefix.whole@, prefix.half),
{
    let ghost hit = |i: int| prefix_matches(ids@[i]@, prefix.whole@, prefix.half);
    let mut hits: Vec<u32> = Vec::new();
    let mut i: usize = 0;
    while i < ids.len()
        invariant
            i <= ids.len() <= MAX_INDEX_LEN,
            hit == |i: int| prefix_matches(ids@[i]@, prefix.whole@, prefix.half),
            hits@ == positions_in(0, i as int, hit),
        decreases ids.len() - i,
    {
        if prefix.matches(&ids[i]) {
            hits.push(i as u32);
        }
        i += 1;
    }
    hits
}

/// A message holds the query, case aside: the lowercased message holds the
/// lowercased query.
pub open spec fn text_hit(message: Seq<char>, query_lower: Seq<char>) -> bool {
    contains_seq(lowercase(message), query_lower)
}

/// Whether a message holds an already lowercased query, case aside.
pub fn message_contains(message: &str, query_lower: &[char]) -> (yes: bool)
    ensures
        yes == text_hit(message@, query_lower@),
{
    let lower = to_lowercase(message);
    let chars = chars_of(lower.as_str());
    contains_chars(chars.as_slice(), query_lower)
}

/// Where in a range of a list the messages stand that hold a query, given
/// the message that was read for each place of the range.
pub open spec fn text_positions(
    start: int,
    end: int,
    read: Seq<Seq<char>>,
    query_lower: Seq<char>,
) -> Seq<u32> {
    positions_in(start, end, |i: int| text_hit(read[i - start], query_lower))
}

/// What one worker found in its range.
pub struct ShardHits {
    /// The positions whose messages hold the query, ascending.
    pub positions: Vec<u32>,
    /// The messages that the store gave for the range, in order.
    pub read: Ghost<Seq<Seq<char>>>,
}

/// Reads the message of a commit, with invalid bytes replaced.
fn read_message(repo: &git2::Repository, id: &CommitId) -> (message: Result<String, GitError>)
    ensures
        message matches Err(e) ==> e.kind == ErrorKind::Store,
{
    match read_commit(repo, id) {
        Ok(commit) => Ok(commit_message_lossy(&commit)),
        Err(e) => Err(GitError::new(ErrorKind::Store, error_message(&e))),
    }
}

/// Scans the range `start..end` of a list of identifiers: reads each
/// commit's message from the store and keeps the positions whose message
/// holds the query, case aside. The cancellation flag is polled before
/// each read. A raised flag or a failing read fails the scan; what was
/// found up to there is dropped.
pub fn scan_shard(
    repo: &git2::Repository,
    ids: &[CommitId],
    start: usize,
    end: usize,
    query_lower: &[char],
    cancel: Option<&Arc<AtomicBool>>,
) -> (found: Result<ShardHits, GitError>)
    requires
        start <= end <= ids@.len() <= MAX_INDEX_LEN,
    ensures
        match found {
            Ok(hits) => {
                &&& hits.read@.len() == end - start
                &&& hits.positions@ == text_positions(
                    start as int,
                    end as int,
                    hits.read@,
                    query_lower@,
                )
            },
            Err(e) => {
                &&& e.kind == ErrorKind::Cancelled || e.kind == ErrorKind::Store
                &&& cancel is None ==> e.kind == ErrorKind::Store
                &&& start < end
            },
        },
{
    let mut positions: Vec<u32> = Vec::new();
    let ghost mut read: Seq<Seq<char>> = Seq::empty();
    let mut i: usize = start;
    while i < end
        invariant
            start <= i <= end <= ids@.len() <= MAX_INDEX_LEN,
            read.len() == i - start,
            positions@ == text_positions(start as int, i as int, read, query_lower@),
        decreases end - i,
    {
        if is_cancelled(cancel) {
            return Err(GitError::cancelled());
        }
        let message = match read_message(repo, &ids[i]) {
            Ok(message) => message,
            Err(e) => {
                return Err(e);
            },
        };
        let hit = message_contains(message.as_str(), query_lower);
        proof {
            let longer = read.push(message@);
            let before = |k: int| text_hit(read[k - start], query_lower@);
            let after = |k: int| text_hit(longer[k - start], query_lower@);
            assert forall|k: int| start <= k < i implies #[trigger] before(k) == after(k) by {
                assert(longer[k - start] == read[k - start]);
            }
            crate::positions::positions_of_equal_properties(start as int, i as int, before, after);
            assert(longer[i - start] == message@);
            read = longer;
        }
        if hit {
            positions.push(i as u32);
        }
        i += 1;
    }
    Ok(ShardHits { positions, read: Ghost(read) })
}

/// The number of identifiers that one worker is given at most, where there
/// are workers enough.
pub const SHARD_SIZE: usize = 50_000;

/// `a` divided by `b`, rounded up.
pub open spec fn ceil_div(a: int, b: int) -> int
    recommends
        a >= 0,
        b > 0,
{
    (a + b - 1) / b
}

/// Into how many parts a list is cut: as many as it takes to keep a part
/// within `SHARD_SIZE`, but no more than there are workers, and at least
/// one.
pub open spec fn shard_count_for(total: int, parallelism: int) -> int {
    let wanted = ceil_div(total, 50_000);
    let capped = if parallelism < wanted {
        parallelism
    } else {
        wanted
    };
    if capped < 1 {
        1
    } else {
        capped
    }
}

/// Where part `index` of `count` begins in a list of `total`: the parts
/// are equal in length, rounded up, and the last ones end where the list
/// ends.
pub open spec fn shard_start(total: int, count: int, index: int) -> int {
    let at = index * ceil_div(total, count);
    if at < total {
        at
    } else {
        total
    }
}

/// `a` divided by `b`, rounded up.
fn div_up(a: usize, b: usize) -> (q: usize)
    requires
        b > 0,
    ensures
        q == ceil_div(a as int, b as int),
        q * b >= a,
        a > 0 ==> q >= 1,
{
    let whole = a / b;
    let rest = a % b;
    proof {
        let (ai, bi) = (a as int, b as int);
        assert(ai == bi * (ai / bi) + ai % bi) by (nonlinear_arith)
            requires
                bi > 0,
        ;
        if rest == 0 {
            assert((ai + bi - 1) / bi == ai / bi) by (nonlinear_arith)
                requires
                    bi > 0,
                    ai % bi == 0,
                    ai >= 0,
            ;
            assert((ai / bi) * bi >= ai && (ai > 0 ==> ai / bi >= 1)) by (nonlinear_arith)
                requires
                    bi > 0,
                    ai == bi * (ai / bi) + ai % bi,
                    ai % bi == 0,
            ;
        } else {
            assert((ai + bi - 1) / bi == ai / bi + 1) by (nonlinear_arith)
                requires
                    bi > 0,
                    0 < ai % bi < bi,
                    ai >= 0,
            ;
            assert((ai / bi + 1) * bi >= ai) by (nonlinear_arith)
                requires
                    bi > 0,
                    ai == bi * (ai / bi) + ai % bi,
                    0 < ai % bi < bi,
            ;
            assert(ai / bi < usize::MAX) by (nonlinear_arith)
                requires
                    bi > 0,
                    0 < ai % bi,
                    ai == bi * (ai / bi) + ai % bi,
                    ai <= usize::MAX,
            ;
        }
    }
    if rest == 0 {
        whole
    } else {
        whole + 1
    }
}

/// Into how many parts a list of `total` identifiers is cut for
/// `parallelism` workers.
pub fn shard_count(total: usize, parallelism: usize) -> (count: usize)
    ensures
        count == shard_count_for(total as int, parallelism as int),
        count >= 1,
{
    let wanted = div_up(total, SHARD_SIZE);
    let capped = if parallelism < wanted {
        parallelism
    } else {
        wanted
    };
    if capped < 1 {
        1
    } else {
        capped
    }
}

/// The parts that a list of `total` identifiers is cut into for
/// `parallelism` workers, each as the positions `start..end`, in order.
pub fn plan_shards(total: usize, parallelism: usize) -> (plan: Vec<(usize, usize)>)
    ensures
        plan@.len() == shard_count_for(total as int, parallelism as int),
        forall|i: int|
            0 <= i < plan@.len() ==> {
                &&& (#[trigger] plan@[i]).0 == shard_start(total as int, plan@.len() as int, i)
                &&& plan@[i].1 == shard_start(total as int, plan@.len() as int, i + 1)
            },
{
    let count = shard_count(total, parallelism);
    let chunk = div_up(total, count);
    let mut plan: Vec<(usize, usize)> = Vec::new();
    let mut start: usize = 0;
    let mut i: usize = 0;
    while i < count
        invariant
            i <= count,
            count >= 1,
            chunk == ceil_div(total as int, count as int),
            plan@.len() == i,
            start == shard_start(total as int, count as int, i as int),
            start <= total,
            forall|k: int|
                0 <= k < i ==> {
                    &&& (#[trigger] plan@[k]).0 == shard_start(total as int, count as int, k)
                    &&& plan@[k].1 == shard_start(total as int, count as int, k + 1)
                },
        decreases count - i,
    {
        let end = if total - start < chunk {
            total
        } else {
            start + chunk
        };
        proof {
            let (c, n) = (chunk as int, i as int);
            assert((n + 1) * c == n * c + c) by (nonlinear_arith);
            assert(n * c >= 0) by (nonlinear_arith)
                requires
                    n >= 0,
                    c >= 0,
            ;
        }
        plan.push((start, end));
        start = end;
        i += 1;
    }
    plan
}

/// The parts cover the list with nothing left out and nothing twice: the
/// first begins at the front, each begins where the one before ends, and
/// the last ends at the back.
pub proof fn shards_cover_the_list(total: int, count: int)
    requires
        total >= 0,
        count >= 1,
    ensures
        shard_start(total, count, 0) == 0,
        shard_start(total, count, count) == total,
        forall|i: int|
            0 <= i < count ==> 0 <= #[trigger] shard_start(total, count, i) <= shard_start(
                total,
                count,
                i + 1,
            ) <= total,
{
    let chunk = ceil_div(total, count);
    assert(chunk * count >= total && chunk >= 0) by (nonlinear_arith)
        requires
            chunk == (total + count - 1) / count,
            count >= 1,
            total >= 0,
    ;
    assert(count * chunk == chunk * count) by (nonlinear_arith);
    assert(0 * chunk == 0) by (nonlinear_arith);
    assert forall|i: int| 0 <= i < count implies 0 <= #[trigger] shard_start(total, count, i)
        <= shard_start(total, count, i + 1) <= total by {
        assert(i * chunk >= 0 && (i + 1) * chunk >= i * chunk) by (nonlinear_arith)
            requires
                i >= 0,
                chunk >= 0,
        ;
    }
}

/// The hits of the parts that succeeded, put end to end in the order of
/// the list of results.
pub open spec fn gathered_hits(results: Seq<Result<Vec<u32>, GitError>>) -> Seq<u32>
    decreases results.len(),
{
    if results.len() == 0 {
        Seq::empty()
    } else {
        match results.last() {
            Ok(hits) => gathered_hits(results.drop_last()) + hits@,
            Err(_) => gathered_hits(results.drop_last()),
        }
    }
}

/// Puts the results of all workers together. If any worker failed, the
/// search fails with the failure of the first such worker in the list, and
/// what the others found is dropped. Otherwise every position found is
/// returned, in ascending order.
pub fn merge_shard_results(results: &Vec<Result<Vec<u32>, GitError>>) -> (merged: Result<
    Vec<u32>,
    GitError,
>)
    ensures
        match merged {
            Ok(all) => {
                &&& forall|i: int| 0 <= i < results@.len() ==> (#[trigger] results@[i]) is Ok
                &&& crate::positions::ascending(all@)
                &&& all@.to_multiset() == gathered_hits(results@).to_multiset()
            },
            Err(e) => exists|i: int|
                {
                    &&& 0 <= i < results@.len()
                    &&& (#[trigger] results@[i]) matches Err(first)
                    &&& first@ == e@
                    &&& forall|j: int| 0 <= j < i ==> (#[trigger] results@[j]) is Ok
                },
        },
{
    let mut all: Vec<u32> = Vec::new();
    let mut i: usize = 0;
    proof {
        assert(results@.take(0) =~= Seq::<Result<Vec<u32>, GitError>>::empty());
    }
    while i < results.len()
        invariant
            i <= results.len(),
            forall|j: int| 0 <= j < i ==> (#[trigger] results@[j]) is Ok,
            all@ == gathered_hits(results@.take(i as int)),
        decreases results.len() - i,
    {
        proof {
            assert(results@.take(i + 1).drop_last() =~= results@.take(i as int));
            assert(results@.take(i + 1).last() == results@[i as int]);
        }
        match &results[i] {
            Ok(hits) => {
                let mut k: usize = 0;
                let ghost base = all@;
                while k < hits.len()
                    invariant
                        k <= hits.len(),
                        all@ == base + hits@.take(k as int),
                    decreases hits.len() - k,
                {
                    all.push(hits[k]);
                    k += 1;
                    assert(all@ =~= base + hits@.take(k as int));
                }
                assert(hits@.take(k as int) =~= hits@);
            },
            Err(e) => {
                return Err(GitError::new(e.kind, e.message.clone()));
            },
        }
        i += 1;
    }
    assert(results@.take(i as int) =~= results@);
    Ok(crate::positions::sort_positions(&all))
}

/// What a search over a list of identifiers returns, given the messages
/// that were read: nothing for a query that is empty once lowercased; for
/// a query with the shape of the beginning of an identifier, the positions
/// of the identifiers that begin so, if there is one; and otherwise the
/// positions whose message holds the query, case aside.
pub open spec fn search_result(ids: Seq<CommitId>, query: Seq<char>, read: Seq<Seq<char>>) -> Seq<
    u32,
> {
    if lowercase(query).len() == 0 {
        Seq::empty()
    } else if answered_by_prefix(ids, query) {
        prefix_positions(ids, bytes_of_hex(query), trailing_half(query))
    } else {
        text_positions(0, ids.len() as int, read, lowercase(query))
    }
}

/// The query has the shape of the beginning of an identifier and at least
/// one identifier of the list begins so. Messages are then not looked at.
pub open spec fn answered_by_prefix(ids: Seq<CommitId>, query: Seq<char>) -> bool {
    is_hash_query(query) && prefix_positions(ids, bytes_of_hex(query), trailing_half(query)).len()
        > 0
}

/// The messages are read: the query is not empty and the identifiers do
/// not answer it.
pub open spec fn messages_needed(ids: Seq<CommitId>, query: Seq<char>) -> bool {
    lowercase(query).len() > 0 && !answered_by_prefix(ids, query)
}

/// Searches an ordered list of identifiers for a query, in one thread. An
/// empty query finds nothing and touches neither flag nor store. Else the
/// cancellation flag is polled; then the identifiers are tried, and only
/// if they do not answer the query are the messages read.
pub fn find_in_index(
    repo: &git2::Repository,
    ids: &[CommitId],
    query: &str,
    cancel: Option<&Arc<AtomicBool>>,
) -> (found: Result<ShardHits, GitError>)
    requires
        ids@.len() <= MAX_INDEX_LEN,
    ensures
        lowercase(query@).len() == 0 ==> found is Ok,
        match found {
            Ok(hits) => {
                &&& hits.positions@ == search_result(ids@, query@, hits.read@)
                &&& hits.read@.len() == if messages_needed(ids@, query@) {
                    ids@.len()
                } else {
                    0
                }
                &&& strictly_ascending(hits.positions@)
                &&& forall|k: int|
                    0 <= k < hits.positions@.len() ==> (#[trigger] hits.positions@[k]) < ids@.len()
            },
            Err(e) => {
                &&& e.kind == ErrorKind::Cancelled || e.kind == ErrorKind::Store
                &&& cancel is None ==> e.kind == ErrorKind::Store && ids@.len() > 0
            },
        },
{
    let lower = to_lowercase(query);
    let lower_chars = chars_of(lower.as_str());
    if lower_chars.len() == 0 {
        return Ok(ShardHits { positions: Vec::new(), read: Ghost(Seq::empty()) });
    }
    if is_cancelled(cancel) {
        return Err(GitError::cancelled());
    }
    match HashPrefix::parse(query) {
        Some(prefix) => {
            let hits = find_by_prefix(ids, &prefix);
            if hits.len() > 0 {
                proof {
                    positions_are_exact(
                        0,
                        ids@.len() as int,
                        |i: int| prefix_matches(ids@[i]@, prefix.whole@, prefix.half),
                    );
                }
                return Ok(ShardHits { positions: hits, read: Ghost(Seq::empty()) });
            }
        },
        None => {},
    }
    match scan_shard(repo, ids, 0, ids.len(), lower_chars.as_slice(), cancel) {
        Ok(hits) => {
            proof {
                positions_are_exact(
                    0,
                    ids@.len() as int,
                    |i: int| text_hit(hits.read@[i - 0], lower_chars@),
                );
            }
            Ok(hits)
        },
        Err(e) => Err(e),
    }
}

/// The positions are what a search for `query` finds in the list of a walk
/// over `branch_ref` to its end, given the messages that were read.
pub open spec fn found_in_walk(hits: Seq<u32>, branch_ref: Seq<char>, query: Seq<char>) -> bool {
    exists|ids: Seq<CommitId>, read: Seq<Seq<char>>|
        {
            &&& crate::walker::lists_the_walk(ids, branch_ref)
            &&& ids.len() <= MAX_INDEX_LEN
            &&& read.len() == if messages_needed(ids, query) {
                ids.len()
            } else {
                0
            }
            &&& hits == #[trigger] search_result(ids, query, read)
        }
}

/// Searches the history of a ref for a query, in one thread: opens the
/// repository at `path`, walks the ref to its end to list the identifiers,
/// and searches the list. An empty query finds nothing and touches neither
/// flag nor store.
pub fn search_repository(
    path: &str,
    branch_ref: &str,
    query: &str,
    cancel: Option<&Arc<AtomicBool>>,
) -> (found: Result<Vec<u32>, GitError>)
    ensures
        lowercase(query@).len() == 0 ==> (found matches Ok(hits) && hits@.len() == 0),
        found matches Ok(hits) ==> strictly_ascending(hits@),
        lowercase(query@).len() > 0 ==> (found matches Ok(hits) ==> found_in_walk(
            hits@,
            branch_ref@,
            query@,
        )),
        cancel is None ==> (found matches Err(e) ==> e.kind != ErrorKind::Cancelled),
        lowercase(query@).len() > 0 && crate::store::has_nul(path@) ==> (found matches Err(e) && (
        e.kind == ErrorKind::NotARepository || (cancel is Some && e.kind == ErrorKind::Cancelled))),
{
    let lower = to_lowercase(query);
    if lower.as_str().unicode_len() == 0 {
        return Ok(Vec::new());
    }
    if is_cancelled(cancel) {
        return Err(GitError::cancelled());
    }
    let repo = match open_repository(path) {
        Ok(repo) => repo,
        Err(e) => {
            return Err(GitError::new(ErrorKind::NotARepository, error_message(&e)));
        },
    };
    let mut walker = match CommitWalker::new(&repo, CommitQueryOptions::for_branch(branch_ref)) {
        Ok(walker) => walker,
        Err(e) => {
            return Err(e);
        },
    };
    let ids = match walker.collect_ids(cancel) {
        Ok(ids) => ids,
        Err(e) => {
            return Err(e);
        },
    };
    proof {
        let answers = walker.answers();
        assert(answers.skip(0) =~= answers);
        assert(crate::walker::walked_to_the_end(answers));
        assert(crate::walker::id_views(ids@) == crate::walker::record_ids(
            crate::walker::records(crate::query::branch_query(branch_ref@), answers),
        ));
        assert(crate::walker::lists_the_walk(ids@, branch_ref@));
    }
    match find_in_index(&repo, ids.as_slice(), query, cancel) {
        Ok(hits) => {
            assert(hits.positions@ == search_result(ids@, query@, hits.read@));
            Ok(hits.positions)
        },
        Err(e) => Err(e),
    }
}

/// A text search is exact: where the messages decide, the positions
/// returned are strictly ascending, every one of them is the position of a
/// message that holds the query, case aside, and no such position is
/// missing.
pub proof fn text_search_is_exact(ids: Seq<CommitId>, query: Seq<char>, read: Seq<Seq<char>>)
    requires
        ids.len() <= MAX_INDEX_LEN,
        read.len() == ids.len(),
        messages_needed(ids, query),
    ensures
        strictly_ascending(search_result(ids, query, read)),
        forall|k: int|
            0 <= k < search_result(ids, query, read).len() ==> {
                let p = #[trigger] search_result(ids, query, read)[k];
                p < ids.len() && text_hit(read[p as int], lowercase(query))
            },
        forall|p: u32|
            p < ids.len() && text_hit(read[p as int], lowercase(query)) ==> #[trigger] search_result(
                ids,
                query,
                read,
            ).contains(p),
{
    let hit = |i: int| text_hit(read[i - 0], lowercase(query));
    positions_are_exact(0, ids.len() as int, hit);
    assert forall|p: u32|
        p < ids.len() && text_hit(read[p as int], lowercase(query)) implies #[trigger] search_result(
        ids,
        query,
        read,
    ).contains(p) by {
        assert(hit(p as int));
    }
}

/// An answer by identifier shuts the messages out: where a query with the
/// shape of the beginning of an identifier is matched by one, the
/// positions returned are those of the identifiers that begin so, whatever
/// the messages hold.
pub proof fn prefix_answer_ignores_messages(
    ids: Seq<CommitId>,
    query: Seq<char>,
    read: Seq<Seq<char>>,
)
    requires
        ids.len() <= MAX_INDEX_LEN,
        lowercase(query).len() > 0,
        answered_by_prefix(ids, query),
    ensures
        search_result(ids, query, read) == prefix_positions(
            ids,
            bytes_of_hex(query),
            trailing_half(query),
        ),
        strictly_ascending(search_result(ids, query, read)),
        forall|k: int|
            0 <= k < search_result(ids, query, read).len() ==> {
                let p = #[trigger] search_result(ids, query, read)[k];
                p < ids.len() && id_matches_query(ids[p as int]@, query)
            },
{
    let hit = |i: int| prefix_matches(ids[i]@, bytes_of_hex(query), trailing_half(query));
    positions_are_exact(0, ids.len() as int, hit);
}

/// A query shorter than seven characters is never read as the beginning of
/// an identifier: the messages alone decide.
pub proof fn short_query_is_searched_as_text(
    ids: Seq<CommitId>,
    query: Seq<char>,
    read: Seq<Seq<char>>,
)
    requires
        query.len() < 7,
        lowercase(query).len() > 0,
    ensures
        !is_hash_query(query),
        messages_needed(ids, query),
        search_result(ids, query, read) == text_positions(
            0,
            ids.len() as int,
            read,
            lowercase(query),
        ),
{
}

/// The half byte at place `i` of an identifier written in digits.
pub open spec fn half_at(id: Seq<u8>, i: int) -> u8 {
    if i % 2 == 0 {
        id[i / 2] / 16
    } else {
        id[i / 2] % 16
    }
}

/// The identifier, written out in digits, begins with the digits of the
/// query, case aside.
pub open spec fn digits_agree(id: Seq<u8>, query: Seq<char>) -> bool {
    forall|i: int| 0 <= i < query.len() ==> #[trigger] hex_value(query[i]) == Some(half_at(id, i))
}

/// An identifier begins with a query of hexadecimal digits exactly when
/// the identifier, written out in digits, begins with the digits of the
/// query, case aside.
pub proof fn prefix_match_reads_digit_by_digit(id: Seq<u8>, query: Seq<char>)
    requires
        id.len() == 20,
        is_hash_query(query),
    ensures
        id_matches_query(id, query) <==> digits_agree(id, query),
{
    if id_matches_query(id, query) {
        digits_follow_from_the_prefix(id, query);
    }
    if digits_agree(id, query) {
        prefix_follows_from_the_digits(id, query);
    }
}

/// The byte that two digits write has the digits' values as its halves.
proof fn halves_of_a_written_byte(high: u8, low: u8)
    requires
        high < 16,
        low < 16,
    ensures
        ((high * 16 + low) as u8) / 16 == high,
        ((high * 16 + low) as u8) % 16 == low,
{
}

/// Where an identifier matches a query, its digits agree with the query.
proof fn digits_follow_from_the_prefix(id: Seq<u8>, query: Seq<char>)
    requires
        id.len() == 20,
        is_hash_query(query),
        id_matches_query(id, query),
    ensures
        digits_agree(id, query),
{
    let whole = bytes_of_hex(query);
    assert forall|i: int| 0 <= i < query.len() implies #[trigger] hex_value(query[i]) == Some(
        half_at(id, i),
    ) by {
        let k = i / 2;
        if k < whole.len() {
            let h = hex_value(query[2 * k]);
            let l = hex_value(query[2 * k + 1]);
            assert(h is Some && l is Some);
            assert(id[k] == whole[k]);
            halves_of_a_written_byte(h->Some_0, l->Some_0);
        } else {
            assert(i == query.len() - 1);
            assert(query.last() == query[i]);
        }
    }
}

/// Where the digits of an identifier agree with a query, the identifier
/// matches the query.
proof fn prefix_follows_from_the_digits(id: Seq<u8>, query: Seq<char>)
    requires
        id.len() == 20,
        is_hash_query(query),
        digits_agree(id, query),
    ensures
        id_matches_query(id, query),
{
    let whole = bytes_of_hex(query);
    assert forall|k: int| 0 <= k < whole.len() implies id[k] == whole[k] by {
        assert(hex_value(query[2 * k]) == Some(half_at(id, 2 * k)));
        assert(hex_value(query[2 * k + 1]) == Some(half_at(id, 2 * k + 1)));
        assert((2 * k) / 2 == k && (2 * k + 1) / 2 == k);
        assert((id[k] / 16) * 16 + id[k] % 16 == id[k]);
    }
    if query.len() % 2 == 1 {
        let i = query.len() - 1;
        assert(hex_value(query[i]) == Some(half_at(id, i)));
        assert(i / 2 == whole.len());
        assert(query.last() == query[i]);
    }
}

/// What the first `n` of `count` workers find, put end to end in the
/// order of their parts.
pub open spec fn shards_hits(total: int, count: int, n: int, hit: spec_fn(int) -> bool) -> Seq<u32>
    decreases n,
{
    if n <= 0 {
        Seq::empty()
    } else {
        shards_hits(total, count, n - 1, hit) + positions_in(
            shard_start(total, count, n - 1),
            shard_start(total, count, n),
            hit,
        )
    }
}

/// Cutting the list into parts changes nothing: what the workers find, put
/// end to end in the order of their parts, is what one scan of the whole
/// list finds.
pub proof fn shards_find_what_one_scan_finds(total: int, count: int, hit: spec_fn(int) -> bool)
    requires
        total >= 0,
        count >= 1,
    ensures
        shards_hits(total, count, count, hit) == positions_in(0, total, hit),
{
    shards_cover_the_list(total, count);
    first_shards_scan_a_prefix(total, count, count, hit);
}

/// What the first `n` workers find is what one scan finds up to the end
/// of the last of their parts.
proof fn first_shards_scan_a_prefix(total: int, count: int, n: int, hit: spec_fn(int) -> bool)
    requires
        total >= 0,
        count >= 1,
        0 <= n <= count,
    ensures
        shards_hits(total, count, n, hit) == positions_in(0, shard_start(total, count, n), hit),
    decreases n,
{
    shards_cover_the_list(total, count);
    if n > 0 {
        first_shards_scan_a_prefix(total, count, n - 1, hit);
        assert(0 <= shard_start(total, count, n - 1) <= shard_start(total, count, n - 1 + 1));
        crate::positions::positions_of_parts(
            0,
            shard_start(total, count, n - 1),
            shard_start(total, count, n),
            hit,
        );
    } else {
        assert(positions_in(0, 0, hit) =~= Seq::<u32>::empty());
    }
}

/// The order in which the workers finish does not show: an ascending list
/// of all the positions that were found is the list that one scan of the
/// whole finds, whatever order the findings came in.
pub proof fn merged_findings_are_the_scan(
    gathered: Seq<u32>,
    merged: Seq<u32>,
    total: int,
    hit: spec_fn(int) -> bool,
)
    requires
        0 <= total <= MAX_INDEX_LEN,
        crate::positions::ascending(merged),
        merged.to_multiset() == gathered.to_multiset(),
        gathered.to_multiset() == positions_in(0, total, hit).to_multiset(),
    ensures
        merged == positions_in(0, total, hit),
        strictly_ascending(merged),
{
    positions_are_exact(0, total, hit);
    crate::positions::ascending_lists_of_the_same_are_equal(merged, positions_in(0, total, hit));
}

/// Every worker has succeeded, and the result at place `i` is what a scan
/// of part `i` finds.
pub open spec fn results_of_the_parts(
    results: Seq<Result<Vec<u32>, GitError>>,
    total: int,
    hit: spec_fn(int) -> bool,
) -> bool {
    forall|i: int|
        0 <= i < results.len() ==> ((#[trigger] results[i]) matches Ok(found) && found@
            == positions_in(
            shard_start(total, results.len() as int, i),
            shard_start(total, results.len() as int, i + 1),
            hit,
        ))
}

/// A search in parts is a search of the whole: where every worker has
/// scanned its part, the ascending list of all that they found is the list
/// that one scan of the whole list finds.
pub proof fn search_in_parts_is_a_search_of_the_whole(
    results: Seq<Result<Vec<u32>, GitError>>,
    merged: Seq<u32>,
    total: int,
    hit: spec_fn(int) -> bool,
)
    requires
        0 <= total <= MAX_INDEX_LEN,
        results.len() >= 1,
        results_of_the_parts(results, total, hit),
        crate::positions::ascending(merged),
        merged.to_multiset() == gathered_hits(results).to_multiset(),
    ensures
        merged == positions_in(0, total, hit),
{
    gathered_parts_are_the_first_shards(results, results.len() as int, total, hit);
    assert(results.take(results.len() as int) =~= results);
    shards_find_what_one_scan_finds(total, results.len() as int, hit);
    merged_findings_are_the_scan(gathered_hits(results), merged, total, hit);
}

/// What the first `n` results hold, put end to end, is what the first `n`
/// workers find.
proof fn gathered_parts_are_the_first_shards(
    results: Seq<Result<Vec<u32>, GitError>>,
    n: int,
    total: int,
    hit: spec_fn(int) -> bool,
)
    requires
        0 <= n <= results.len(),
        results_of_the_parts(results, total, hit),
    ensures
        gathered_hits(results.take(n)) == shards_hits(total, results.len() as int, n, hit),
    decreases n,
{
    if n > 0 {
        gathered_parts_are_the_first_shards(results, n - 1, total, hit);
        assert(results.take(n).drop_last() =~= results.take(n - 1));
        assert(results.take(n).last() == results[n - 1]);
    } else {
        assert(results.take(0) =~= Seq::<Result<Vec<u32>, GitError>>::empty());
    }
}

} // verus!
