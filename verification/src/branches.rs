//! Branches as they are listed: in natural order with `main` first, each
//! with the age of its last commit.

use vstd::prelude::*;
use vstd::string::StringExecFns;
use vstd::seq_lib::to_multiset_insert;
use crate::clock::wall_clock_seconds;
use crate::git::BranchInfo;
use crate::lines::{bounded_value, is_digit, read_digits};
use crate::numbers::{decimal_digits, decimal_text};
use crate::query::CommitTime;
use crate::text::str_eq;
use crate::text::{chars_of, texts_of};

verus! {

/// How one name stands to another.
#[derive(Debug, Clone, Copy, PartialEq, Eq, Structural)]
pub enum NaturalOrder {
    Less,
    Equal,
    Greater,
}

/// How many decimal digits stand at the front of a text.
pub open spec fn digit_run_len(text: Seq<char>) -> int
    decreases text.len(),
{
    if text.len() == 0 || !is_digit(text[0]) {
        0
    } else {
        1 + digit_run_len(text.drop_first())
    }
}

/// The number that a run of digits writes; zero for a number too great
/// for 64 bits.
pub open spec fn run_value(digits: Seq<char>) -> u64 {
    match bounded_value(digits, u64::MAX as nat) {
        Some(v) => v as u64,
        None => 0,
    }
}

/// What is left of a text once the run of digits at its front has been
/// read. Reading the run uses up the character that ends it.
pub open spec fn after_run(text: Seq<char>) -> Seq<char> {
    let n = digit_run_len(text);
    if 0 < n < text.len() {
        text.skip(n + 1)
    } else {
        Seq::empty()
    }
}

/// A letter of the English alphabet in lower case; any other character as
/// it is.
pub open spec fn ascii_lower(c: char) -> char {
    if 'A' <= c <= 'Z' {
        ((c as u8) + 32) as char
    } else {
        c
    }
}

/// How one number stands to another.
pub open spec fn number_order(x: int, y: int) -> NaturalOrder {
    if x < y {
        NaturalOrder::Less
    } else if x > y {
        NaturalOrder::Greater
    } else {
        NaturalOrder::Equal
    }
}

/// How one character stands to another: by the letters in lower case
/// first, and between the two cases of one letter the capital comes
/// first.
pub open spec fn char_order(x: char, y: char) -> NaturalOrder {
    match number_order(ascii_lower(x) as int, ascii_lower(y) as int) {
        NaturalOrder::Equal => number_order(x as int, y as int),
        other => other,
    }
}

/// How one name stands to another in natural order. The names are read
/// from the front. Where both go on with a digit, the runs of digits are
/// read as numbers and compared; where the numbers are equal, reading
/// goes on behind the character that ends each run. Elsewhere the next
/// characters are compared. The name that ends first comes first.
pub open spec fn natural_order(a: Seq<char>, b: Seq<char>) -> NaturalOrder
    decreases a.len(),
{
    if a.len() == 0 && b.len() == 0 {
        NaturalOrder::Equal
    } else if a.len() == 0 {
        NaturalOrder::Less
    } else if b.len() == 0 {
        NaturalOrder::Greater
    } else if is_digit(a[0]) && is_digit(b[0]) {
        let x = run_value(a.take(digit_run_len(a)));
        let y = run_value(b.take(digit_run_len(b)));
        match number_order(x as int, y as int) {
            NaturalOrder::Equal => if after_run(a).len() < a.len() {
                natural_order(after_run(a), after_run(b))
            } else {
                NaturalOrder::Equal
            },
            other => other,
        }
    } else {
        match char_order(a[0], b[0]) {
            NaturalOrder::Equal => natural_order(a.skip(1), b.skip(1)),
            other => other,
        }
    }
}

/// A run of digits ends where a character that is no digit stands with
/// digits only before it.
proof fn digit_run_found(text: Seq<char>, k: int)
    requires
        0 <= k <= text.len(),
        forall|i: int| 0 <= i < k ==> is_digit(#[trigger] text[i]),
        k < text.len() ==> !is_digit(text[k]),
    ensures
        digit_run_len(text) == k,
    decreases k,
{
    if k > 0 {
        let rest = text.drop_first();
        assert(is_digit(text[0]));
        assert forall|i: int| 0 <= i < k - 1 implies is_digit(#[trigger] rest[i]) by {
            assert(rest[i] == text[i + 1]);
        }
        digit_run_found(rest, k - 1);
    }
}

/// How one number stands to another.
fn order_numbers(x: u64, y: u64) -> (order: NaturalOrder)
    ensures
        order == number_order(x as int, y as int),
{
    if x < y {
        NaturalOrder::Less
    } else if x > y {
        NaturalOrder::Greater
    } else {
        NaturalOrder::Equal
    }
}

/// A letter of the English alphabet in lower case.
fn lower(c: char) -> (out: char)
    ensures
        out == ascii_lower(c),
{
    if 'A' <= c && c <= 'Z' {
        ((c as u8) + 32) as char
    } else {
        c
    }
}

/// How one character stands to another.
fn order_chars(x: char, y: char) -> (order: NaturalOrder)
    ensures
        order == char_order(x, y),
{
    match order_numbers(lower(x) as u64, lower(y) as u64) {
        NaturalOrder::Equal => order_numbers(x as u64, y as u64),
        other => other,
    }
}

/// Reads the run of digits that begins at `at`: its value, and where
/// reading goes on.
fn read_run(text: &[char], at: usize) -> (read: (u64, usize))
    requires
        at < text@.len(),
        is_digit(text@[at as int]),
    ensures
        read.0 == run_value(text@.skip(at as int).take(digit_run_len(text@.skip(at as int)))),
        at < read.1 <= text@.len(),
        text@.skip(read.1 as int) == after_run(text@.skip(at as int)),
{
    let ghost tail = text@.skip(at as int);
    let mut end: usize = at;
    while end < text.len() && '0' <= text[end] && text[end] <= '9'
        invariant
            at <= end <= text.len(),
            forall|i: int| at <= i < end ==> is_digit(#[trigger] text@[i]),
        decreases text.len() - end,
    {
        end += 1;
    }
    proof {
        assert forall|i: int| 0 <= i < end - at implies is_digit(#[trigger] tail[i]) by {
            assert(tail[i] == text@[at + i]);
        }
        if end < text.len() {
            assert(tail[end - at] == text@[end as int]);
        }
        digit_run_found(tail, end - at);
    }
    let digits = vstd::slice::slice_subrange(text, at, end);
    assert(digits@ =~= tail.take(end - at));
    let value = match read_digits(digits, u64::MAX) {
        Some(v) => v,
        None => 0,
    };
    let next = if end < text.len() {
        end + 1
    } else {
        end
    };
    proof {
        if end < text.len() {
            assert(tail.skip(end - at + 1) =~= text@.skip(end + 1));
        } else {
            assert(text@.skip(end as int) =~= Seq::<char>::empty());
        }
    }
    (value, next)
}

/// How one name stands to another in natural order, so that `branch-2`
/// comes before `branch-10`.
pub fn natural_compare(a: &str, b: &str) -> (order: NaturalOrder)
    ensures
        order == natural_order(a@, b@),
{
    let x = chars_of(a);
    let y = chars_of(b);
    natural_compare_chars(x.as_slice(), y.as_slice())
}

/// How one name stands to another in natural order.
pub fn natural_compare_chars(x: &[char], y: &[char]) -> (order: NaturalOrder)
    ensures
        order == natural_order(x@, y@),
{
    let mut i: usize = 0;
    let mut j: usize = 0;
    proof {
        assert(x@.skip(0) =~= x@);
        assert(y@.skip(0) =~= y@);
    }
    loop
        invariant
            i <= x.len(),
            j <= y.len(),
            natural_order(x@, y@) == natural_order(x@.skip(i as int), y@.skip(j as int)),
        decreases x.len() - i,
    {
        let ghost rest_x = x@.skip(i as int);
        let ghost rest_y = y@.skip(j as int);
        if i == x.len() && j == y.len() {
            return NaturalOrder::Equal;
        }
        if i == x.len() {
            return NaturalOrder::Less;
        }
        if j == y.len() {
            return NaturalOrder::Greater;
        }
        proof {
            assert(rest_x[0] == x@[i as int]);
            assert(rest_y[0] == y@[j as int]);
        }
        let both_digits = '0' <= x[i] && x[i] <= '9' && '0' <= y[j] && y[j] <= '9';
        if both_digits {
            let (vx, next_i) = read_run(x, i);
            let (vy, next_j) = read_run(y, j);
            match order_numbers(vx, vy) {
                NaturalOrder::Equal => {
                    proof {
                        assert(after_run(rest_x).len() < rest_x.len());
                    }
                    i = next_i;
                    j = next_j;
                },
                other => {
                    return other;
                },
            }
        } else {
            match order_chars(x[i], y[j]) {
                NaturalOrder::Equal => {
                    proof {
                        assert(rest_x.skip(1) =~= x@.skip(i + 1));
                        assert(rest_y.skip(1) =~= y@.skip(j + 1));
                    }
                    i += 1;
                    j += 1;
                },
                other => {
                    return other;
                },
            }
        }
    }
}

/// The name of the branch that is listed first.
pub open spec fn main_branch() -> Seq<char> {
    "main"@
}

/// How one branch stands to another in the list: `main` comes first, and
/// the others stand in natural order.
#[verifier::opaque]
pub open spec fn branch_order(a: Seq<char>, b: Seq<char>) -> NaturalOrder {
    if a == main_branch() && b == main_branch() {
        NaturalOrder::Equal
    } else if a == main_branch() {
        NaturalOrder::Less
    } else if b == main_branch() {
        NaturalOrder::Greater
    } else {
        natural_order(a, b)
    }
}

/// How one branch stands to another in the list.
pub fn compare_branches(a: &str, b: &str) -> (order: NaturalOrder)
    ensures
        order == branch_order(a@, b@),
{
    reveal(branch_order);
    let a_main = str_eq(a, "main");
    let b_main = str_eq(b, "main");
    if a_main && b_main {
        NaturalOrder::Equal
    } else if a_main {
        NaturalOrder::Less
    } else if b_main {
        NaturalOrder::Greater
    } else {
        natural_compare(a, b)
    }
}

/// A branch as plain values.
pub struct BranchView {
    pub name: Seq<char>,
    pub latest_commit_time: CommitTime,
}

/// The views of a list of branches.
pub open spec fn branch_views(branches: Seq<BranchInfo>) -> Seq<BranchView> {
    branches.map_values(|b: BranchInfo| branch_view(b))
}

/// Each branch of the list is followed by one that it comes before: it
/// was put before every branch that it comes before, from the back.
pub open spec fn in_list_order(branches: Seq<BranchView>) -> bool {
    forall|i: int, j: int|
        0 <= i && j == i + 1 && j < branches.len() ==> branch_order(
            (#[trigger] branches[j]).name,
            (#[trigger] branches[i]).name,
        ) != NaturalOrder::Less
}

/// The view of one branch.
pub open spec fn branch_view(b: BranchInfo) -> BranchView {
    BranchView { name: b.name@, latest_commit_time: b.latest_commit_time }
}

/// Puts a branch into a list in list order: before every branch at the
/// back that it comes before, and so behind every branch that it stands
/// equal to.
fn insert_branch(sorted: &mut Vec<BranchInfo>, entry: BranchInfo)
    requires
        in_list_order(branch_views(old(sorted)@)),
    ensures
        in_list_order(branch_views(final(sorted)@)),
        exists|at: int|
            0 <= at <= old(sorted)@.len() && branch_views(final(sorted)@) == #[trigger] branch_views(
                old(sorted)@,
            ).insert(at, branch_view(entry)),
{
    let mut at: usize = sorted.len();
    let mut placed = false;
    while at > 0 && !placed
        invariant
            at <= sorted.len(),
            sorted@ == old(sorted)@,
            forall|k: int|
                at <= k < sorted@.len() ==> branch_order(entry.name@, (#[trigger] sorted@[k]).name@)
                    == NaturalOrder::Less,
            placed ==> at > 0 && branch_order(entry.name@, sorted@[at - 1].name@)
                != NaturalOrder::Less,
        decreases at + (if placed { 0int } else { 1int }),
    {
        match compare_branches(entry.name.as_str(), sorted[at - 1].name.as_str()) {
            NaturalOrder::Less => {
                at -= 1;
            },
            _ => {
                placed = true;
            },
        }
    }
    let ghost before = branch_views(sorted@);
    let ghost entry_view = branch_view(entry);
    proof {
        if at > 0 {
            assert(before[at - 1].name == sorted@[at - 1].name@);
        }
        if at < sorted@.len() {
            assert(before[at as int].name == sorted@[at as int].name@);
        }
        insertion_keeps_list_order(before, at as int, entry_view);
    }
    sorted.insert(at, entry);
    assert(branch_views(sorted@) =~= before.insert(at as int, entry_view));
}

/// A branch put between one that it does not come before and one that it
/// comes before leaves the list in list order.
proof fn insertion_keeps_list_order(before: Seq<BranchView>, at: int, entry: BranchView)
    requires
        in_list_order(before),
        0 <= at <= before.len(),
        at > 0 ==> branch_order(entry.name, before[at - 1].name) != NaturalOrder::Less,
        at < before.len() ==> branch_order(entry.name, before[at].name) == NaturalOrder::Less,
    ensures
        in_list_order(before.insert(at, entry)),
{
    let after = before.insert(at, entry);
    assert forall|i: int, k: int| 0 <= i && k == i + 1 && k < after.len() implies branch_order(
        (#[trigger] after[k]).name,
        (#[trigger] after[i]).name,
    ) != NaturalOrder::Less by {
        if k < at {
            assert(after[k] == before[k] && after[i] == before[i]);
        } else if k == at {
            assert(after[k] == entry);
            assert(after[i] == before[i]);
        } else if k == at + 1 {
            assert(after[i] == entry);
            assert(after[k] == before[i]);
            less_is_not_mutual(entry.name, before[i].name);
        } else {
            assert(after[k] == before[i] && after[i] == before[i - 1]);
            assert(branch_order(before[i].name, before[i - 1].name) != NaturalOrder::Less);
        }
    }
}

/// The branches in the order of the list: `main` first, then the others in
/// natural order; branches that stand equal keep the order they came in.
/// Nothing is added and nothing is lost.
pub fn sort_branches(branches: &[BranchInfo]) -> (sorted: Vec<BranchInfo>)
    ensures
        in_list_order(branch_views(sorted@)),
        branch_views(sorted@).to_multiset() == branch_views(branches@).to_multiset(),
{
    let mut sorted: Vec<BranchInfo> = Vec::new();
    let mut i: usize = 0;
    proof {
        assert(branches@.take(0) =~= Seq::<BranchInfo>::empty());
        assert(branch_views(sorted@) =~= branch_views(branches@.take(0)));
    }
    while i < branches.len()
        invariant
            i <= branches.len(),
            in_list_order(branch_views(sorted@)),
            branch_views(sorted@).to_multiset() == branch_views(
                branches@.take(i as int),
            ).to_multiset(),
        decreases branches.len() - i,
    {
        let entry = BranchInfo {
            name: branches[i].name.clone(),
            latest_commit_time: branches[i].latest_commit_time,
        };
        let ghost before = branch_views(sorted@);
        let ghost entry_view = branch_view(entry);
        insert_branch(&mut sorted, entry);
        proof {
            let at = choose|at: int|
                0 <= at <= before.len() && branch_views(sorted@) == #[trigger] before.insert(
                    at,
                    entry_view,
                );
            to_multiset_insert(before, at, entry_view);
            let done = branch_views(branches@.take(i as int));
            let more = branch_views(branches@.take(i + 1));
            assert(more =~= done.push(entry_view));
            vstd::seq_lib::to_multiset_build(done, entry_view);
        }
        i += 1;
    }
    assert(branches@.take(i as int) =~= branches@);
    sorted
}

/// Of two names at most one comes before the other.
pub proof fn less_is_not_mutual(a: Seq<char>, b: Seq<char>)
    ensures
        !(branch_order(a, b) == NaturalOrder::Less && branch_order(b, a) == NaturalOrder::Less),
        !(natural_order(a, b) == NaturalOrder::Less && natural_order(b, a) == NaturalOrder::Less),
    decreases a.len(),
{
    reveal(branch_order);
    if a.len() > 0 && b.len() > 0 {
        if is_digit(a[0]) && is_digit(b[0]) {
            let x = run_value(a.take(digit_run_len(a)));
            let y = run_value(b.take(digit_run_len(b)));
            if x == y && after_run(a).len() < a.len() && after_run(b).len() < b.len() {
                less_is_not_mutual(after_run(a), after_run(b));
            }
        } else {
            if char_order(a[0], b[0]) == NaturalOrder::Equal {
                less_is_not_mutual(a.skip(1), b.skip(1));
            }
        }
    }
}

/// The seconds from a moment to now, as the clock of the moment's own
/// zone counts them, kept within 64 bits.
pub open spec fn elapsed_seconds(now_seconds: i64, then: CommitTime) -> i64 {
    let elapsed = now_seconds - wall_clock_seconds(then);
    if elapsed > i64::MAX {
        i64::MAX
    } else if elapsed < i64::MIN {
        i64::MIN
    } else {
        elapsed as i64
    }
}

/// An age in words: `just now` under a minute, then whole minutes, hours,
/// days, weeks (up to thirty days), months of thirty days (up to twelve)
/// and years of 365 days, each with its letter.
pub open spec fn time_ago(elapsed: i64) -> Seq<char> {
    let days = elapsed / 86_400;
    if elapsed < 60 {
        "just now"@
    } else if elapsed / 60 < 60 {
        decimal_digits((elapsed / 60) as nat) + "m"@
    } else if elapsed / 3_600 < 24 {
        decimal_digits((elapsed / 3_600) as nat) + "h"@
    } else if days < 7 {
        decimal_digits(days as nat) + "d"@
    } else if days / 30 == 0 {
        decimal_digits((days / 7) as nat) + "w"@
    } else if days / 30 < 12 {
        decimal_digits((days / 30) as nat) + "mo"@
    } else {
        decimal_digits((days / 365) as nat) + "y"@
    }
}

/// A number with a unit behind it.
fn with_unit(n: u64, unit: &str) -> (text: String)
    ensures
        text@ == decimal_digits(n as nat) + unit@,
{
    let mut text = decimal_text(n);
    text.append(unit);
    text
}

/// An age of `elapsed` seconds in words.
pub fn time_ago_text(elapsed: i64) -> (text: String)
    ensures
        text@ == time_ago(elapsed),
{
    if elapsed < 60 {
        return String::from_str("just now");
    }
    let seconds = elapsed as u64;
    let days = seconds / 86_400;
    if seconds / 60 < 60 {
        with_unit(seconds / 60, "m")
    } else if seconds / 3_600 < 24 {
        with_unit(seconds / 3_600, "h")
    } else if days < 7 {
        with_unit(days, "d")
    } else if days / 30 == 0 {
        with_unit(days / 7, "w")
    } else if days / 30 < 12 {
        with_unit(days / 30, "mo")
    } else {
        with_unit(days / 365, "y")
    }
}

/// The age of a moment at the time `now_seconds`, in words.
pub fn format_time_ago(now_seconds: i64, then: &CommitTime) -> (text: String)
    ensures
        text@ == time_ago(elapsed_seconds(now_seconds, *then)),
{
    let shift: i64 = (then.offset_minutes as i64) * 60;
    let wall: i128 = then.seconds as i128 + shift as i128;
    let elapsed: i128 = now_seconds as i128 - wall;
    let clipped: i64 = if elapsed > i64::MAX as i128 {
        i64::MAX
    } else if elapsed < i64::MIN as i128 {
        i64::MIN
    } else {
        elapsed as i64
    };
    time_ago_text(clipped)
}

/// The first place in a list at which a name stands.
pub open spec fn first_index_of(names: Seq<Seq<char>>, name: Seq<char>) -> Option<int>
    decreases names.len(),
{
    if names.len() == 0 {
        None
    } else {
        match first_index_of(names.drop_last(), name) {
            Some(i) => Some(i),
            None => if names.last() == name {
                Some(names.len() - 1)
            } else {
                None
            },
        }
    }
}

/// The row that is selected in a list of branches: the branch that was
/// selected before, or if none was the checked-out branch, where the list
/// holds it; else `main`, where the list holds it; else the first row.
pub open spec fn selected_row(
    names: Seq<Seq<char>>,
    preserved: Option<Seq<char>>,
    checked_out: Option<Seq<char>>,
) -> Option<int> {
    let wanted = match preserved {
        Some(p) => Some(p),
        None => checked_out,
    };
    let found = match wanted {
        Some(w) => first_index_of(names, w),
        None => None,
    };
    match found {
        Some(i) => Some(i),
        None => match first_index_of(names, main_branch()) {
            Some(i) => Some(i),
            None => if names.len() > 0 {
                Some(0)
            } else {
                None
            },
        },
    }
}

/// The first place in a list at which a name stands.
pub fn index_of_branch(names: &Vec<String>, name: &str) -> (found: Option<usize>)
    ensures
        match found {
            Some(i) => first_index_of(texts_of(names@), name@) == Some(i as int),
            None => first_index_of(texts_of(names@), name@) is None,
        },
{
    let ghost all = texts_of(names@);
    let mut i: usize = 0;
    proof {
        assert(all.take(0) =~= Seq::<Seq<char>>::empty());
    }
    while i < names.len()
        invariant
            i <= names.len(),
            all == texts_of(names@),
            first_index_of(all.take(i as int), name@) is None,
        decreases names.len() - i,
    {
        proof {
            assert(all.take(i + 1).drop_last() =~= all.take(i as int));
            assert(all.take(i + 1).last() == names@[i as int]@);
        }
        if str_eq(names[i].as_str(), name) {
            proof {
                first_index_stays(all, name@, i as int + 1);
            }
            return Some(i);
        }
        i += 1;
    }
    assert(all.take(i as int) =~= all);
    None
}

/// A name found in the first `k` entries of a list is found at the same
/// place in the whole list.
proof fn first_index_stays(names: Seq<Seq<char>>, name: Seq<char>, k: int)
    requires
        0 <= k <= names.len(),
        first_index_of(names.take(k), name) is Some,
    ensures
        first_index_of(names, name) == first_index_of(names.take(k), name),
    decreases names.len() - k,
{
    if k < names.len() {
        assert(names.take(k + 1).drop_last() =~= names.take(k));
        first_index_stays(names, name, k + 1);
    } else {
        assert(names.take(k) =~= names);
    }
}

/// The row that is selected in a list of branches.
pub fn choose_selected_branch(
    names: &Vec<String>,
    preserved: Option<&str>,
    checked_out: Option<&str>,
) -> (row: Option<usize>)
    ensures
        match row {
            Some(i) => selected_row(
                texts_of(names@),
                match preserved {
                    Some(p) => Some(p@),
                    None => None,
                },
                match checked_out {
                    Some(c) => Some(c@),
                    None => None,
                },
            ) == Some(i as int),
            None => selected_row(
                texts_of(names@),
                match preserved {
                    Some(p) => Some(p@),
                    None => None,
                },
                match checked_out {
                    Some(c) => Some(c@),
                    None => None,
                },
            ) is None,
        },
{
    let wanted = match preserved {
        Some(p) => Some(p),
        None => checked_out,
    };
    let found = match wanted {
        Some(w) => index_of_branch(names, w),
        None => None,
    };
    match found {
        Some(i) => Some(i),
        None => match index_of_branch(names, "main") {
            Some(i) => Some(i),
            None => if names.len() > 0 {
                Some(0)
            } else {
                None
            },
        },
    }
}

} // verus!
