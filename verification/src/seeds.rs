//! How the starting points of a walk are read: which specs hide, which
//! push, and what a range stands for.

use vstd::prelude::*;
use crate::commit_id::CommitId;
use crate::text::{chars_of, text_of};

verus! {

/// What a revision spec was resolved to: the ends that resolved, and the
/// kind of spec that was read.
#[derive(Debug, Clone, Copy, PartialEq, Eq)]
pub struct ParsedRevspec {
    pub from: Option<CommitId>,
    pub to: Option<CommitId>,
    /// The spec names a single object.
    pub single: bool,
    /// The spec is written with `...`.
    pub merge_base: bool,
}

/// The rest of a spec that begins with `^`, which hides what the rest
/// names; `None` for a spec that does not begin so.
pub open spec fn hidden_spec(spec: Seq<char>) -> Option<Seq<char>> {
    if spec.len() > 0 && spec[0] == '^' {
        Some(spec.skip(1))
    } else {
        None
    }
}

/// One instruction to the traversal before it starts.
#[derive(Debug, Clone, Copy, PartialEq, Eq)]
pub enum SeedStep {
    /// Start from this commit.
    Push(CommitId),
    /// Start from a best common ancestor of these two commits.
    PushMergeBase(CommitId, CommitId),
    /// Leave this commit and its ancestors out.
    Hide(CommitId),
    /// Start from the commit that HEAD points at.
    PushHead,
}

/// What the store resolved a starting point to.
#[derive(Debug, Clone, Copy, PartialEq, Eq)]
pub enum Resolved {
    /// The object named behind a `^`.
    Hidden(CommitId),
    /// The ends and the kind of any other spec.
    Parsed(ParsedRevspec),
}

/// How the traversal is set up before it starts.
pub struct WalkSetup {
    pub topological: bool,
    pub by_time: bool,
    pub reverse: bool,
    /// The instructions given, in order.
    pub seeds: Seq<SeedStep>,
}

/// The instructions that a resolved spec stands for. A single revision is
/// pushed. A range pushes its `to` end, then (written with `...`) the merge
/// base of its two ends, and hides its `from` end. A spec whose needed end
/// did not resolve stands for nothing.
pub open spec fn seed_steps(parsed: ParsedRevspec) -> Option<Seq<SeedStep>> {
    if parsed.single {
        match parsed.from {
            Some(from) => Some(seq![SeedStep::Push(from)]),
            None => None,
        }
    } else {
        match (parsed.from, parsed.to) {
            (Some(from), Some(to)) => Some(
                if parsed.merge_base {
                    seq![SeedStep::Push(to), SeedStep::PushMergeBase(from, to), SeedStep::Hide(from)]
                } else {
                    seq![SeedStep::Push(to), SeedStep::Hide(from)]
                },
            ),
            _ => None,
        }
    }
}

/// The instructions that a resolved starting point stands for: what is
/// named behind a `^` is hidden; any other spec is read as `seed_steps`
/// says.
pub open spec fn steps_of(resolved: Resolved) -> Option<Seq<SeedStep>> {
    match resolved {
        Resolved::Hidden(id) => Some(seq![SeedStep::Hide(id)]),
        Resolved::Parsed(parsed) => seed_steps(parsed),
    }
}

/// The instructions that a list of resolved starting points stands for,
/// one starting point after the other.
pub open spec fn seeds_of(resolved: Seq<Resolved>) -> Seq<SeedStep>
    decreases resolved.len(),
{
    if resolved.len() == 0 {
        Seq::empty()
    } else {
        seeds_of(resolved.drop_last()) + match steps_of(resolved.last()) {
            Some(steps) => steps,
            None => Seq::empty(),
        }
    }
}

/// Each starting point was resolved in the way its form asks for, and
/// stands for instructions: a spec behind `^` was resolved as what is
/// hidden, any other was parsed, and no needed end is missing.
pub open spec fn well_resolved(revspecs: Seq<Seq<char>>, resolved: Seq<Resolved>) -> bool {
    &&& resolved.len() == revspecs.len()
    &&& forall|i: int|
        0 <= i < resolved.len() ==> {
            &&& (#[trigger] resolved[i]) is Hidden <==> hidden_spec(revspecs[i]) is Some
            &&& steps_of(resolved[i]) is Some
        }
}

/// The instructions given for a list of starting points: those that the
/// resolved starting points stand for, and for an empty list the one to
/// start from HEAD.
pub open spec fn planned_seeds(revspecs: Seq<Seq<char>>, resolved: Seq<Resolved>) -> Seq<SeedStep> {
    if revspecs.len() == 0 {
        seq![SeedStep::PushHead]
    } else {
        seeds_of(resolved)
    }
}

/// The rest of a spec that begins with `^`.
pub fn split_hide(spec: &str) -> (rest: Option<String>)
    ensures
        match rest {
            Some(r) => hidden_spec(spec@) == Some(r@),
            None => hidden_spec(spec@) is None,
        },
{
    let chars = chars_of(spec);
    if chars.len() > 0 && chars[0] == '^' {
        let tail = vstd::slice::slice_subrange(chars.as_slice(), 1, chars.len());
        assert(tail@ =~= spec@.skip(1));
        Some(text_of(tail))
    } else {
        None
    }
}

/// The instructions that a resolved spec stands for.
pub fn plan_seeds(parsed: &ParsedRevspec) -> (plan: Option<Vec<SeedStep>>)
    ensures
        match plan {
            Some(steps) => seed_steps(*parsed) == Some(steps@),
            None => seed_steps(*parsed) is None,
        },
{
    let mut steps: Vec<SeedStep> = Vec::new();
    if parsed.single {
        match parsed.from {
            Some(from) => {
                steps.push(SeedStep::Push(from));
                assert(steps@ =~= seq![SeedStep::Push(from)]);
                Some(steps)
            },
            None => None,
        }
    } else {
        match (parsed.from, parsed.to) {
            (Some(from), Some(to)) => {
                steps.push(SeedStep::Push(to));
                if parsed.merge_base {
                    steps.push(SeedStep::PushMergeBase(from, to));
                }
                steps.push(SeedStep::Hide(from));
                assert(parsed.merge_base ==> steps@ =~= seq![
                    SeedStep::Push(to),
                    SeedStep::PushMergeBase(from, to),
                    SeedStep::Hide(from),
                ]);
                assert(!parsed.merge_base ==> steps@ =~= seq![
                    SeedStep::Push(to),
                    SeedStep::Hide(from),
                ]);
                Some(steps)
            },
            _ => None,
        }
    }
}

} // verus!
