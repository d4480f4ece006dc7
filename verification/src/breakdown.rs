//! Decomposition of a reputation change into the report outcomes that
//! account for it, and the short text that names them.

use vstd::prelude::*;
use crate::text::{decimal, joined, push_integer};

verus! {

/// Reputation awarded for a report with a high bounty.
pub const HIGH: i32 = 50;

/// Reputation awarded for a report with a medium bounty.
pub const MEDIUM: i32 = 25;

/// Reputation awarded for a report with a low bounty.
pub const LOW: i32 = 15;

/// Reputation awarded for a triaged report.
pub const TRIAGED: i32 = 7;

/// Reputation taken for a report closed as not applicable.
pub const NOT_APPLICABLE: i32 = -2;

/// Reputation taken for a report closed as spam.
pub const SPAM: i32 = -10;

/// How many report outcomes of each kind account for a reputation change.
#[derive(Debug)]
pub struct ReputationBreakdown {
    high_bounty: i32,
    medium_bounty: i32,
    low_bounty: i32,
    triaged: i32,
    not_applicable: i32,
    spam: i32,
}

/// The counts of a breakdown as mathematical integers.
pub struct BreakdownCounts {
    pub high_bounty: int,
    pub medium_bounty: int,
    pub low_bounty: int,
    pub triaged: int,
    pub not_applicable: int,
    pub spam: int,
}

impl View for ReputationBreakdown {
    type V = BreakdownCounts;

    closed spec fn view(&self) -> BreakdownCounts {
        BreakdownCounts {
            high_bounty: self.high_bounty as int,
            medium_bounty: self.medium_bounty as int,
            low_bounty: self.low_bounty as int,
            triaged: self.triaged as int,
            not_applicable: self.not_applicable as int,
            spam: self.spam as int,
        }
    }
}

/// The breakdown of `points`.
///
/// A gain is split greedily, largest award first: as many high bounties as
/// fit, then medium and low bounties, then triaged reports; what is left is
/// less than one triaged report and stays unexplained. A loss is read as
/// reports closed as not applicable, two points each. Since those leave at
/// most one point over, no loss is ever read as spam.
pub open spec fn breakdown_of(points: int) -> BreakdownCounts {
    if points >= 0 {
        let after_high = points % 50;
        let after_medium = after_high % 25;
        let after_low = after_medium % 15;
        BreakdownCounts {
            high_bounty: points / 50,
            medium_bounty: after_high / 25,
            low_bounty: after_medium / 15,
            triaged: after_low / 7,
            not_applicable: 0,
            spam: 0,
        }
    } else {
        BreakdownCounts {
            high_bounty: 0,
            medium_bounty: 0,
            low_bounty: 0,
            triaged: 0,
            not_applicable: (-points) / 2,
            spam: 0,
        }
    }
}

/// The text of one kind of outcome: its label, followed by the count in
/// brackets where there is more than one.
pub open spec fn part_text(label: Seq<char>, count: int) -> Seq<char> {
    if count < 2 {
        label
    } else {
        label + seq!['('] + decimal(count) + seq![')']
    }
}

/// `parts`, with the text for `count` outcomes named `label` added where
/// there is at least one.
pub open spec fn with_part(parts: Seq<Seq<char>>, label: Seq<char>, count: int) -> Seq<Seq<char>> {
    if count > 0 {
        parts.push(part_text(label, count))
    } else {
        parts
    }
}

/// The texts of the kinds of outcome that occur in `counts`, largest award
/// first.
pub open spec fn breakdown_parts(counts: BreakdownCounts) -> Seq<Seq<char>> {
    let parts = with_part(Seq::empty(), "High"@, counts.high_bounty);
    let parts = with_part(parts, "Medium"@, counts.medium_bounty);
    let parts = with_part(parts, "Low"@, counts.low_bounty);
    let parts = with_part(parts, "Triage"@, counts.triaged);
    let parts = with_part(parts, "N/A"@, counts.not_applicable);
    with_part(parts, "Spam"@, counts.spam)
}

/// The text of a breakdown: its parts, separated by a comma and a space.
pub open spec fn breakdown_text(counts: BreakdownCounts) -> Seq<char> {
    joined(breakdown_parts(counts), ", "@)
}

fn push_part(
    out: &mut String,
    any: bool,
    Ghost(parts): Ghost<Seq<Seq<char>>>,
    label: &str,
    count: i32,
) -> (now_any: bool)
    requires
        old(out)@ == joined(parts, ", "@),
        any == (parts.len() > 0),
    ensures
        final(out)@ == joined(with_part(parts, label@, count as int), ", "@),
        now_any == (with_part(parts, label@, count as int).len() > 0),
{
    if count > 0 {
        let ghost text = part_text(label@, count as int);
        let ghost grown = parts.push(text);
        assert(grown.drop_last() =~= parts);
        if any {
            out.append(", ");
        }
        out.append(label);
        if count >= 2 {
            proof {
                reveal_strlit("(");
                reveal_strlit(")");
            }
            out.append("(");
            push_integer(out, count as i64);
            out.append(")");
        }
        assert(out@ =~= joined(grown, ", "@));
        true
    } else {
        any
    }
}

impl ReputationBreakdown {
    /// The text of the breakdown, as `breakdown_text` states it: empty where
    /// no outcome is counted.
    pub fn to_string(&self) -> (r: String)
        ensures
            r@ == breakdown_text(self@),
    {
        let mut out = String::new();
        let ghost parts = Seq::<Seq<char>>::empty();
        assert(out@ =~= joined(parts, ", "@));
        let any = push_part(&mut out, false, Ghost(parts), "High", self.high_bounty);
        let ghost parts = with_part(parts, "High"@, self.high_bounty as int);
        let any = push_part(&mut out, any, Ghost(parts), "Medium", self.medium_bounty);
        let ghost parts = with_part(parts, "Medium"@, self.medium_bounty as int);
        let any = push_part(&mut out, any, Ghost(parts), "Low", self.low_bounty);
        let ghost parts = with_part(parts, "Low"@, self.low_bounty as int);
        let any = push_part(&mut out, any, Ghost(parts), "Triage", self.triaged);
        let ghost parts = with_part(parts, "Triage"@, self.triaged as int);
        let any = push_part(&mut out, any, Ghost(parts), "N/A", self.not_applicable);
        let ghost parts = with_part(parts, "N/A"@, self.not_applicable as int);
        let _ = push_part(&mut out, any, Ghost(parts), "Spam", self.spam);
        out
    }
}

/// Splits a reputation change into the report outcomes that account for it.
pub fn calculate_rep_breakdown(rep_points: i32) -> (breakdown: ReputationBreakdown)
    ensures
        breakdown@ == breakdown_of(rep_points as int),
{
    let mut rest = rep_points;
    let mut breakdown = ReputationBreakdown {
        high_bounty: 0,
        medium_bounty: 0,
        low_bounty: 0,
        triaged: 0,
        not_applicable: 0,
        spam: 0,
    };
    if rest >= HIGH {
        breakdown.high_bounty = rest / HIGH;
        rest = rest - breakdown.high_bounty * HIGH;
    }
    if rest >= MEDIUM {
        breakdown.medium_bounty = rest / MEDIUM;
        rest = rest - breakdown.medium_bounty * MEDIUM;
    }
    if rest >= LOW {
        breakdown.low_bounty = rest / LOW;
        rest = rest - breakdown.low_bounty * LOW;
    }
    if rest >= TRIAGED {
        breakdown.triaged = rest / TRIAGED;
        rest = rest - breakdown.triaged * TRIAGED;
    }
    if rest <= NOT_APPLICABLE {
        breakdown.not_applicable = rest / NOT_APPLICABLE;
        rest = rest - breakdown.not_applicable * NOT_APPLICABLE;
    }
    if rest <= SPAM {
        breakdown.spam = rest / SPAM;
    }
    breakdown
}

} // verus!
