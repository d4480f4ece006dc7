//! What is told of a change of the leaderboard.

use vstd::prelude::*;
use vstd::string::StringExecFns;
use crate::breakdown::{breakdown_of, breakdown_text, calculate_rep_breakdown};
use crate::models::embed_colors::{MAJOR, NEGATIVE, POSTIVE};
use crate::models::{ChangeKind, RepChange, RepChangeView, RepDataView};
use crate::subscriptions::{page_link, push_page_link, Notification, NotificationView};
use crate::text::{clamped_difference, decimal, difference, push_integer};

verus! {

/// The gain from which a change counts as a major one, and the rank from
/// which an addition does.
pub const MAJOR_FROM: i64 = 50;

/// The programme of a change: that of the side before, or else that of the
/// side after.
pub open spec fn programme_of(change: RepChangeView) -> Option<Seq<char>> {
    match change.before.team_handle {
        Some(handle) => Some(handle),
        None => change.after.team_handle,
    }
}

/// The programme of a change.
pub fn team_handle_of(change: &RepChange) -> (r: Option<&String>)
    ensures
        match r {
            Some(handle) => programme_of(change@) == Some(handle@),
            None => programme_of(change@) is None,
        },
{
    match &change.before.team_handle {
        Some(handle) => Some(handle),
        None => match &change.after.team_handle {
            Some(handle) => Some(handle),
            None => None,
        },
    }
}

/// What is said of a rank: its number, or that it is beyond the hundredth
/// where the rank is unknown.
pub open spec fn rank_text(rank: int) -> Seq<char> {
    if rank == -1 {
        ">100"@
    } else {
        "#"@ + decimal(rank)
    }
}

/// The text for a participant who is new to the leaderboard.
pub open spec fn added_text(new: RepDataView, handle: Seq<char>) -> Seq<char> {
    page_link(new.user_name) + " was added to "@ + page_link(handle) + " with **"@ + decimal(
        new.reputation,
    ) + " reputation** (rank: "@ + rank_text(new.rank) + ")"@
}

/// The text for a participant who has left the leaderboard.
pub open spec fn removed_text(old: RepDataView, handle: Seq<char>) -> Seq<char> {
    page_link(old.user_name) + " was removed from "@ + page_link(handle)
}

/// The words that name the programme, where it is to be named.
pub open spec fn programme_text(handle: Seq<char>, include_team_handle: bool) -> Seq<char> {
    if include_team_handle {
        " in "@ + page_link(handle)
    } else {
        Seq::empty()
    }
}

/// The text for a participant whose reputation has changed by `change`: a
/// gain is written with a plus sign, a loss as the negative number it is.
pub open spec fn changed_text(
    new: RepDataView,
    change: int,
    handle: Seq<char>,
    include_team_handle: bool,
) -> Seq<char> {
    let verb = if change > 0 {
        " gained **+"@
    } else {
        " lost **"@
    };
    page_link(new.user_name) + verb + decimal(change) + " reputation** and now has **"@ + decimal(
        new.reputation,
    ) + " reputation**"@ + programme_text(handle, include_team_handle)
}

/// What is said of a climb in rank, where there is one: both ranks and the
/// places between them, marked `+` for a gain of reputation and `-`, before
/// the negative distance, for a loss.
pub open spec fn climb_text(old_rank: int, new_rank: int, gain: bool) -> Seq<char> {
    if new_rank < old_rank {
        let distance = if gain {
            " (+"@ + decimal(clamped_difference(old_rank, new_rank))
        } else {
            " (-"@ + decimal(clamped_difference(new_rank, old_rank))
        };
        "#"@ + decimal(old_rank) + " -> #"@ + decimal(new_rank) + distance + ")"@
    } else {
        Seq::empty()
    }
}

/// What stands between the climb and the breakdown in a footer.
pub open spec fn footer_separator(gain: bool) -> Seq<char> {
    if gain {
        " \u{e2}\u{20ac}\u{a2} "@
    } else {
        "| "@
    }
}

/// The footer: the climb in rank and the breakdown of the change, as far as
/// there is either, with the separator between them where there are both.
pub open spec fn footer_text(climb: Seq<char>, breakdown: Seq<char>, gain: bool) -> Option<
    Seq<char>,
> {
    if climb.len() > 0 && breakdown.len() > 0 {
        Some(climb + footer_separator(gain) + breakdown)
    } else if climb.len() > 0 {
        Some(climb)
    } else if breakdown.len() > 0 {
        Some(breakdown)
    } else {
        None
    }
}

/// The change of reputation as the breakdown takes it: within 32 bits.
pub open spec fn breakdown_points(change: int) -> int {
    if change > i32::MAX {
        i32::MAX as int
    } else if change < i32::MIN {
        i32::MIN as int
    } else {
        change
    }
}

/// What is told of a change, if anything.
///
/// An addition and a removal are told as such. An update is told as a gain
/// or a loss of reputation, with the climb in rank and the breakdown of the
/// change as a footer; where the reputation is the same on both sides,
/// nothing is told. A gain of at least `MAJOR_FROM`, and an addition at a
/// rank of at least `MAJOR_FROM`, is coloured as major.
pub open spec fn told_of(change: RepChangeView, handle: Seq<char>, include_team_handle: bool)
    -> Option<NotificationView> {
    let old = change.before;
    let new = change.after;
    match change.kind() {
        ChangeKind::Added => Some(
            NotificationView {
                description: added_text(new, handle),
                color: if new.rank >= MAJOR_FROM {
                    MAJOR
                } else {
                    POSTIVE
                },
                footer: None,
            },
        ),
        ChangeKind::Removed => Some(
            NotificationView {
                description: removed_text(old, handle),
                color: NEGATIVE,
                footer: None,
            },
        ),
        ChangeKind::Updated => {
            let by = clamped_difference(new.reputation, old.reputation);
            if by == 0 {
                None
            } else {
                let gain = by > 0;
                Some(
                    NotificationView {
                        description: changed_text(new, by, handle, include_team_handle),
                        color: if !gain {
                            NEGATIVE
                        } else if by >= MAJOR_FROM {
                            MAJOR
                        } else {
                            POSTIVE
                        },
                        footer: footer_text(
                            climb_text(old.rank, new.rank, gain),
                            breakdown_text(breakdown_of(breakdown_points(by))),
                            gain,
                        ),
                    },
                )
            }
        },
    }
}

fn plain(description: String, color: u32, footer: Option<String>) -> (r: Notification)
    ensures
        r@ == (NotificationView { description: description@, color, footer: footer.deep_view() }),
        r.title is None,
        r.url is None,
        r.description is Some,
        r.fields@.len() == 0,
{
    Notification {
        title: None,
        url: None,
        description: Some(description),
        color,
        fields: Vec::new(),
        footer,
    }
}

fn climb(old_rank: i64, new_rank: i64, gain: bool) -> (r: String)
    ensures
        r@ == climb_text(old_rank as int, new_rank as int, gain),
{
    let mut out = String::new();
    if new_rank < old_rank {
        out.append("#");
        push_integer(&mut out, old_rank);
        out.append(" -> #");
        push_integer(&mut out, new_rank);
        if gain {
            out.append(" (+");
            push_integer(&mut out, difference(old_rank, new_rank));
        } else {
            out.append(" (-");
            push_integer(&mut out, difference(new_rank, old_rank));
        }
        out.append(")");
    }
    assert(out@ =~= climb_text(old_rank as int, new_rank as int, gain));
    out
}

fn footer(climb: String, breakdown: String, gain: bool) -> (r: Option<String>)
    ensures
        r.deep_view() == footer_text(climb@, breakdown@, gain),
{
    let has_climb = !climb.as_str().is_empty();
    let has_breakdown = !breakdown.as_str().is_empty();
    if has_climb && has_breakdown {
        let mut out = climb;
        if gain {
            out.append(" \u{e2}\u{20ac}\u{a2} ");
        } else {
            out.append("| ");
        }
        out.append(breakdown.as_str());
        Some(out)
    } else if has_climb {
        Some(climb)
    } else if has_breakdown {
        Some(breakdown)
    } else {
        None
    }
}

/// Builds what is told of a change of the leaderboard of `handle`.
///
/// The result is a notification with a description, a colour and at most a
/// footer, as `told_of` states them, and with nothing else.
pub fn build_embed_data(change: &RepChange, handle: &str, include_team_handle: bool) -> (r: Option<
    Notification,
>)
    ensures
        match r {
            Some(notification) => {
                &&& told_of(change@, handle@, include_team_handle) == Some(notification@)
                &&& notification.title is None
                &&& notification.url is None
                &&& notification.description is Some
                &&& notification.fields@.len() == 0
            },
            None => told_of(change@, handle@, include_team_handle) is None,
        },
{
    let old = &change.before;
    let new = &change.after;
    match change.kind() {
        ChangeKind::Added => {
            let mut text = String::new();
            push_page_link(&mut text, new.user_name.as_str());
            text.append(" was added to ");
            push_page_link(&mut text, handle);
            text.append(" with **");
            push_integer(&mut text, new.reputation);
            text.append(" reputation** (rank: ");
            if new.rank == -1 {
                text.append(">100");
            } else {
                text.append("#");
                push_integer(&mut text, new.rank);
            }
            text.append(")");
            assert(text@ =~= added_text(new@, handle@));
            let color = if new.rank >= MAJOR_FROM {
                MAJOR
            } else {
                POSTIVE
            };
            Some(plain(text, color, None))
        },
        ChangeKind::Removed => {
            let mut text = String::new();
            push_page_link(&mut text, old.user_name.as_str());
            text.append(" was removed from ");
            push_page_link(&mut text, handle);
            assert(text@ =~= removed_text(old@, handle@));
            Some(plain(text, NEGATIVE, None))
        },
        ChangeKind::Updated => {
            let by = difference(new.reputation, old.reputation);
            if by == 0 {
                return None;
            }
            let gain = by > 0;
            let mut text = String::new();
            push_page_link(&mut text, new.user_name.as_str());
            if gain {
                text.append(" gained **+");
            } else {
                text.append(" lost **");
            }
            push_integer(&mut text, by);
            text.append(" reputation** and now has **");
            push_integer(&mut text, new.reputation);
            text.append(" reputation**");
            if include_team_handle {
                text.append(" in ");
                push_page_link(&mut text, handle);
            }
            assert(text@ =~= changed_text(new@, by as int, handle@, include_team_handle));
            let points: i32 = if by > 0x7fff_ffff {
                0x7fff_ffff
            } else if by < -0x8000_0000 {
                -0x8000_0000
            } else {
                by as i32
            };
            let breakdown = calculate_rep_breakdown(points).to_string();
            let color = if !gain {
                NEGATIVE
            } else if by >= MAJOR_FROM {
                MAJOR
            } else {
                POSTIVE
            };
            Some(plain(text, color, footer(climb(old.rank, new.rank, gain), breakdown, gain)))
        },
    }
}

} // verus!
